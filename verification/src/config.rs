//! Startup configuration checks: the listen address, the listen port and
//! the upload size cap each come in as text and must be rejected with a
//! descriptive message rather than letting the process start on an
//! unusable value.

use vstd::prelude::*;
use crate::numbers::dec_val;
use crate::numbers::is_digit;
use crate::numbers::is_digits;
use crate::numbers::is_uint;
use crate::numbers::parse_uint;
use crate::numbers::parse_usize_bounded;

verus! {

/// Which startup value is being validated.
#[derive(Clone, Copy, Debug, PartialEq, Eq, Structural)]
pub enum ConfigKind {
    Address,
    Port,
    UploadSize,
}

/// Where the run of digits beginning at `p` ends: the first position at
/// or after `p` holding no digit.
pub open spec fn digit_run_end(s: Seq<char>, p: int) -> int
    decreases s.len() - p,
{
    if p < 0 || p >= s.len() {
        p
    } else if !is_digit(s[p]) {
        p
    } else {
        digit_run_end(s, p + 1)
    }
}

proof fn lemma_digit_run_end(s: Seq<char>, p: int, q: int)
    requires
        0 <= p <= q <= s.len(),
        forall|j: int| p <= j < q ==> is_digit(#[trigger] s[j]),
        q == s.len() || !is_digit(s[q]),
    ensures
        digit_run_end(s, p) == q,
    decreases q - p,
{
    if p < q {
        lemma_digit_run_end(s, p + 1, q);
    }
}

/// One dotted-quad component: one to three digits, no leading zero, and
/// a value of at most 255.
pub open spec fn is_octet(s: Seq<char>) -> bool {
    1 <= s.len() <= 3 && is_digits(s) && (s.len() > 1 ==> s[0] != '0') && dec_val(s) <= 255
}

/// A dotted-quad address: four octets, maximal digit runs, separated by
/// single dots, covering the whole string.
pub open spec fn is_ipv4(s: Seq<char>) -> bool {
    let i1 = digit_run_end(s, 0);
    let i2 = digit_run_end(s, i1 + 1);
    let i3 = digit_run_end(s, i2 + 1);
    &&& is_octet(s.subrange(0, i1))
    &&& i1 < s.len() && s[i1] == '.'
    &&& is_octet(s.subrange(i1 + 1, i2))
    &&& i2 < s.len() && s[i2] == '.'
    &&& is_octet(s.subrange(i2 + 1, i3))
    &&& i3 < s.len() && s[i3] == '.'
    &&& digit_run_end(s, i3 + 1) == s.len()
    &&& is_octet(s.subrange(i3 + 1, s.len() as int))
}

fn scan_digits(s: &str, p: usize) -> (q: usize)
    requires
        p <= s@.len(),
    ensures
        p <= q <= s@.len(),
        q == digit_run_end(s@, p as int),
{
    let n = s.unicode_len();
    let mut q = p;
    loop
        invariant
            p <= q <= n,
            n == s@.len(),
            forall|j: int| p <= j < q ==> is_digit(#[trigger] s@[j]),
        ensures
            p <= q <= n,
            forall|j: int| p <= j < q ==> is_digit(#[trigger] s@[j]),
            q == n || !is_digit(s@[q as int]),
        decreases n - q,
    {
        if q >= n {
            break;
        }
        let u = s.get_char(q) as u32;
        if u < 48 || u > 57 {
            break;
        }
        q = q + 1;
    }
    proof {
        lemma_digit_run_end(s@, p as int, q as int);
    }
    q
}

fn check_octet(s: &str, from: usize, to: usize) -> (r: bool)
    requires
        from <= to <= s@.len(),
    ensures
        r == is_octet(s@.subrange(from as int, to as int)),
{
    let len = to - from;
    if len < 1 || len > 3 {
        return false;
    }
    let sub = s.substring_char(from, to);
    if parse_usize_bounded(sub, 255).is_none() {
        return false;
    }
    if len > 1 && sub.get_char(0) == '0' {
        return false;
    }
    true
}

/// Checks a dotted-quad listen address.
pub fn validate_ipv4(s: &str) -> (r: bool)
    ensures
        r == is_ipv4(s@),
{
    let n = s.unicode_len();
    let i1 = scan_digits(s, 0);
    if !check_octet(s, 0, i1) {
        return false;
    }
    if i1 >= n || s.get_char(i1) != '.' {
        return false;
    }
    let i2 = scan_digits(s, i1 + 1);
    if !check_octet(s, i1 + 1, i2) {
        return false;
    }
    if i2 >= n || s.get_char(i2) != '.' {
        return false;
    }
    let i3 = scan_digits(s, i2 + 1);
    if !check_octet(s, i2 + 1, i3) {
        return false;
    }
    if i3 >= n || s.get_char(i3) != '.' {
        return false;
    }
    let i4 = scan_digits(s, i3 + 1);
    if i4 != n {
        return false;
    }
    check_octet(s, i3 + 1, n)
}

/// Checks an unsigned decimal value of at most `max`.
pub fn validate_uint(s: &str, max: usize) -> (r: bool)
    ensures
        r == is_uint(s@, max as nat),
{
    parse_uint(s, max).is_some()
}

/// A hexadecimal digit, either case.
pub open spec fn is_hex_digit(c: char) -> bool {
    is_digit(c) || (97 <= c as u32 <= 102) || (65 <= c as u32 <= 70)
}

/// Where the run of hexadecimal digits beginning at `p` ends.
pub open spec fn hex_run_end(s: Seq<char>, p: int) -> int
    decreases s.len() - p,
{
    if p < 0 || p >= s.len() {
        p
    } else if !is_hex_digit(s[p]) {
        p
    } else {
        hex_run_end(s, p + 1)
    }
}

proof fn lemma_hex_run_end(s: Seq<char>, p: int, q: int)
    requires
        0 <= p <= q <= s.len(),
        forall|j: int| p <= j < q ==> is_hex_digit(#[trigger] s[j]),
        q == s.len() || !is_hex_digit(s[q]),
    ensures
        hex_run_end(s, p) == q,
    decreases q - p,
{
    if p < q {
        lemma_hex_run_end(s, p + 1, q);
    }
}

/// How many colon-separated groups of one to four hex digits exactly
/// fill `s[p..d)`, or -1 when that span is no such group list.
pub open spec fn head_groups(s: Seq<char>, p: int, d: int) -> int
    decreases d - p,
{
    if p == d {
        0
    } else {
        let e = hex_run_end(s, p);
        if 1 <= e - p <= 4 {
            if e == d {
                1
            } else if e < d && s[e] == ':' {
                let rest = head_groups(s, e + 1, d);
                if rest >= 1 {
                    rest + 1
                } else {
                    -1
                }
            } else {
                -1
            }
        } else {
            -1
        }
    }
}

/// Where a greedy reader stands after `k` colon-separated groups of one
/// to four hex digits starting at `p`, or -1 when it cannot get there.
pub open spec fn group_end(s: Seq<char>, p: int, k: int) -> int
    decreases k,
{
    if k <= 0 {
        p
    } else {
        let e = hex_run_end(s, p);
        if 1 <= e - p <= 4 {
            if k == 1 {
                e
            } else if e < s.len() && s[e] == ':' {
                group_end(s, e + 1, k - 1)
            } else {
                -1
            }
        } else {
            -1
        }
    }
}

/// The part of an elided address after the `::`: colon-separated hex
/// groups filling everything to the end, at most `room` of them, where
/// an embedded dotted quad may stand for the final two.
pub open spec fn ipv6_tail(s: Seq<char>, p: int, room: int) -> bool
    decreases s.len() - p,
{
    if p < 0 || p > s.len() {
        false
    } else if p == s.len() {
        true
    } else if room <= 0 {
        false
    } else {
        let e = hex_run_end(s, p);
        (room >= 2 && is_ipv4(s.skip(p))) || (1 <= e - p <= 4 && (e == s.len() || (e < s.len()
            && s[e] == ':' && e + 1 < s.len() && ipv6_tail(s, e + 1, room - 1))))
    }
}

/// The position of the first `::` of `s` at or after `p`; the length of
/// `s` when there is none.
pub open spec fn first_dcolon(s: Seq<char>, p: int) -> int
    decreases s.len() - p,
{
    if p < 0 || p + 2 > s.len() {
        s.len() as int
    } else if s[p] == ':' && s[p + 1] == ':' {
        p
    } else {
        first_dcolon(s, p + 1)
    }
}

/// A colon-grouped address as std reads one: eight groups of one to four
/// hex digits, a dotted quad allowed as the final two, with one `::`
/// allowed to elide one or more zero groups.
pub open spec fn is_ipv6(s: Seq<char>) -> bool {
    let d = first_dcolon(s, 0);
    if d == s.len() {
        head_groups(s, 0, s.len() as int) == 8 || {
            let q = group_end(s, 0, 6);
            0 <= q < s.len() && s[q] == ':' && is_ipv4(s.skip(q + 1))
        }
    } else {
        let h = head_groups(s, 0, d);
        0 <= h <= 7 && ipv6_tail(s, d + 2, 7 - h)
    }
}

fn scan_hex(s: &str, p: usize) -> (q: usize)
    requires
        p <= s@.len(),
    ensures
        p <= q <= s@.len(),
        q == hex_run_end(s@, p as int),
{
    let n = s.unicode_len();
    let mut q = p;
    loop
        invariant
            p <= q <= n,
            n == s@.len(),
            forall|j: int| p <= j < q ==> is_hex_digit(#[trigger] s@[j]),
        ensures
            p <= q <= n,
            forall|j: int| p <= j < q ==> is_hex_digit(#[trigger] s@[j]),
            q == n || !is_hex_digit(s@[q as int]),
        decreases n - q,
    {
        if q >= n {
            break;
        }
        let u = s.get_char(q) as u32;
        let hex = (48 <= u && u <= 57) || (97 <= u && u <= 102) || (65 <= u && u <= 70);
        if !hex {
            break;
        }
        q = q + 1;
    }
    proof {
        lemma_hex_run_end(s@, p as int, q as int);
    }
    q
}

fn head_groups_exec(s: &str, p: usize, d: usize) -> (r: Option<usize>)
    requires
        p <= d <= s@.len(),
    ensures
        r matches Some(h) ==> head_groups(s@, p as int, d as int) == h && h <= d - p,
        r is None ==> head_groups(s@, p as int, d as int) == -1,
    decreases d - p,
{
    if p == d {
        return Some(0);
    }
    let e = scan_hex(s, p);
    if e - p < 1 || e - p > 4 {
        return None;
    }
    if e == d {
        return Some(1);
    }
    if e < d && s.get_char(e) == ':' {
        match head_groups_exec(s, e + 1, d) {
            Some(h) => {
                if h >= 1 {
                    Some(h + 1)
                } else {
                    None
                }
            },
            None => None,
        }
    } else {
        None
    }
}

fn group_end_exec(s: &str, p: usize, k: usize) -> (r: Option<usize>)
    requires
        p <= s@.len(),
        k >= 1,
    ensures
        r matches Some(q) ==> group_end(s@, p as int, k as int) == q && p <= q <= s@.len(),
        r is None ==> group_end(s@, p as int, k as int) == -1,
    decreases k,
{
    let e = scan_hex(s, p);
    if e - p < 1 || e - p > 4 {
        return None;
    }
    if k == 1 {
        return Some(e);
    }
    let n = s.unicode_len();
    if e < n && s.get_char(e) == ':' {
        group_end_exec(s, e + 1, k - 1)
    } else {
        None
    }
}

fn ipv6_tail_exec(s: &str, p: usize, room: usize) -> (r: bool)
    requires
        p <= s@.len(),
    ensures
        r == ipv6_tail(s@, p as int, room as int),
    decreases s@.len() - p,
{
    let n = s.unicode_len();
    if p == n {
        return true;
    }
    if room == 0 {
        return false;
    }
    let rest = s.substring_char(p, n);
    proof {
        assert(rest@ =~= s@.skip(p as int));
    }
    if room >= 2 && validate_ipv4(rest) {
        return true;
    }
    let e = scan_hex(s, p);
    if e - p < 1 || e - p > 4 {
        return false;
    }
    if e == n {
        return true;
    }
    if s.get_char(e) == ':' && e + 1 < n {
        ipv6_tail_exec(s, e + 1, room - 1)
    } else {
        false
    }
}

fn find_dcolon(s: &str) -> (d: usize)
    ensures
        d == first_dcolon(s@, 0),
        d <= s@.len(),
        d < s@.len() ==> d + 2 <= s@.len() && s@[d as int] == ':' && s@[d as int + 1] == ':',
{
    let n = s.unicode_len();
    let mut i: usize = 0;
    let mut found = false;
    loop
        invariant_except_break
            !found,
        invariant
            i <= n,
            n == s@.len(),
            first_dcolon(s@, 0) == first_dcolon(s@, i as int),
        ensures
            i <= n,
            n == s@.len(),
            first_dcolon(s@, 0) == first_dcolon(s@, i as int),
            found ==> i as int + 2 <= n && s@[i as int] == ':' && s@[i as int + 1] == ':',
            !found ==> i as int + 2 > n,
        decreases n - i,
    {
        if n < 2 || i > n - 2 {
            break;
        }
        if s.get_char(i) == ':' && s.get_char(i + 1) == ':' {
            found = true;
            break;
        }
        proof {
            assert(first_dcolon(s@, i as int) == first_dcolon(s@, i as int + 1));
        }
        i = i + 1;
    }
    if found {
        proof {
            assert(first_dcolon(s@, i as int) == i);
        }
        i
    } else {
        proof {
            assert(first_dcolon(s@, i as int) == n);
        }
        n
    }
}

/// Checks a colon-grouped listen address, as std accepts one.
pub fn validate_ipv6(s: &str) -> (r: bool)
    ensures
        r == is_ipv6(s@),
{
    let n = s.unicode_len();
    let d = find_dcolon(s);
    if d == n {
        match head_groups_exec(s, 0, n) {
            Some(h) => {
                if h == 8 {
                    return true;
                }
            },
            None => {},
        }
        match group_end_exec(s, 0, 6) {
            Some(q) => {
                if q < n && s.get_char(q) == ':' {
                    let rest = s.substring_char(q + 1, n);
                    proof {
                        assert(rest@ =~= s@.skip(q as int + 1));
                    }
                    validate_ipv4(rest)
                } else {
                    false
                }
            },
            None => false,
        }
    } else {
        match head_groups_exec(s, 0, d) {
            Some(h) => {
                if h <= 7 {
                    ipv6_tail_exec(s, d + 2, 7 - h)
                } else {
                    false
                }
            },
            None => false,
        }
    }
}

/// What each startup value must look like: a listen address std can
/// parse (dotted quad or colon-grouped), a port below 65536, or a byte
/// count that fits the machine.
pub open spec fn spec_config_valid(kind: ConfigKind, s: Seq<char>) -> bool {
    match kind {
        ConfigKind::Address => is_ipv4(s) || is_ipv6(s),
        ConfigKind::Port => is_uint(s, 0xffff),
        ConfigKind::UploadSize => is_uint(s, usize::MAX as nat),
    }
}

/// Validates one startup value, reporting a descriptive message for a
/// malformed one. Accepts exactly the values `spec_config_valid` admits,
/// so startup can refuse everything else.
pub fn validate(kind: ConfigKind, val: &str) -> (r: Result<(), String>)
    ensures
        r is Ok <==> spec_config_valid(kind, val@),
{
    match kind {
        ConfigKind::Address => {
            if validate_ipv4(val) || validate_ipv6(val) {
                Ok(())
            } else {
                Err(String::from_str("invalid listen address: expected one like 0.0.0.0 or ::1"))
            }
        },
        ConfigKind::Port => {
            if validate_uint(val, 0xffff) {
                Ok(())
            } else {
                Err(String::from_str("invalid port: expected a number between 0 and 65535"))
            }
        },
        ConfigKind::UploadSize => {
            if validate_uint(val, usize::MAX) {
                Ok(())
            } else {
                Err(String::from_str("invalid upload size: expected a byte count"))
            }
        },
    }
}

} // verus!
