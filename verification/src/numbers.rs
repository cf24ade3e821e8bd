//! Decimal numerals: printing an unsigned integer and parsing one back,
//! used for download-link indices, collision counters and configuration
//! values.

use vstd::prelude::*;

verus! {

/// A decimal digit character.
pub open spec fn is_digit(c: char) -> bool {
    48 <= c as u32 <= 57
}

/// The numeric value of a digit character.
pub open spec fn digit_val(c: char) -> nat
    recommends
        is_digit(c),
{
    (c as u32 - 48) as nat
}

/// The digit character for a value below ten.
pub open spec fn digit_char(d: int) -> char
    recommends
        0 <= d < 10,
{
    if d == 0 {
        '0'
    } else if d == 1 {
        '1'
    } else if d == 2 {
        '2'
    } else if d == 3 {
        '3'
    } else if d == 4 {
        '4'
    } else if d == 5 {
        '5'
    } else if d == 6 {
        '6'
    } else if d == 7 {
        '7'
    } else if d == 8 {
        '8'
    } else {
        '9'
    }
}

/// Every character of `s` is a decimal digit.
pub open spec fn is_digits(s: Seq<char>) -> bool {
    forall|i: int| 0 <= i < s.len() ==> is_digit(#[trigger] s[i])
}

/// The number denoted by a digit string, most significant digit first.
pub open spec fn dec_val(s: Seq<char>) -> nat
    decreases s.len(),
{
    if s.len() == 0 {
        0
    } else {
        dec_val(s.drop_last()) * 10 + digit_val(s.last())
    }
}

/// The canonical decimal numeral of `n`: no sign, no leading zero
/// (except for `0` itself).
pub open spec fn spec_udec(n: nat) -> Seq<char>
    decreases n,
{
    if n < 10 {
        seq![digit_char(n as int)]
    } else {
        spec_udec(n / 10) + seq![digit_char((n % 10) as int)]
    }
}

pub proof fn lemma_digit_char_val(d: int)
    requires
        0 <= d < 10,
    ensures
        is_digit(digit_char(d)),
        digit_val(digit_char(d)) == d,
{
}

/// The canonical numeral consists of digits and denotes `n` again.
pub proof fn lemma_udec_val(n: nat)
    ensures
        spec_udec(n).len() >= 1,
        is_digits(spec_udec(n)),
        dec_val(spec_udec(n)) == n,
    decreases n,
{
    if n < 10 {
        lemma_digit_char_val(n as int);
        assert(spec_udec(n).drop_last() =~= Seq::<char>::empty());
        assert(spec_udec(n).last() == digit_char(n as int));
        assert(dec_val(Seq::<char>::empty()) == 0);
        assert(dec_val(spec_udec(n)) == dec_val(Seq::<char>::empty()) * 10 + digit_val(digit_char(n as int)));
    } else {
        lemma_udec_val(n / 10);
        lemma_digit_char_val((n % 10) as int);
        assert(spec_udec(n).drop_last() =~= spec_udec(n / 10));
        assert(spec_udec(n).last() == digit_char((n % 10) as int));
        assert(dec_val(spec_udec(n)) == (n / 10) * 10 + n % 10);
        assert(n == (n / 10) * 10 + n % 10) by {
            vstd::arithmetic::div_mod::lemma_fundamental_div_mod(n as int, 10);
        }
    }
}

/// Distinct numbers have distinct numerals.
pub proof fn lemma_udec_injective(a: nat, b: nat)
    requires
        spec_udec(a) == spec_udec(b),
    ensures
        a == b,
{
    lemma_udec_val(a);
    lemma_udec_val(b);
}

/// A digit string's value only grows as more digits are appended.
pub proof fn lemma_dec_val_prefix(s: Seq<char>, j: int)
    requires
        0 <= j <= s.len(),
    ensures
        dec_val(s.take(j)) <= dec_val(s),
    decreases s.len(),
{
    if j < s.len() {
        assert(s.drop_last().take(j) =~= s.take(j));
        lemma_dec_val_prefix(s.drop_last(), j);
    } else {
        assert(s.take(j) =~= s);
    }
}

fn digit_str(d: usize) -> (r: String)
    requires
        d < 10,
    ensures
        r@ == seq![digit_char(d as int)],
{
    proof {
        reveal_strlit("0");
        reveal_strlit("1");
        reveal_strlit("2");
        reveal_strlit("3");
        reveal_strlit("4");
        reveal_strlit("5");
        reveal_strlit("6");
        reveal_strlit("7");
        reveal_strlit("8");
        reveal_strlit("9");
    }
    let r: String = if d == 0 {
        String::from_str("0")
    } else if d == 1 {
        String::from_str("1")
    } else if d == 2 {
        String::from_str("2")
    } else if d == 3 {
        String::from_str("3")
    } else if d == 4 {
        String::from_str("4")
    } else if d == 5 {
        String::from_str("5")
    } else if d == 6 {
        String::from_str("6")
    } else if d == 7 {
        String::from_str("7")
    } else if d == 8 {
        String::from_str("8")
    } else {
        String::from_str("9")
    };
    proof {
        assert(r@ =~= seq![digit_char(d as int)]);
    }
    r
}

/// Prints `n` as its canonical decimal numeral.
pub fn usize_to_dec(n: usize) -> (r: String)
    ensures
        r@ == spec_udec(n as nat),
    decreases n,
{
    if n < 10 {
        digit_str(n)
    } else {
        let mut r = usize_to_dec(n / 10);
        let tail = digit_str(n % 10);
        r.append(tail.as_str());
        proof {
            assert(r@ =~= spec_udec(n as nat));
        }
        r
    }
}

/// Parses `s` as an unsigned decimal number of at most `max`.
/// Returns the value exactly when `s` is a non-empty digit string whose
/// value does not exceed `max`.
pub fn parse_usize_bounded(s: &str, max: usize) -> (r: Option<usize>)
    ensures
        r is Some <==> (s@.len() > 0 && is_digits(s@) && dec_val(s@) <= max as nat),
        r matches Some(v) ==> v as nat == dec_val(s@),
{
    let n = s.unicode_len();
    if n == 0 {
        return None;
    }
    let mut acc: usize = 0;
    let mut i: usize = 0;
    while i < n
        invariant
            0 <= i <= n,
            n == s@.len(),
            is_digits(s@.take(i as int)),
            acc as nat == dec_val(s@.take(i as int)),
            acc <= max,
        decreases n - i,
    {
        let c = s.get_char(i);
        let u = c as u32;
        if u < 48 || u > 57 {
            proof {
                assert(!is_digit(s@[i as int]));
            }
            return None;
        }
        let d = (u - 48) as usize;
        proof {
            assert(s@.take(i + 1).drop_last() =~= s@.take(i as int));
            assert(s@.take(i + 1).last() == s@[i as int]);
        }
        if acc > max / 10 || (acc == max / 10 && d > max % 10) {
            proof {
                assert(dec_val(s@.take(i + 1)) == acc * 10 + d);
                assert(acc * 10 + d > max) by (nonlinear_arith)
                    requires
                        acc > max / 10 && d >= 0 || (acc == max / 10 && d > max % 10),
                        max == (max / 10) * 10 + max % 10,
                        acc >= 0,
                        d >= 0,
                ;
                lemma_dec_val_prefix(s@, i + 1);
            }
            return None;
        }
        proof {
            assert(acc * 10 + d <= max) by (nonlinear_arith)
                requires
                    acc <= max / 10,
                    acc == max / 10 ==> d <= max % 10,
                    max == (max / 10) * 10 + max % 10,
                    acc >= 0,
                    0 <= d <= 9,
            ;
        }
        acc = acc * 10 + d;
        i = i + 1;
    }
    proof {
        assert(s@.take(n as int) =~= s@);
    }
    Some(acc)
}

/// `s` without one leading plus sign, if it has one.
pub open spec fn strip_plus(s: Seq<char>) -> Seq<char> {
    if s.len() > 0 && s[0] == '+' {
        s.skip(1)
    } else {
        s
    }
}

/// An unsigned decimal numeral of at most `max`, with an optional
/// leading plus sign, as std reads unsigned integers.
pub open spec fn is_uint(s: Seq<char>, max: nat) -> bool {
    let t = strip_plus(s);
    t.len() > 0 && is_digits(t) && dec_val(t) <= max
}

/// Parses `s` as std's unsigned readers do: digits with an optional
/// leading plus sign, successful exactly on numerals of at most `max`.
pub fn parse_uint(s: &str, max: usize) -> (r: Option<usize>)
    ensures
        r is Some <==> is_uint(s@, max as nat),
        r matches Some(v) ==> v as nat == dec_val(strip_plus(s@)),
{
    let n = s.unicode_len();
    let t = if n > 0 && s.get_char(0) == '+' {
        s.substring_char(1, n)
    } else {
        s
    };
    proof {
        assert(t@ =~= strip_plus(s@));
    }
    parse_usize_bounded(t, max)
}

} // verus!
