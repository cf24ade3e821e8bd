//! The upload acceptor's decisions: the size cap, filename sanitization
//! and collision-safe naming. The surrounding plumbing decodes the
//! multipart body and copies bytes to disk; everything it needs to decide
//! is a plain value handed to the functions here.

use vstd::prelude::*;
use crate::numbers::spec_udec;
use crate::numbers::usize_to_dec;
use crate::numbers::lemma_udec_val;
use crate::text::str_eq;

verus! {

/// A character admitted in a proposed upload filename: ASCII letters,
/// digits, dot, hyphen and underscore.
pub open spec fn is_allowed_char(c: char) -> bool {
    (97 <= c as u32 <= 122) || (65 <= c as u32 <= 90) || (48 <= c as u32 <= 57) || c == '.' || c
        == '-' || c == '_'
}

/// Every character of `s` is admitted.
pub open spec fn all_allowed(s: Seq<char>) -> bool {
    forall|i: int| 0 <= i < s.len() ==> is_allowed_char(#[trigger] s[i])
}

/// The whole-name replacement policy: a candidate with any character
/// outside the admitted set is discarded entirely in favour of the
/// fallback, never stripped or escaped.
pub open spec fn spec_sanitize(candidate: Seq<char>, fallback: Seq<char>) -> Seq<char> {
    if all_allowed(candidate) {
        candidate
    } else {
        fallback
    }
}

fn allowed_char(c: char) -> (b: bool)
    ensures
        b == is_allowed_char(c),
{
    let u = c as u32;
    (97 <= u && u <= 122) || (65 <= u && u <= 90) || (48 <= u && u <= 57) || c == '.' || c == '-'
        || c == '_'
}

/// Law (sanitization): a candidate containing any character outside
/// `[A-Za-z0-9._-]` is replaced by the fallback name, never stored under
/// the rejected name; a fully admitted candidate is kept as it is.
pub fn sanitize_file_name(candidate: &str, fallback: &str) -> (r: String)
    ensures
        r@ == spec_sanitize(candidate@, fallback@),
        !all_allowed(candidate@) ==> r@ == fallback@,
        all_allowed(candidate@) ==> r@ == candidate@,
{
    let n = candidate.unicode_len();
    let mut i: usize = 0;
    while i < n
        invariant
            i <= n,
            n == candidate@.len(),
            forall|j: int| 0 <= j < i ==> is_allowed_char(#[trigger] candidate@[j]),
        decreases n - i,
    {
        if !allowed_char(candidate.get_char(i)) {
            return fallback.to_owned();
        }
        i = i + 1;
    }
    candidate.to_owned()
}

/// The probe name tried at step `k` of collision resolution: the counter,
/// a hyphen, then the name.
pub open spec fn numbered(k: nat, name: Seq<char>) -> Seq<char> {
    spec_udec(k) + seq!['-'] + name
}

/// Whether one of `names` is `x`.
pub open spec fn names_contain(names: Seq<Seq<char>>, x: Seq<char>) -> bool {
    exists|i: int| 0 <= i < names.len() && names[i] == x
}

/// Distinct counters give distinct probe names.
proof fn lemma_numbered_injective(a: nat, b: nat, name: Seq<char>)
    requires
        numbered(a, name) == numbered(b, name),
    ensures
        a == b,
{
    lemma_udec_val(a);
    lemma_udec_val(b);
    assert(numbered(a, name).len() == spec_udec(a).len() + 1 + name.len());
    assert(numbered(b, name).len() == spec_udec(b).len() + 1 + name.len());
    assert(spec_udec(a).len() == spec_udec(b).len());
    assert(spec_udec(a) =~= spec_udec(b)) by {
        assert forall|i: int| 0 <= i < spec_udec(a).len() implies spec_udec(a)[i] == spec_udec(
            b,
        )[i] by {
            assert(numbered(a, name)[i] == spec_udec(a)[i]);
            assert(numbered(b, name)[i] == spec_udec(b)[i]);
        }
    }
}

/// If the probe names of every counter below `k` all occur among the
/// existing names, there are at least `k` existing names.
proof fn lemma_probe_bound(ex: Seq<Seq<char>>, name: Seq<char>, k: nat)
    requires
        forall|j: nat| j < k ==> names_contain(ex, numbered(j, name)),
    ensures
        k <= ex.len(),
{
    broadcast use vstd::seq_lib::seq_to_set_is_finite;

    let cands = Seq::new(k, |j: int| numbered(j as nat, name));
    assert forall|a: int, b: int| 0 <= a < b < k implies cands[a] != cands[b] by {
        if cands[a] == cands[b] {
            lemma_numbered_injective(a as nat, b as nat, name);
        }
    }
    assert(cands.no_duplicates());
    cands.unique_seq_to_set();
    assert(cands.to_set().subset_of(ex.to_set())) by {
        assert forall|x: Seq<char>| cands.to_set().contains(x) implies ex.to_set().contains(
            x,
        ) by {
            let j = choose|j: int| 0 <= j < cands.len() && cands[j] == x;
            assert(names_contain(ex, numbered(j as nat, name)));
            let i = choose|i: int| 0 <= i < ex.len() && ex[i] == x;
            assert(ex.to_set().contains(ex[i]));
        }
    }
    ex.lemma_cardinality_of_set();
    vstd::set_lib::lemma_len_subset(cands.to_set(), ex.to_set());
}

fn contains_name(names: &Vec<String>, x: &str) -> (r: bool)
    ensures
        r == names_contain(names.deep_view(), x@),
{
    let n = names.len();
    let mut i: usize = 0;
    while i < n
        invariant
            i <= n,
            n == names@.len(),
            forall|j: int| 0 <= j < i ==> names.deep_view()[j] != x@,
        decreases n - i,
    {
        if str_eq(names[i].as_str(), x) {
            assert(names.deep_view()[i as int] == x@);
            return true;
        }
        i = i + 1;
    }
    false
}

fn make_numbered(k: usize, name: &str) -> (r: String)
    ensures
        r@ == numbered(k as nat, name@),
{
    proof {
        reveal_strlit("-");
    }
    let mut r = usize_to_dec(k);
    r.append("-");
    r.append(name);
    proof {
        assert(r@ =~= numbered(k as nat, name@));
    }
    r
}

/// How collision resolution relates the stored name `r` to the wanted
/// name `base` and the names already present: `base` itself when it is
/// free, otherwise the first free probe name `"k-base"`, counting from
/// zero.
pub open spec fn resolves_collision(base: Seq<char>, ex: Seq<Seq<char>>, r: Seq<char>) -> bool {
    &&& !names_contain(ex, r)
    &&& (!names_contain(ex, base) ==> r == base)
    &&& (names_contain(ex, base) ==> exists|k: nat|
        r == numbered(k, base) && forall|j: nat| j < k ==> names_contain(ex, numbered(j, base)))
}

/// Law (collision resolution): if `name` is taken, the stored name is
/// `"0-name"`, `"1-name"`, ... for the smallest counter not yet taken;
/// a free `name` is kept unchanged. The result never equals an existing
/// name.
pub fn resolve_collision(name: &str, existing: &Vec<String>) -> (r: String)
    ensures
        resolves_collision(name@, existing.deep_view(), r@),
{
    if !contains_name(existing, name) {
        return name.to_owned();
    }
    let ghost ex = existing.deep_view();
    let n = existing.len();
    proof {
        assert(ex.len() == n);
    }
    let mut k: usize = 0;
    loop
        invariant
            ex == existing.deep_view(),
            ex.len() == n,
            n == existing@.len(),
            names_contain(ex, name@),
            k <= n,
            forall|j: nat| j < k ==> names_contain(ex, numbered(j, name@)),
        decreases n - k,
    {
        let cand = make_numbered(k, name);
        if !contains_name(existing, cand.as_str()) {
            return cand;
        }
        proof {
            assert forall|j: nat| j < k + 1 implies names_contain(ex, numbered(j, name@)) by {
                if j < k {
                } else {
                    assert(numbered(j, name@) == numbered(k as nat, name@));
                }
            }
            lemma_probe_bound(ex, name@, (k + 1) as nat);
        }
        k = k + 1;
    }
}

/// Why an upload was turned away: the body outgrew the configured cap,
/// or no file part was found in it.
#[derive(Clone, Copy, Debug, PartialEq, Eq, Structural)]
pub enum UploadError {
    TooLarge,
    Missing,
}

/// What the multipart decoder found out about the first file-bearing
/// part: its proposed filename, if it declared one, and how many bytes it
/// carried.
pub struct FilePartInfo {
    pub filename: Option<String>,
    pub size: usize,
}

/// The name an upload asks for before collision resolution: the declared
/// filename after sanitization, or the fallback when none was declared.
pub open spec fn spec_chosen_name(filename: Option<String>, fallback: Seq<char>) -> Seq<char> {
    match filename {
        Some(f) => spec_sanitize(f@, fallback),
        None => fallback,
    }
}

/// Decides a whole upload: `part` describes the first file-bearing part
/// of the body, if any; `limit` is the session's size cap; `fallback` the
/// configured replacement name; `existing` the names already present at
/// the destination. Returns the name to store under, or the typed
/// failure.
///
/// Law (size cap): a part exceeding `limit` by even one byte is turned
/// away as too large; a part at or under `limit` is never turned away for
/// its size. A body without a file part is missing, whatever its size.
pub fn plan_upload(
    part: Option<FilePartInfo>,
    limit: usize,
    fallback: &str,
    existing: &Vec<String>,
) -> (r: Result<String, UploadError>)
    ensures
        r == Err::<String, UploadError>(UploadError::Missing) <==> part is None,
        r == Err::<String, UploadError>(UploadError::TooLarge) <==> (part matches Some(p)
            && p.size > limit),
        part matches Some(p) ==> (p.size <= limit ==> (r matches Ok(name) && resolves_collision(
            spec_chosen_name(p.filename, fallback@),
            existing.deep_view(),
            name@,
        ))),
{
    match part {
        None => Err(UploadError::Missing),
        Some(p) => {
            if p.size > limit {
                Err(UploadError::TooLarge)
            } else {
                let base = match p.filename {
                    Some(f) => sanitize_file_name(f.as_str(), fallback),
                    None => fallback.to_owned(),
                };
                Ok(resolve_collision(base.as_str(), existing))
            }
        },
    }
}

} // verus!
