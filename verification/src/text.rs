//! Character-level string utilities: equality, substring matching and
//! placeholder replacement, the machinery behind the index-page renderer
//! and the filename rules.

use vstd::prelude::*;

verus! {

/// `text` with every occurrence of `pat` replaced by `sub`, scanning left
/// to right and never rescanning substituted text. An empty pattern leaves
/// `text` unchanged.
pub open spec fn spec_replace(text: Seq<char>, pat: Seq<char>, sub: Seq<char>) -> Seq<char>
    decreases text.len(),
{
    if pat.len() == 0 || text.len() < pat.len() {
        text
    } else if text.take(pat.len() as int) == pat {
        sub + spec_replace(text.skip(pat.len() as int), pat, sub)
    } else {
        text.take(1) + spec_replace(text.skip(1), pat, sub)
    }
}

/// Character-wise string equality.
pub fn str_eq(a: &str, b: &str) -> (r: bool)
    ensures
        r == (a@ == b@),
{
    let n = a.unicode_len();
    if n != b.unicode_len() {
        return false;
    }
    let mut i: usize = 0;
    while i < n
        invariant
            i <= n,
            n == a@.len(),
            n == b@.len(),
            forall|j: int| 0 <= j < i ==> a@[j] == b@[j],
        decreases n - i,
    {
        if a.get_char(i) != b.get_char(i) {
            return false;
        }
        i = i + 1;
    }
    proof {
        assert(a@ =~= b@);
    }
    true
}

/// Whether `pat` occurs in `text` starting at character position `i`.
pub fn match_at(text: &str, i: usize, pat: &str) -> (r: bool)
    requires
        i + pat@.len() <= text@.len(),
    ensures
        r == (text@.subrange(i as int, i + pat@.len()) == pat@),
{
    let n = text.unicode_len();
    let m = pat.unicode_len();
    let mut j: usize = 0;
    while j < m
        invariant
            j <= m,
            m == pat@.len(),
            n == text@.len(),
            i + m <= n,
            forall|k: int| 0 <= k < j ==> text@[i + k] == pat@[k],
        decreases m - j,
    {
        if text.get_char(i + j) != pat.get_char(j) {
            proof {
                assert(text@.subrange(i as int, i + pat@.len())[j as int] == text@[i + j]);
            }
            return false;
        }
        j = j + 1;
    }
    proof {
        assert(text@.subrange(i as int, i + pat@.len()) =~= pat@);
    }
    true
}

/// `names` with runs of equal neighbours collapsed to their first
/// element, keeping order: what a header-name list looks like after
/// taking each name only once per run.
pub open spec fn spec_dedup_consecutive(s: Seq<Seq<char>>) -> Seq<Seq<char>>
    decreases s.len(),
{
    if s.len() == 0 {
        s
    } else {
        let rest = spec_dedup_consecutive(s.drop_last());
        if rest.len() > 0 && rest.last() == s.last() {
            rest
        } else {
            rest.push(s.last())
        }
    }
}

/// Collapses runs of equal consecutive names to one occurrence each,
/// keeping the order of first appearance within each run.
pub fn dedup_consecutive(names: &Vec<String>) -> (r: Vec<String>)
    ensures
        r.deep_view() == spec_dedup_consecutive(names.deep_view()),
{
    let n = names.len();
    let mut out: Vec<String> = Vec::new();
    let mut i: usize = 0;
    proof {
        assert(names.deep_view().take(0) =~= Seq::<Seq<char>>::empty());
        assert(out.deep_view() =~= spec_dedup_consecutive(names.deep_view().take(0)));
    }
    while i < n
        invariant
            i <= n,
            n == names@.len(),
            out.deep_view() == spec_dedup_consecutive(names.deep_view().take(i as int)),
        decreases n - i,
    {
        let ghost dv = names.deep_view();
        proof {
            assert(dv.take(i + 1).drop_last() =~= dv.take(i as int));
            assert(dv.take(i + 1).last() == dv[i as int]);
        }
        let keep = if out.len() > 0 {
            !str_eq(out[out.len() - 1].as_str(), names[i].as_str())
        } else {
            true
        };
        proof {
            assert(out.deep_view().len() == out@.len());
            if out@.len() > 0 {
                assert(out.deep_view().last() == out@[out@.len() - 1]@);
            }
        }
        if keep {
            out.push(names[i].clone());
            proof {
                assert(out.deep_view() =~= spec_dedup_consecutive(dv.take(i + 1)));
            }
        }
        i = i + 1;
    }
    proof {
        assert(names.deep_view().take(n as int) =~= names.deep_view());
    }
    out
}

/// Replaces every occurrence of `pat` in `text` by `sub`.
pub fn replace_all(text: &str, pat: &str, sub: &str) -> (r: String)
    ensures
        r@ == spec_replace(text@, pat@, sub@),
{
    let n = text.unicode_len();
    let m = pat.unicode_len();
    if m == 0 {
        return text.to_owned();
    }
    if m > n {
        proof {
            assert(text@.len() < pat@.len());
        }
        return text.to_owned();
    }
    let mut out = String::new();
    let mut i: usize = 0;
    proof {
        assert(text@.skip(0) =~= text@);
        assert(out@ + spec_replace(text@, pat@, sub@) =~= spec_replace(text@, pat@, sub@));
    }
    while i <= n - m
        invariant
            m == pat@.len(),
            n == text@.len(),
            1 <= m <= n,
            i <= n,
            spec_replace(text@, pat@, sub@) == out@ + spec_replace(
                text@.skip(i as int),
                pat@,
                sub@,
            ),
        decreases n - i,
    {
        let ghost prev = out@;
        let ghost rest = text@.skip(i as int);
        proof {
            assert(rest.take(m as int) =~= text@.subrange(i as int, i + m as int));
        }
        if match_at(text, i, pat) {
            out.append(sub);
            proof {
                assert(rest.skip(m as int) =~= text@.skip(i + m as int));
                assert(prev + (sub@ + spec_replace(text@.skip(i + m as int), pat@, sub@)) =~= (
                prev + sub@) + spec_replace(text@.skip(i + m as int), pat@, sub@));
            }
            i = i + m;
        } else {
            let piece = text.substring_char(i, i + 1);
            out.append(piece);
            proof {
                assert(rest.take(1) =~= text@.subrange(i as int, i + 1));
                assert(rest.skip(1) =~= text@.skip(i + 1));
                assert(prev + (rest.take(1) + spec_replace(text@.skip(i + 1), pat@, sub@)) =~= (
                prev + piece@) + spec_replace(text@.skip(i + 1), pat@, sub@));
            }
            i = i + 1;
        }
    }
    let tail = text.substring_char(i, n);
    out.append(tail);
    proof {
        assert(text@.subrange(i as int, n as int) =~= text@.skip(i as int));
        assert(text@.skip(i as int).len() < m);
    }
    out
}

} // verus!
