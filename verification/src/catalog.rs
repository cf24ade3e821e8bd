//! Display names for the download catalog: the base name of a stored
//! filesystem path, with `"unknown"` when no usable name can be extracted.

use vstd::prelude::*;
use crate::text::str_eq;

verus! {

/// The characters after the last `sep` of `s` (all of `s` when it has
/// none).
pub open spec fn after_last(s: Seq<char>, sep: char) -> Seq<char>
    decreases s.len(),
{
    if s.len() == 0 {
        s
    } else if s.last() == sep {
        Seq::<char>::empty()
    } else {
        after_last(s.drop_last(), sep).push(s.last())
    }
}

/// If everything from position `k` on is free of `sep` and `k` sits
/// right after a `sep` (or at the start), the tail from `k` is what
/// follows the last `sep`.
pub proof fn lemma_after_last_suffix(s: Seq<char>, sep: char, k: int)
    requires
        0 <= k <= s.len(),
        forall|j: int| k <= j < s.len() ==> s[j] != sep,
        k > 0 ==> s[k - 1] == sep,
    ensures
        after_last(s, sep) == s.skip(k),
    decreases s.len(),
{
    if s.len() == 0 {
        assert(s.skip(k) =~= s);
    } else if k == s.len() {
        assert(s.skip(k) =~= Seq::<char>::empty());
    } else {
        lemma_after_last_suffix(s.drop_last(), sep, k);
        assert(s.drop_last().skip(k) =~= s.skip(k).drop_last());
        assert(after_last(s, sep) =~= s.skip(k));
    }
}

/// A path as the platform reads its end: trailing separators and
/// trailing `.` components say nothing about the final component, so
/// they are peeled off before the base name is taken (`"a/b/"` names
/// `"b"`, `"x/."` names `"x"`).
pub open spec fn strip_trailing(s: Seq<char>) -> Seq<char>
    decreases s.len(),
{
    if s.len() > 0 && s.last() == '/' {
        strip_trailing(s.drop_last())
    } else if s.len() == 1 && s.last() == '.' {
        strip_trailing(s.drop_last())
    } else if s.len() >= 2 && s.last() == '.' && s[s.len() - 2] == '/' {
        strip_trailing(s.drop_last())
    } else {
        s
    }
}

/// The name shown to peers for a catalog entry: the path's base name, or
/// `"unknown"` when the path has no normal final component (empty, a
/// root, only `.` components, or ending in `..`).
pub open spec fn spec_display_name(path: Seq<char>) -> Seq<char> {
    let tail = after_last(strip_trailing(path), '/');
    if tail.len() == 0 || tail == "."@ || tail == ".."@ {
        "unknown"@
    } else {
        tail
    }
}

/// Scans backwards for the end of the path once trailing separators and
/// `.` components are peeled off.
fn strip_trailing_end(path: &str) -> (end: usize)
    ensures
        end <= path@.len(),
        path@.take(end as int) == strip_trailing(path@),
{
    let n = path.unicode_len();
    let mut end = n;
    proof {
        assert(path@.take(n as int) =~= path@);
    }
    loop
        invariant
            end <= n,
            n == path@.len(),
            strip_trailing(path@.take(end as int)) == strip_trailing(path@),
        ensures
            end <= path@.len(),
            path@.take(end as int) == strip_trailing(path@),
        decreases end,
    {
        let ghost t = path@.take(end as int);
        proof {
            if end > 0 {
                assert(t.last() == path@[end - 1]);
                assert(t.drop_last() =~= path@.take(end - 1));
                if end >= 2 {
                    assert(t[t.len() - 2] == path@[end - 2]);
                }
            }
        }
        if end > 0 && path.get_char(end - 1) == '/' {
            end = end - 1;
        } else if end == 1 && path.get_char(0) == '.' {
            end = 0;
        } else if end >= 2 && path.get_char(end - 1) == '.' && path.get_char(end - 2) == '/' {
            end = end - 1;
        } else {
            proof {
                assert(strip_trailing(t) == t);
            }
            break;
        }
    }
    end
}

/// Scans for the position right after the last `sep`, zero when there is
/// none.
fn cut_after_last(path: &str, sep: char) -> (cut: usize)
    ensures
        cut <= path@.len(),
        after_last(path@, sep) == path@.skip(cut as int),
        cut > 0 ==> path@[cut as int - 1] == sep,
{
    let n = path.unicode_len();
    let mut cut: usize = 0;
    let mut i: usize = 0;
    while i < n
        invariant
            i <= n,
            n == path@.len(),
            cut <= i,
            forall|j: int| cut <= j < i ==> path@[j] != sep,
            cut > 0 ==> path@[cut - 1] == sep,
        decreases n - i,
    {
        if path.get_char(i) == sep {
            cut = i + 1;
        }
        i = i + 1;
    }
    proof {
        lemma_after_last_suffix(path@, sep, cut as int);
    }
    cut
}

/// The base name of a filesystem path, for links and attachment names.
/// Never fails: paths without a usable component give `"unknown"`.
pub fn get_filename(path: &str) -> (r: String)
    ensures
        r@ == spec_display_name(path@),
{
    let end = strip_trailing_end(path);
    let stripped = path.substring_char(0, end);
    proof {
        assert(stripped@ =~= strip_trailing(path@));
    }
    let n = stripped.unicode_len();
    let cut = cut_after_last(stripped, '/');
    let tail = stripped.substring_char(cut, n);
    proof {
        assert(tail@ =~= after_last(strip_trailing(path@), '/'));
    }
    if tail.unicode_len() == 0 || str_eq(tail, ".") || str_eq(tail, "..") {
        String::from_str("unknown")
    } else {
        tail.to_owned()
    }
}

/// The file extension a static response's content type is guessed from:
/// what follows the last dot of the path's final component, absent when
/// the path has no normal final component or that component has no dot
/// past its first character.
pub open spec fn spec_extension(path: Seq<char>) -> Option<Seq<char>> {
    let name = after_last(strip_trailing(path), '/');
    if name.len() == 0 || name == "."@ || name == ".."@ {
        None
    } else {
        let ext = after_last(name, '.');
        if ext.len() + 2 <= name.len() {
            Some(ext)
        } else {
            None
        }
    }
}

/// Extracts the extension of a path's final component.
pub fn extension_of(path: &str) -> (r: Option<String>)
    ensures
        r is Some <==> spec_extension(path@) is Some,
        r matches Some(e) ==> spec_extension(path@) == Some(e@),
{
    let end = strip_trailing_end(path);
    let stripped = path.substring_char(0, end);
    proof {
        assert(stripped@ =~= strip_trailing(path@));
    }
    let n = stripped.unicode_len();
    let cut = cut_after_last(stripped, '/');
    let name = stripped.substring_char(cut, n);
    proof {
        assert(name@ =~= after_last(strip_trailing(path@), '/'));
    }
    let m = name.unicode_len();
    if m == 0 || str_eq(name, ".") || str_eq(name, "..") {
        return None;
    }
    let dot = cut_after_last(name, '.');
    let ext = name.substring_char(dot, m);
    proof {
        assert(ext@ =~= after_last(name@, '.'));
    }
    if m >= 2 && ext.unicode_len() <= m - 2 {
        Some(ext.to_owned())
    } else {
        None
    }
}

/// Law: a file appended under path `dir/name` is offered for download
/// under exactly `name`, whatever the directory prefix was, whenever
/// `name` is a plain non-empty component.
pub proof fn lemma_display_name_of_joined(dir: Seq<char>, name: Seq<char>)
    requires
        name.len() > 0,
        forall|j: int| 0 <= j < name.len() ==> name[j] != '/',
        name != "."@,
        name != ".."@,
    ensures
        spec_display_name(dir + seq!['/'] + name) == name,
{
    let s = dir + seq!['/'] + name;
    let k = dir.len() + 1;
    assert(s.last() == name.last());
    assert(s.last() != '/');
    if s.last() == '.' {
        if name.len() == 1 {
            reveal_strlit(".");
            assert(name =~= "."@);
            assert(false);
        } else {
            assert(s[s.len() - 2] == name[name.len() - 2]);
        }
    }
    assert(strip_trailing(s) == s);
    assert(s[k - 1] == '/');
    assert forall|j: int| k <= j < s.len() implies s[j] != '/' by {
        assert(s[j] == name[j - k]);
    }
    lemma_after_last_suffix(s, '/', k as int);
    assert(s.skip(k as int) =~= name);
}

} // verus!
