use vstd::prelude::*;

use crate::results::assoc_idx;
use crate::results::assoc_views;
use crate::results::lemma_assoc_idx_bounds;
use crate::strutil::str_eq;
use crate::strutil::push_char;

verus! {

/// The value stored under a key, if the key is present.
pub open spec fn assoc_find(m: Seq<(Seq<char>, Seq<char>)>, k: Seq<char>) -> Option<Seq<char>> {
    if assoc_idx(m, k) == -1 {
        None
    } else {
        Some(m[assoc_idx(m, k)].1)
    }
}

/// Look a key up in a shortcut map.
fn assoc_find_exec(m: &Vec<(String, String)>, k: &str) -> (r: Option<String>)
    ensures
        match r {
            Some(v) => assoc_find(assoc_views(m@), k@) == Some(v@),
            None => assoc_find(assoc_views(m@), k@) is None,
        },
{
    proof {
        broadcast use lemma_assoc_idx_bounds;
    }
    let ghost s = assoc_views(m@);
    let n = m.len();
    let mut i: usize = 0;
    while i < n
        invariant
            n == m@.len(),
            s == assoc_views(m@),
            0 <= i <= n,
            forall|j: int| 0 <= j < i ==> s[j].0 != k@,
        decreases n - i,
    {
        assert(s[i as int] == (m@[i as int].0@, m@[i as int].1@));
        if str_eq(m[i].0.as_str(), k) {
            proof {
                lemma_assoc_skip_here(s, k@, i as int);
            }
            return Some(m[i].1.clone());
        }
        i = i + 1;
    }
    proof {
        lemma_assoc_skip_here(s, k@, n as int);
    }
    None
}

/// Bridge: with no match before `i`, the search outcome is decided at `i`.
proof fn lemma_assoc_skip_here(m: Seq<(Seq<char>, Seq<char>)>, k: Seq<char>, i: int)
    requires
        0 <= i <= m.len(),
        forall|j: int| 0 <= j < i ==> m[j].0 != k,
    ensures
        i < m.len() && m[i].0 == k ==> assoc_idx(m, k) == i,
        i == m.len() ==> forall|j: int| 0 <= j < i ==> m[j].0 != k,
        i == m.len() ==> assoc_idx(m, k) == -1,
    decreases i,
{
    broadcast use lemma_assoc_idx_bounds;

    if i < m.len() && m[i].0 == k {
        if assoc_idx(m, k) == -1 {
            assert(m[i].0 != k);
        }
        if assoc_idx(m, k) < i {
            assert(m[assoc_idx(m, k)].0 != k);
        }
        if assoc_idx(m, k) > i {
            assert(m[i].0 != k);
        }
    } else if i == m.len() {
        if assoc_idx(m, k) >= 0 {
            assert(m[assoc_idx(m, k)].0 == k);
        }
    }
}

/// The first URL a key resolves to, searching the visible, hidden and
/// work shortcut maps in that order.
pub open spec fn find_url_spec(
    s1: Seq<(Seq<char>, Seq<char>)>,
    s2: Seq<(Seq<char>, Seq<char>)>,
    s3: Seq<(Seq<char>, Seq<char>)>,
    k: Seq<char>,
) -> Option<Seq<char>> {
    if assoc_find(s1, k) is Some {
        assoc_find(s1, k)
    } else if assoc_find(s2, k) is Some {
        assoc_find(s2, k)
    } else {
        assoc_find(s3, k)
    }
}

/// Position of the first slash in the path, or -1.
pub open spec fn first_slash(s: Seq<char>, i: int) -> int
    decreases s.len() - i,
{
    if i < 0 || i >= s.len() {
        -1
    } else if s[i] == '/' {
        i
    } else {
        first_slash(s, i + 1)
    }
}

/// Where a request path redirects to: an exact shortcut match first; then
/// the part before the first slash as a shortcut with the remainder
/// appended to its URL (inserting a slash unless the URL ends with one);
/// otherwise nothing.
pub open spec fn resolve_spec(
    s1: Seq<(Seq<char>, Seq<char>)>,
    s2: Seq<(Seq<char>, Seq<char>)>,
    s3: Seq<(Seq<char>, Seq<char>)>,
    path: Seq<char>,
) -> Option<Seq<char>> {
    if find_url_spec(s1, s2, s3, path) is Some {
        find_url_spec(s1, s2, s3, path)
    } else {
        let fs = first_slash(path, 0);
        if fs >= 0 {
            let alias = path.take(fs);
            let rem = path.skip(fs + 1);
            match find_url_spec(s1, s2, s3, alias) {
                Some(base) => {
                    if base.len() > 0 && base[base.len() - 1] == '/' {
                        Some(base + rem)
                    } else {
                        Some(base + seq!['/'] + rem)
                    }
                },
                None => None,
            }
        } else {
            None
        }
    }
}

/// Resolve a request path against the three shortcut maps: the redirect
/// target, or nothing when no shortcut matches.
pub fn resolve_shortcut(
    shortcuts: &Vec<(String, String)>,
    hidden: &Vec<(String, String)>,
    work: &Vec<(String, String)>,
    path: &str,
) -> (r: Option<String>)
    ensures
        match r {
            Some(u) => resolve_spec(
                assoc_views(shortcuts@),
                assoc_views(hidden@),
                assoc_views(work@),
                path@,
            ) == Some(u@),
            None => resolve_spec(
                assoc_views(shortcuts@),
                assoc_views(hidden@),
                assoc_views(work@),
                path@,
            ) is None,
        },
{
    let ghost s1 = assoc_views(shortcuts@);
    let ghost s2 = assoc_views(hidden@);
    let ghost s3 = assoc_views(work@);
    if let Some(url) = find_url_exec(shortcuts, hidden, work, path) {
        return Some(url);
    }
    let n = path.unicode_len();
    let slash = first_slash_exec(path);
    match slash {
        Some(k) => {
            let alias = path.substring_char(0, k);
            let rem = path.substring_char(k + 1, n);
            proof {
                assert(alias@ =~= path@.take(k as int));
                assert(rem@ =~= path@.skip(k + 1));
            }
            match find_url_exec(shortcuts, hidden, work, alias) {
                Some(base) => {
                    let bl = base.as_str().unicode_len();
                    let mut out = base.clone();
                    if bl > 0 && base.as_str().get_char(bl - 1) == '/' {
                        out.append(rem);
                        proof {
                            assert(out@ =~= base@ + rem@);
                        }
                        Some(out)
                    } else {
                        push_char(&mut out, '/');
                        out.append(rem);
                        proof {
                            assert(out@ =~= base@ + seq!['/'] + rem@);
                        }
                        Some(out)
                    }
                },
                None => None,
            }
        },
        None => {
            None
        },
    }
}

/// Position of the first slash in the path, if it has one.
fn first_slash_exec(path: &str) -> (r: Option<usize>)
    ensures
        match r {
            Some(k) => first_slash(path@, 0) == k as int && k < path@.len(),
            None => first_slash(path@, 0) == -1,
        },
{
    let n = path.unicode_len();
    let mut i: usize = 0;
    while i < n
        invariant
            n == path@.len(),
            0 <= i <= n,
            first_slash(path@, 0) == first_slash(path@, i as int),
        decreases n - i,
    {
        if path.get_char(i) == '/' {
            proof {
                assert(first_slash(path@, i as int) == i as int);
            }
            return Some(i);
        }
        i = i + 1;
    }
    proof {
        assert(first_slash(path@, n as int) == -1);
    }
    None
}

/// Look a key up across the three maps in their priority order.
fn find_url_exec(
    shortcuts: &Vec<(String, String)>,
    hidden: &Vec<(String, String)>,
    work: &Vec<(String, String)>,
    k: &str,
) -> (r: Option<String>)
    ensures
        match r {
            Some(v) => find_url_spec(
                assoc_views(shortcuts@),
                assoc_views(hidden@),
                assoc_views(work@),
                k@,
            ) == Some(v@),
            None => find_url_spec(
                assoc_views(shortcuts@),
                assoc_views(hidden@),
                assoc_views(work@),
                k@,
            ) is None,
        },
{
    if let Some(v) = assoc_find_exec(shortcuts, k) {
        return Some(v);
    }
    if let Some(v) = assoc_find_exec(hidden, k) {
        return Some(v);
    }
    assoc_find_exec(work, k)
}

} // verus!
