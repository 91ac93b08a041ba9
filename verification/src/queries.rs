use vstd::prelude::*;

use crate::models::SavedQuery;
use crate::strutil::str_eq;

verus! {

/// Index of the first saved query with the given name, or -1.
pub open spec fn query_idx(s: Seq<SavedQuery>, name: Seq<char>) -> int
    decreases s.len(),
{
    if s.len() == 0 {
        -1
    } else if s[0].name@ == name {
        0
    } else {
        let rest = query_idx(s.drop_first(), name);
        if rest == -1 {
            -1
        } else {
            rest + 1
        }
    }
}

pub broadcast proof fn lemma_query_idx_bounds(s: Seq<SavedQuery>, name: Seq<char>)
    ensures
        -1 <= #[trigger] query_idx(s, name) < s.len(),
        query_idx(s, name) >= 0 ==> s[query_idx(s, name)].name@ == name,
        query_idx(s, name) == -1 ==> forall|j: int| 0 <= j < s.len() ==> s[j].name@ != name,
    decreases s.len(),
{
    if s.len() > 0 && s[0].name@ != name {
        let rest = s.drop_first();
        lemma_query_idx_bounds(rest, name);
        assert(forall|j: int| 1 <= j < s.len() ==> s[j] == rest[j - 1]);
        if query_idx(rest, name) == -1 {
            assert forall|j: int| 0 <= j < s.len() implies s[j].name@ != name by {
                if j >= 1 {
                    assert(s[j] == rest[j - 1]);
                }
            }
        }
    }
}

/// If no saved query before position `i` has the name, the search on the
/// whole list is the search from `i` on, shifted.
proof fn lemma_query_idx_skip(s: Seq<SavedQuery>, name: Seq<char>, i: int)
    requires
        0 <= i <= s.len(),
        forall|j: int| 0 <= j < i ==> s[j].name@ != name,
    ensures
        query_idx(s, name) == if query_idx(s.skip(i), name) == -1 {
            -1int
        } else {
            query_idx(s.skip(i), name) + i
        },
    decreases i,
{
    if i == 0 {
        assert(s.skip(0) =~= s);
    } else {
        let rest = s.drop_first();
        assert(s[0].name@ != name);
        assert forall|j: int| 0 <= j < i - 1 implies rest[j].name@ != name by {
            assert(rest[j] == s[j + 1]);
        }
        lemma_query_idx_skip(rest, name, i - 1);
        assert(rest.skip(i - 1) =~= s.skip(i));
        assert(query_idx(s, name) == if query_idx(rest, name) == -1 {
            -1int
        } else {
            query_idx(rest, name) + 1
        });
        lemma_query_idx_bounds(s.skip(i), name);
        let fr = query_idx(rest, name);
        let fs = query_idx(s.skip(i), name);
        assert(query_idx(rest.skip(i - 1), name) == fs);
        if fs == -1 {
            assert(fr == -1);
        } else {
            assert(fr == fs + (i - 1));
        }
    }
}

/// Store a query under its name: replace the SQL of the first saved query
/// with that name, else append a new one.  The caller persists the list.
pub fn upsert_query(queries: &mut Vec<SavedQuery>, name: String, sql: String)
    ensures
        final(queries)@ == if query_idx(old(queries)@, name@) == -1 {
            old(queries)@.push(SavedQuery { name, sql })
        } else {
            old(queries)@.update(
                query_idx(old(queries)@, name@),
                SavedQuery { name: old(queries)@[query_idx(old(queries)@, name@)].name, sql },
            )
        },
{
    proof {
        broadcast use lemma_query_idx_bounds;
    }
    let n = queries.len();
    let mut i: usize = 0;
    while i < n
        invariant
            n == queries@.len(),
            queries@ == old(queries)@,
            0 <= i <= n,
            forall|j: int| 0 <= j < i ==> queries@[j].name@ != name@,
        decreases n - i,
    {
        if str_eq(queries[i].name.as_str(), name.as_str()) {
            proof {
                lemma_query_idx_skip(queries@, name@, i as int);
                assert(queries@.skip(i as int)[0] == queries@[i as int]);
                assert(query_idx(queries@, name@) == i as int);
            }
            let old_name = queries[i].name.clone();
            proof {
                assert(old_name@ == queries@[i as int].name@);
            }
            queries.set(i, SavedQuery { name: old_name, sql });
            return;
        }
        i = i + 1;
    }
    proof {
        lemma_query_idx_skip(queries@, name@, n as int);
    }
    queries.push(SavedQuery { name, sql });
}

/// Remove the first saved query with the given name, if one exists.
pub fn remove_query(queries: &mut Vec<SavedQuery>, name: &str) -> (removed: bool)
    ensures
        removed == (query_idx(old(queries)@, name@) >= 0),
        final(queries)@ == if query_idx(old(queries)@, name@) == -1 {
            old(queries)@
        } else {
            old(queries)@.remove(query_idx(old(queries)@, name@))
        },
{
    proof {
        broadcast use lemma_query_idx_bounds;
    }
    let n = queries.len();
    let mut i: usize = 0;
    while i < n
        invariant
            n == queries@.len(),
            queries@ == old(queries)@,
            0 <= i <= n,
            forall|j: int| 0 <= j < i ==> queries@[j].name@ != name@,
        decreases n - i,
    {
        if str_eq(queries[i].name.as_str(), name) {
            proof {
                lemma_query_idx_skip(queries@, name@, i as int);
                assert(queries@.skip(i as int)[0] == queries@[i as int]);
                assert(query_idx(queries@, name@) == i as int);
            }
            queries.remove(i);
            return true;
        }
        i = i + 1;
    }
    proof {
        lemma_query_idx_skip(queries@, name@, n as int);
    }
    false
}

} // verus!
