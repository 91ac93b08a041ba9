use vstd::prelude::*;

use crate::models::ConnView;
use crate::models::DbConnection;
use crate::models::conns_view;
use crate::strutil::str_eq;

verus! {

/// Index of the first connection whose nickname equals `nick`, or -1 if none.
pub open spec fn find_index(s: Seq<ConnView>, nick: Seq<char>) -> int
    decreases s.len(),
{
    if s.len() == 0 {
        -1
    } else if s[0].nickname == nick {
        0
    } else {
        let rest = find_index(s.drop_first(), nick);
        if rest == -1 {
            -1
        } else {
            rest + 1
        }
    }
}

/// The first connection whose nickname equals `nick`, if any.
pub open spec fn spec_find(s: Seq<ConnView>, nick: Seq<char>) -> Option<ConnView> {
    if find_index(s, nick) == -1 {
        None
    } else {
        Some(s[find_index(s, nick)])
    }
}

/// The registry after an add-or-update: replace the first entry with the
/// same nickname in place, else append at the end.
pub open spec fn spec_upsert(s: Seq<ConnView>, c: ConnView) -> Seq<ConnView> {
    if find_index(s, c.nickname) == -1 {
        s.push(c)
    } else {
        s.update(find_index(s, c.nickname), c)
    }
}

pub broadcast proof fn lemma_find_index_bounds(s: Seq<ConnView>, nick: Seq<char>)
    ensures
        -1 <= #[trigger] find_index(s, nick) < s.len(),
        find_index(s, nick) >= 0 ==> s[find_index(s, nick)].nickname == nick,
        find_index(s, nick) >= 0 ==> forall|j: int|
            0 <= j < find_index(s, nick) ==> s[j].nickname != nick,
        find_index(s, nick) == -1 ==> forall|j: int|
            0 <= j < s.len() ==> s[j].nickname != nick,
    decreases s.len(),
{
    if s.len() > 0 && s[0].nickname != nick {
        let rest = s.drop_first();
        lemma_find_index_bounds(rest, nick);
        assert forall|j: int| 1 <= j < s.len() implies s[j] == rest[j - 1] by {}
        assert(find_index(s, nick) == if find_index(rest, nick) == -1 {
            -1int
        } else {
            find_index(rest, nick) + 1
        });
        if find_index(rest, nick) >= 0 {
            assert forall|j: int| 0 <= j < find_index(s, nick) implies s[j].nickname != nick by {
                if j >= 1 {
                    assert(s[j] == rest[j - 1]);
                }
            }
        } else {
            assert forall|j: int| 0 <= j < s.len() implies s[j].nickname != nick by {
                if j >= 1 {
                    assert(s[j] == rest[j - 1]);
                }
            }
        }
    }
}

/// If no entry before position `i` matches, the search result on the whole
/// sequence is the search result on the part from `i` on, shifted by `i`.
proof fn lemma_find_index_skip(s: Seq<ConnView>, nick: Seq<char>, i: int)
    requires
        0 <= i <= s.len(),
        forall|j: int| 0 <= j < i ==> s[j].nickname != nick,
    ensures
        find_index(s, nick) == if find_index(s.skip(i), nick) == -1 {
            -1int
        } else {
            find_index(s.skip(i), nick) + i
        },
    decreases i,
{
    if i == 0 {
        assert(s.skip(0) =~= s);
    } else {
        let rest = s.drop_first();
        assert(s.len() > 0);
        assert(s[0].nickname != nick);
        assert forall|j: int| 0 <= j < i - 1 implies rest[j].nickname != nick by {
            assert(rest[j] == s[j + 1]);
        }
        lemma_find_index_skip(rest, nick, i - 1);
        assert(rest.skip(i - 1) =~= s.skip(i));
        assert(find_index(s, nick) == if find_index(rest, nick) == -1 {
            -1int
        } else {
            find_index(rest, nick) + 1
        });
        lemma_find_index_bounds(s.skip(i), nick);
        let fr = find_index(rest, nick);
        let fs = find_index(s.skip(i), nick);
        assert(find_index(rest.skip(i - 1), nick) == fs);
        if fs == -1 {
            assert(fr == -1);
            assert(find_index(s, nick) == -1);
        } else {
            assert(fr == fs + (i - 1));
            assert(find_index(s, nick) == fs + i);
        }
    }
}

/// Linear scan for the first connection with the given nickname.
pub fn find_connection<'a>(nick: &str, conns: &'a [DbConnection]) -> (r: Option<&'a DbConnection>)
    ensures
        match r {
            Some(c) => spec_find(conns_view(conns@), nick@) == Some(c@),
            None => spec_find(conns_view(conns@), nick@) is None,
        },
{
    proof {
        broadcast use lemma_find_index_bounds;
    }
    let ghost s = conns_view(conns@);
    let n = conns.len();
    let mut i: usize = 0;
    while i < n
        invariant
            n == conns@.len(),
            s == conns_view(conns@),
            0 <= i <= n,
            forall|j: int| 0 <= j < i ==> s[j].nickname != nick@,
        decreases n - i,
    {
        assert(s[i as int] == conns@[i as int]@);
        if str_eq(conns[i].nickname.as_str(), nick) {
            proof {
                lemma_find_index_skip(s, nick@, i as int);
                assert(s.skip(i as int)[0] == s[i as int]);
            }
            return Some(&conns[i]);
        }
        i = i + 1;
    }
    proof {
        lemma_find_index_skip(s, nick@, n as int);
    }
    None
}

/// Replace the first connection with the same nickname, else append.
/// The caller is responsible for persisting the updated list.
pub fn add_or_update(conns: &mut Vec<DbConnection>, new_conn: DbConnection)
    ensures
        conns_view(final(conns)@) == spec_upsert(conns_view(old(conns)@), new_conn@),
{
    proof {
        broadcast use lemma_find_index_bounds;
    }
    let ghost s = conns_view(conns@);
    let ghost c = new_conn@;
    let n = conns.len();
    let mut i: usize = 0;
    while i < n
        invariant
            n == conns@.len(),
            conns@ == old(conns)@,
            s == conns_view(conns@),
            c == new_conn@,
            0 <= i <= n,
            forall|j: int| 0 <= j < i ==> s[j].nickname != c.nickname,
        decreases n - i,
    {
        assert(s[i as int] == conns@[i as int]@);
        if str_eq(conns[i].nickname.as_str(), new_conn.nickname.as_str()) {
            proof {
                lemma_find_index_skip(s, c.nickname, i as int);
                assert(s.skip(i as int)[0] == s[i as int]);
                assert(find_index(s.skip(i as int), c.nickname) == 0);
                assert(find_index(s, c.nickname) == i as int);
            }
            conns.set(i, new_conn);
            proof {
                assert(conns_view(conns@) =~= s.update(i as int, c));
            }
            return;
        }
        i = i + 1;
    }
    proof {
        lemma_find_index_skip(s, c.nickname, n as int);
    }
    conns.push(new_conn);
    proof {
        assert(conns_view(conns@) =~= s.push(c));
    }
}

} // verus!
