use vstd::prelude::*;

use vstd::multiset::Multiset;
use vstd::relations::sorted_by;
use vstd::relations::total_ordering;
use vstd::seq_lib::lemma_multiset_commutative;
use vstd::seq_lib::lemma_sorted_unique;

verus! {

/// Lexicographic order on the characters from position `i` on, by
/// Unicode scalar value.
pub open spec fn str_le_from(a: Seq<char>, b: Seq<char>, i: int) -> bool
    decreases a.len() - i,
{
    if i < 0 || i >= a.len() {
        true
    } else if i >= b.len() {
        false
    } else if a[i] != b[i] {
        (a[i] as u32) < (b[i] as u32)
    } else {
        str_le_from(a, b, i + 1)
    }
}

/// Lexicographic order on character sequences, as the standard library
/// orders strings (code point order, which equals UTF-8 byte order).
pub open spec fn str_le(a: Seq<char>, b: Seq<char>) -> bool {
    str_le_from(a, b, 0)
}

/// The order as a binary relation value.
pub open spec fn str_leq() -> spec_fn(Seq<char>, Seq<char>) -> bool {
    |a: Seq<char>, b: Seq<char>| str_le(a, b)
}

/// Either direction of the order holds of any two sequences.
proof fn lemma_str_le_connexive(a: Seq<char>, b: Seq<char>, i: int)
    ensures
        str_le_from(a, b, i) || str_le_from(b, a, i),
    decreases a.len() - i,
{
    if 0 <= i && i < a.len() && i < b.len() {
        if a[i] == b[i] {
            lemma_str_le_connexive(a, b, i + 1);
        } else {
            if (a[i] as u32) == (b[i] as u32) {
                vstd::utf8::char_u32_cast(a[i], a[i] as u32);
                vstd::utf8::char_u32_cast(b[i], a[i] as u32);
            }
        }
    }
}

/// Sequences below each other are equal from position `i` on.
proof fn lemma_str_le_antisymmetric(a: Seq<char>, b: Seq<char>, i: int)
    requires
        0 <= i <= a.len(),
        0 <= i <= b.len(),
        a.subrange(0, i) == b.subrange(0, i),
        str_le_from(a, b, i),
        str_le_from(b, a, i),
    ensures
        a == b,
    decreases a.len() - i,
{
    if i >= a.len() {
        assert(b.len() <= i);
        assert(a =~= b) by {
            assert(a == a.subrange(0, i));
            assert(b == b.subrange(0, i));
        }
    } else {
        assert(i < b.len());
        assert(a[i] == b[i]) by {
            if a[i] != b[i] {
                assert((a[i] as u32) < (b[i] as u32));
                assert((b[i] as u32) < (a[i] as u32));
            }
        }
        assert(a.subrange(0, i + 1) =~= b.subrange(0, i + 1));
        lemma_str_le_antisymmetric(a, b, i + 1);
    }
}

/// The order is transitive from position `i` on.
proof fn lemma_str_le_transitive(a: Seq<char>, b: Seq<char>, c: Seq<char>, i: int)
    requires
        str_le_from(a, b, i),
        str_le_from(b, c, i),
    ensures
        str_le_from(a, c, i),
    decreases a.len() + b.len() + c.len() - 3 * i,
{
    if i < 0 || i >= a.len() {
    } else if 0 <= i && i < a.len() && i < b.len() && i < c.len() && a[i] == b[i] && b[i] == c[i] {
        lemma_str_le_transitive(a, b, c, i + 1);
    }
}

/// The lexicographic order is a total ordering.
pub proof fn lemma_str_leq_total_ordering()
    ensures
        total_ordering(str_leq()),
{
    let leq = str_leq();
    assert forall|a: Seq<char>, b: Seq<char>| #[trigger] leq(a, b) || #[trigger] leq(b, a) by {
        lemma_str_le_connexive(a, b, 0);
    }
    assert forall|a: Seq<char>| #[trigger] leq(a, a) by {
        lemma_str_le_connexive(a, a, 0);
    }
    assert forall|a: Seq<char>, b: Seq<char>| #[trigger] leq(a, b) && #[trigger] leq(b, a)
        implies a == b by {
        assert(a.subrange(0, 0) =~= b.subrange(0, 0));
        lemma_str_le_antisymmetric(a, b, 0);
    }
    assert forall|a: Seq<char>, b: Seq<char>, c: Seq<char>|
        #[trigger] leq(a, b) && #[trigger] leq(b, c) implies leq(a, c) by {
        lemma_str_le_transitive(a, b, c, 0);
    }
}

/// Decide the lexicographic order on two strings.
pub fn str_le_exec(a: &str, b: &str) -> (r: bool)
    ensures
        r == str_le(a@, b@),
{
    let na = a.unicode_len();
    let nb = b.unicode_len();
    let mut i: usize = 0;
    loop
        invariant
            na == a@.len(),
            nb == b@.len(),
            0 <= i <= na,
            i <= nb,
            str_le_from(a@, b@, 0) == str_le_from(a@, b@, i as int),
            str_le_from(b@, a@, 0) == str_le_from(b@, a@, i as int),
        decreases na - i,
    {
        if i >= na {
            return true;
        }
        if i >= nb {
            return false;
        }
        let ca = a.get_char(i);
        let cb = b.get_char(i);
        if ca != cb {
            return (ca as u32) < (cb as u32);
        }
        i = i + 1;
    }
}

/// The views of a vector of strings.
pub open spec fn str_views(v: Seq<String>) -> Seq<Seq<char>> {
    v.map_values(|s: String| s@)
}

/// Insert a string into a sorted vector, keeping it sorted.
fn insert_sorted(out: &mut Vec<String>, x: String)
    requires
        sorted_by(str_views(old(out)@), str_leq()),
    ensures
        sorted_by(str_views(final(out)@), str_leq()),
        str_views(final(out)@).to_multiset() == str_views(old(out)@).to_multiset().insert(x@),
{
    broadcast use vstd::seq_lib::group_seq_properties;

    proof {
        lemma_str_leq_total_ordering();
    }
    let ghost leq = str_leq();
    let ghost vs0 = str_views(out@);
    let n = out.len();
    let mut j: usize = 0;
    while j < n && str_le_exec(out[j].as_str(), x.as_str())
        invariant
            n == out@.len(),
            vs0 == str_views(out@),
            0 <= j <= n,
            forall|k: int| 0 <= k < j ==> str_le(vs0[k], x@),
        decreases n - j,
    {
        assert(vs0[j as int] == out@[j as int]@);
        j = j + 1;
    }
    proof {
        if j < n {
            assert(vs0[j as int] == out@[j as int]@);
            assert(!str_le(vs0[j as int], x@));
            lemma_str_le_connexive(vs0[j as int], x@, 0);
        }
    }
    out.insert(j, x);
    proof {
        let vs1 = str_views(out@);
        assert(vs1 =~= vs0.take(j as int) + seq![x@] + vs0.skip(j as int));
        assert(vs0 =~= vs0.take(j as int) + vs0.skip(j as int));
        lemma_multiset_commutative(vs0.take(j as int) + seq![x@], vs0.skip(j as int));
        lemma_multiset_commutative(vs0.take(j as int), seq![x@]);
        lemma_multiset_commutative(vs0.take(j as int), vs0.skip(j as int));
        assert(seq![x@].to_multiset() == Multiset::<Seq<char>>::empty().insert(x@)) by {
            assert(seq![x@] =~= Seq::<Seq<char>>::empty().push(x@));
            Seq::<Seq<char>>::empty().to_multiset_ensures();
            assert(Seq::<Seq<char>>::empty().to_multiset() == Multiset::<Seq<char>>::empty());
        }
        assert(vs1.to_multiset() =~= vs0.to_multiset().insert(x@));
        assert forall|k1: int, k2: int| 0 <= k1 < k2 < vs1.len() implies #[trigger] str_leq()(
            vs1[k1],
            vs1[k2],
        ) by {
            lemma_str_leq_total_ordering();
            if k1 < j && k2 < j {
                assert(vs1[k1] == vs0[k1]);
                assert(vs1[k2] == vs0[k2]);
            } else if k1 < j && k2 == j {
                assert(vs1[k1] == vs0[k1]);
                assert(vs1[k2] == x@);
            } else if k1 < j && k2 > j {
                assert(vs1[k1] == vs0[k1]);
                assert(vs1[k2] == vs0[k2 - 1]);
            } else if k1 == j && k2 > j {
                assert(vs1[k1] == x@);
                assert(vs1[k2] == vs0[k2 - 1]);
                assert(str_le(x@, vs0[j as int]));
                assert(str_leq()(vs0[j as int], vs0[k2 - 1]));
                lemma_str_le_transitive(x@, vs0[j as int], vs0[k2 - 1], 0);
            } else {
                assert(vs1[k1] == vs0[k1 - 1]);
                assert(vs1[k2] == vs0[k2 - 1]);
            }
        }
    }
}

/// The strings sorted into lexicographic order.
pub fn sort_strings(v: &Vec<String>) -> (r: Vec<String>)
    ensures
        str_views(r@) == str_views(v@).sort_by(str_leq()),
{
    broadcast use vstd::seq_lib::group_seq_properties;

    let ghost leq = str_leq();
    let n = v.len();
    let mut out: Vec<String> = Vec::new();
    proof {
        assert(str_views(out@) =~= Seq::<Seq<char>>::empty());
        Seq::<Seq<char>>::empty().to_multiset_ensures();
        assert(str_views(v@.take(0)) =~= Seq::<Seq<char>>::empty());
    }
    let mut i: usize = 0;
    while i < n
        invariant
            n == v@.len(),
            0 <= i <= n,
            sorted_by(str_views(out@), str_leq()),
            str_views(out@).to_multiset() == str_views(v@.take(i as int)).to_multiset(),
        decreases n - i,
    {
        proof {
            let pre = v@.take(i as int);
            let post = v@.take(i + 1);
            assert(post =~= pre.push(v@[i as int]));
            assert(str_views(post) =~= str_views(pre).push(v@[i as int]@));
            str_views(pre).to_multiset_ensures();
        }
        insert_sorted(&mut out, v[i].clone());
        i = i + 1;
    }
    proof {
        assert(v@.take(n as int) =~= v@);
        let sv = str_views(v@);
        lemma_str_leq_total_ordering();
        sv.lemma_sort_by_ensures(leq);
        lemma_sorted_unique(str_views(out@), sv.sort_by(leq), leq);
    }
    out
}

} // verus!
