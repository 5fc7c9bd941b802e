use vstd::prelude::*;
use crate::group::{add_all, add_to, group_all, has_key, keys_distinct, members_of};

verus! {

proof fn lemma_add_to<K, E>(g: Seq<(K, Seq<E>)>, k: K, e: E)
    requires
        keys_distinct(g),
    ensures
        keys_distinct(add_to(g, k, e)),
        forall|k2: K| has_key(add_to(g, k, e), k2) <==> (has_key(g, k2) || k2 == k),
        has_key(g, k) ==> add_to(g, k, e).len() == g.len(),
        !has_key(g, k) ==> add_to(g, k, e) == g.push((k, seq![e])),
        forall|a: int| 0 <= a < g.len() ==> #[trigger] add_to(g, k, e)[a].0 == g[a].0,
        forall|a: int|
            0 <= a < g.len() && g[a].0 != k ==> #[trigger] add_to(g, k, e)[a] == g[a],
        forall|a: int|
            0 <= a < g.len() && g[a].0 == k ==> #[trigger] add_to(g, k, e)[a] == (k, g[a].1.push(e)),
{
    let r = add_to(g, k, e);
    if has_key(g, k) {
        let c = choose|c: int| 0 <= c < g.len() && g[c].0 == k;
        assert forall|k2: K| has_key(r, k2) implies (has_key(g, k2) || k2 == k) by {
            let a = choose|a: int| 0 <= a < r.len() && r[a].0 == k2;
            assert(g[a].0 == k2);
        }
        assert forall|k2: K| has_key(g, k2) implies has_key(r, k2) by {
            let a = choose|a: int| 0 <= a < g.len() && g[a].0 == k2;
            assert(r[a].0 == k2);
        }
        assert(r[c].0 == k);
    } else {
        assert forall|k2: K| has_key(r, k2) implies (has_key(g, k2) || k2 == k) by {
            let a = choose|a: int| 0 <= a < r.len() && r[a].0 == k2;
            if a < g.len() {
                assert(g[a].0 == k2);
            }
        }
        assert forall|k2: K| has_key(g, k2) implies has_key(r, k2) by {
            let a = choose|a: int| 0 <= a < g.len() && g[a].0 == k2;
            assert(r[a].0 == k2);
        }
        assert(r[g.len() as int].0 == k);
    }
}

/// What `group_all` holds: distinct keys, exactly the keys of `s`, each
/// with the payloads of its entries in input order.
proof fn lemma_group_all<K, E>(s: Seq<(K, E)>)
    ensures
        keys_distinct(group_all(s)),
        forall|k: K| has_key(group_all(s), k) <==> exists|i: int| 0 <= i < s.len() && s[i].0 == k,
        forall|a: int|
            0 <= a < group_all(s).len() ==> #[trigger] group_all(s)[a].1 == members_of(
                s,
                group_all(s)[a].0,
            ),
        forall|k: K| !has_key(group_all(s), k) ==> members_of(s, k) == Seq::<E>::empty(),
    decreases s.len(),
{
    if s.len() > 0 {
        let d = s.drop_last();
        let x = s.last();
        lemma_group_all(d);
        let g = group_all(d);
        assert(group_all(s) == add_to(g, x.0, x.1));
        lemma_add_to(g, x.0, x.1);
        let r = add_to(g, x.0, x.1);
        assert forall|k: K| has_key(group_all(s), k) <==> exists|i: int|
            0 <= i < s.len() && s[i].0 == k by {
            if has_key(r, k) && k != x.0 {
                assert(has_key(g, k));
                let i = choose|i: int| 0 <= i < d.len() && d[i].0 == k;
                assert(s[i] == d[i]);
            }
            if has_key(r, k) && k == x.0 {
                assert(s[s.len() - 1] == x);
            }
            if exists|i: int| 0 <= i < s.len() && s[i].0 == k {
                let i = choose|i: int| 0 <= i < s.len() && s[i].0 == k;
                if i < d.len() {
                    assert(d[i] == s[i]);
                    assert(has_key(g, k));
                } else {
                    assert(s[i] == x);
                }
                assert(has_key(r, k));
            }
        }
        assert forall|k: K| !has_key(group_all(s), k) implies members_of(s, k) == Seq::<
            E,
        >::empty() by {
            assert(!has_key(r, k));
            assert(has_key(r, x.0));
            assert(k != x.0);
            assert(!has_key(g, k));
            assert(members_of(d, k) == Seq::<E>::empty());
            assert(members_of(s, k) == members_of(d, k));
        }
        assert forall|a: int| 0 <= a < group_all(s).len() implies #[trigger] group_all(s)[a].1
            == members_of(s, group_all(s)[a].0) by {
            if a < g.len() {
                if g[a].0 == x.0 {
                    assert(r[a] == (x.0, g[a].1.push(x.1)));
                } else {
                    assert(r[a] == g[a]);
                }
            } else {
                assert(!has_key(g, x.0));
                assert(members_of(d, x.0) == Seq::<E>::empty());
                assert(r == g.push((x.0, seq![x.1])));
                assert(r[a] == (x.0, seq![x.1]));
                assert(members_of(s, x.0) =~= seq![x.1]);
            }
        }
    }
}

/// Merging: when some entry of `s` has key `k`, exactly one group has key
/// `k`, and it lists the payloads of all entries with that key, in their
/// input order.
pub proof fn lemma_one_group_per_key<K, E>(s: Seq<(K, E)>, k: K)
    requires
        exists|i: int| 0 <= i < s.len() && s[i].0 == k,
    ensures
        exists|a: int|
            0 <= a < group_all(s).len() && group_all(s)[a] == (k, members_of(s, k)) && forall|
                b: int,
            |
                0 <= b < group_all(s).len() && #[trigger] group_all(s)[b].0 == k ==> b == a,
{
    lemma_group_all(s);
    assert(has_key(group_all(s), k));
    let a = choose|a: int| 0 <= a < group_all(s).len() && group_all(s)[a].0 == k;
    assert(group_all(s)[a].1 == members_of(s, k));
}

proof fn lemma_members_prefix<K, E>(s: Seq<(K, E)>, n: int, k: K)
    requires
        0 <= n <= s.len(),
    ensures
        members_of(s.take(n), k).len() <= members_of(s, k).len(),
        forall|p: int|
            0 <= p < members_of(s.take(n), k).len() ==> #[trigger] members_of(s.take(n), k)[p]
                == members_of(s, k)[p],
    decreases s.len(),
{
    if n == s.len() {
        assert(s.take(n) =~= s);
    } else {
        let d = s.drop_last();
        assert(s.take(n) =~= d.take(n));
        lemma_members_prefix(d, n, k);
    }
}

/// Position of the payload of `s[i]` in the group of its key.
pub open spec fn rank<K, E>(s: Seq<(K, E)>, i: int) -> int {
    members_of(s.take(i), s[i].0).len() as int
}

proof fn lemma_rank<K, E>(s: Seq<(K, E)>, i: int)
    requires
        0 <= i < s.len(),
    ensures
        0 <= rank(s, i) < members_of(s, s[i].0).len(),
        members_of(s, s[i].0)[rank(s, i)] == s[i].1,
        members_of(s.take(i + 1), s[i].0).len() == rank(s, i) + 1,
{
    let k = s[i].0;
    let t = s.take(i + 1);
    assert(t.drop_last() =~= s.take(i));
    assert(members_of(t, k) == members_of(s.take(i), k).push(s[i].1));
    lemma_members_prefix(s, i + 1, k);
    assert(members_of(t, k)[rank(s, i)] == s[i].1);
}

/// Merging keeps the order: two entries with the same key both land in the
/// one group of that key, the earlier one first.
pub proof fn lemma_merge_keeps_order<K, E>(s: Seq<(K, E)>, i: int, j: int)
    requires
        0 <= i < j < s.len(),
        s[i].0 == s[j].0,
    ensures
        exists|a: int|
            0 <= a < group_all(s).len() && group_all(s)[a].0 == s[i].0 && forall|b: int|
                0 <= b < group_all(s).len() && #[trigger] group_all(s)[b].0 == s[i].0 ==> b == a,
        forall|a: int|
            0 <= a < group_all(s).len() && #[trigger] group_all(s)[a].0 == s[i].0 ==> {
                let m = group_all(s)[a].1;
                &&& 0 <= rank(s, i) < rank(s, j) < m.len()
                &&& m[rank(s, i)] == s[i].1
                &&& m[rank(s, j)] == s[j].1
            },
{
    let k = s[i].0;
    lemma_one_group_per_key(s, k);
    lemma_group_all(s);
    lemma_rank(s, i);
    lemma_rank(s, j);
    let sj = s.take(j);
    assert(sj.take(i + 1) =~= s.take(i + 1));
    lemma_members_prefix(sj, i + 1, k);
}

proof fn lemma_members_from<K, E>(s: Seq<(K, E)>, k: K, p: int)
    requires
        0 <= p < members_of(s, k).len(),
    ensures
        exists|i: int| 0 <= i < s.len() && s[i].0 == k && s[i].1 == members_of(s, k)[p],
    decreases s.len(),
{
    let d = s.drop_last();
    if s.last().0 == k && p == members_of(d, k).len() {
        assert(s[s.len() - 1] == s.last());
    } else {
        lemma_members_from(d, k, p);
        let i = choose|i: int| 0 <= i < d.len() && d[i].0 == k && d[i].1 == members_of(d, k)[p];
        assert(s[i] == d[i]);
    }
}

/// Key isolation: the groups have distinct keys, and every member of a
/// group is the payload of an entry with that group's key.
pub proof fn lemma_key_isolation<K, E>(s: Seq<(K, E)>, a: int, p: int)
    requires
        0 <= a < group_all(s).len(),
        0 <= p < group_all(s)[a].1.len(),
    ensures
        keys_distinct(group_all(s)),
        exists|i: int|
            0 <= i < s.len() && s[i].0 == group_all(s)[a].0 && s[i].1 == group_all(s)[a].1[p],
{
    lemma_group_all(s);
    lemma_members_from(s, group_all(s)[a].0, p);
}

/// Groups come in the order of their keys' first occurrences: for groups
/// `a < b`, every entry with the key of `b` comes after some entry with the
/// key of `a`.
pub proof fn lemma_first_occurrence_order<K, E>(s: Seq<(K, E)>, a: int, b: int, j: int)
    requires
        0 <= a < b < group_all(s).len(),
        0 <= j < s.len(),
        s[j].0 == group_all(s)[b].0,
    ensures
        exists|i: int| 0 <= i < j && s[i].0 == group_all(s)[a].0,
    decreases s.len(),
{
    let d = s.drop_last();
    let x = s.last();
    let g = group_all(d);
    lemma_group_all(d);
    lemma_add_to(g, x.0, x.1);
    assert(group_all(s) == add_to(g, x.0, x.1));
    assert(a < g.len());
    let ka = g[a].0;
    assert(group_all(s)[a].0 == ka);
    assert(has_key(g, ka));
    if j == s.len() - 1 {
        let i = choose|i: int| 0 <= i < d.len() && d[i].0 == ka;
        assert(s[i] == d[i]);
    } else {
        assert(s[j] == d[j]);
        if b == g.len() {
            assert(group_all(s)[b].0 == x.0);
            assert(!has_key(g, x.0));
            assert(has_key(g, d[j].0));
        } else {
            assert(group_all(s)[b].0 == g[b].0);
            lemma_first_occurrence_order(d, a, b, j);
            let i = choose|i: int| 0 <= i < j && d[i].0 == ka;
            assert(s[i] == d[i]);
        }
    }
}

/// The two ways of registering agree: feeding the entries `b` one at a
/// time (each a lookup-or-create-then-append, as a per-function companion
/// does) into the groups that a batch of entries `a` formed yields the
/// groups of one batch of `a` followed by `b`.
pub proof fn lemma_modes_agree<K, E>(a: Seq<(K, E)>, b: Seq<(K, E)>)
    ensures
        add_all(group_all(a), b) == group_all(a + b),
    decreases b.len(),
{
    if b.len() == 0 {
        assert(a + b =~= a);
    } else {
        lemma_modes_agree(a, b.drop_last());
        assert((a + b).drop_last() =~= a + b.drop_last());
        assert((a + b).last() == b.last());
    }
}

} // verus!
