//! Maps with numbers for keys, read in the order of their keys.

use std::collections::BTreeMap;
use vstd::prelude::*;
use vstd::std_specs::btree::increasing_seq;
use vstd::std_specs::cmp::OrdSpec;
use vstd::std_specs::iter::IteratorSpec;

verus! {

/// Whether a list holds the entries of a map, in the order of their keys.
pub open spec fn lists<V>(s: Seq<(usize, V)>, m: Map<usize, V>) -> bool {
    &&& forall|i: int, j: int| 0 <= i < j < s.len() ==> (#[trigger] s[i]).0 < (#[trigger] s[j]).0
    &&& forall|i: int|
        0 <= i < s.len() ==> m.contains_key((#[trigger] s[i]).0) && m[s[i].0] == s[i].1
    &&& forall|k: usize| #[trigger]
        m.contains_key(k) ==> exists|i: int| 0 <= i < s.len() && (#[trigger] s[i]).0 == k
}

/// The entries of a map, in the order of their keys.
pub open spec fn entries<V>(m: Map<usize, V>) -> Seq<(usize, V)> {
    choose|s: Seq<(usize, V)>| lists(s, m)
}

/// Some numbers have a largest.
proof fn largest(s: Set<usize>) -> (r: usize)
    requires
        s.finite(),
        s.len() > 0,
    ensures
        s.contains(r),
        forall|x: usize| s.contains(x) ==> x <= r,
    decreases s.len(),
{
    let a = s.choose();
    assert(s.contains(a));
    let rest = s.remove(a);
    if rest.len() == 0 {
        assert forall|x: usize| s.contains(x) implies x <= a by {
            if x != a {
                assert(rest.contains(x));
                assert(rest.len() > 0);
            }
        }
        a
    } else {
        let b = largest(rest);
        let r = if a < b {
            b
        } else {
            a
        };
        assert forall|x: usize| s.contains(x) implies x <= r by {
            if x != a {
                assert(rest.contains(x));
            }
        }
        r
    }
}

/// An entry with a key behind all others.
proof fn lists_with_last<V>(s: Seq<(usize, V)>, m: Map<usize, V>, k: usize, v: V)
    requires
        lists(s, m),
        forall|x: usize| #[trigger] m.contains_key(x) ==> x < k,
    ensures
        lists(s.push((k, v)), m.insert(k, v)),
{
    let all = s.push((k, v));
    let after = m.insert(k, v);
    assert forall|i: int, j: int| 0 <= i < j < all.len() implies (#[trigger] all[i]).0 < (
    #[trigger] all[j]).0 by {
        assert(all[i] == s[i]);
        assert(m.contains_key(s[i].0));
        if j < s.len() {
            assert(all[j] == s[j]);
        }
    }
    assert forall|i: int| 0 <= i < all.len() implies after.contains_key((#[trigger] all[i]).0)
        && after[all[i].0] == all[i].1 by {
        if i < s.len() {
            assert(all[i] == s[i]);
            assert(m.contains_key(s[i].0));
        }
    }
    assert forall|x: usize| #[trigger] after.contains_key(x) implies exists|i: int|
        0 <= i < all.len() && (#[trigger] all[i]).0 == x by {
        if x == k {
            assert(all[s.len() as int].0 == x);
        } else {
            assert(m.contains_key(x));
            let i = choose|i: int| 0 <= i < s.len() && (#[trigger] s[i]).0 == x;
            assert(all[i].0 == x);
        }
    }
}

/// Every map has such a list.
proof fn has_entries<V>(m: Map<usize, V>)
    requires
        m.dom().finite(),
    ensures
        lists(entries(m), m),
    decreases m.dom().len(),
{
    if m.dom().len() == 0 {
        assert(m.dom() =~= Set::empty());
        assert(lists(Seq::<(usize, V)>::empty(), m));
    } else {
        let k = largest(m.dom());
        let rest = m.remove(k);
        has_entries(rest);
        assert forall|x: usize| #[trigger] rest.contains_key(x) implies x < k by {
            assert(m.dom().contains(x));
        }
        lists_with_last(entries(rest), rest, k, m[k]);
        assert(rest.insert(k, m[k]) =~= m);
        assert(lists(entries(rest).push((k, m[k])), m));
    }
}

/// Two such lists are the same.
proof fn lists_are_equal<V>(a: Seq<(usize, V)>, b: Seq<(usize, V)>, m: Map<usize, V>)
    requires
        lists(a, m),
        lists(b, m),
    ensures
        a == b,
    decreases a.len(),
{
    if a.len() == 0 {
        if b.len() > 0 {
            assert(m.contains_key(b[0].0));
        }
        assert(a =~= b);
    } else {
        let x = a.last();
        assert(a[a.len() - 1] == x);
        assert(m.contains_key(x.0));
        assert(b.len() > 0);
        let y = b.last();
        assert(b[b.len() - 1] == y);
        assert(m.contains_key(y.0));
        let i = choose|i: int| 0 <= i < a.len() && (#[trigger] a[i]).0 == y.0;
        let j = choose|j: int| 0 <= j < b.len() && (#[trigger] b[j]).0 == x.0;
        assert(y.0 <= x.0) by {
            if i < a.len() - 1 {
                assert(a[i].0 < a[a.len() - 1].0);
            }
        }
        assert(x.0 <= y.0) by {
            if j < b.len() - 1 {
                assert(b[j].0 < b[b.len() - 1].0);
            }
        }
        assert(x == y);
        lists_without(a, m, a.len() - 1);
        lists_without(b, m, b.len() - 1);
        assert(a.remove(a.len() - 1) =~= a.drop_last());
        assert(b.remove(b.len() - 1) =~= b.drop_last());
        lists_are_equal(a.drop_last(), b.drop_last(), m.remove(x.0));
        assert(a =~= a.drop_last().push(x));
        assert(b =~= b.drop_last().push(y));
    }
}

/// One entry less.
proof fn lists_without<V>(s: Seq<(usize, V)>, m: Map<usize, V>, at: int)
    requires
        lists(s, m),
        0 <= at < s.len(),
    ensures
        lists(s.remove(at), m.remove(s[at].0)),
{
    let all = s.remove(at);
    let k = s[at].0;
    let after = m.remove(k);
    assert forall|i: int, j: int| 0 <= i < j < all.len() implies (#[trigger] all[i]).0 < (
    #[trigger] all[j]).0 by {
        let c = if i < at { i } else { i + 1 };
        let d = if j < at { j } else { j + 1 };
        assert(all[i] == s[c] && all[j] == s[d]);
    }
    assert forall|i: int| 0 <= i < all.len() implies after.contains_key((#[trigger] all[i]).0)
        && after[all[i].0] == all[i].1 by {
        let c = if i < at { i } else { i + 1 };
        assert(all[i] == s[c]);
        assert(m.contains_key(s[c].0));
        assert(s[c].0 != s[at].0) by {
            if c < at {
                assert(s[c].0 < s[at].0);
            } else {
                assert(s[at].0 < s[c].0);
            }
        }
    }
    assert forall|x: usize| #[trigger] after.contains_key(x) implies exists|i: int|
        0 <= i < all.len() && (#[trigger] all[i]).0 == x by {
        assert(m.contains_key(x));
        let i = choose|i: int| 0 <= i < s.len() && (#[trigger] s[i]).0 == x;
        let c = if i < at { i } else { i - 1 };
        assert(all[c] == s[i]);
    }
}

/// A list of the entries of a map is the one.
pub proof fn entries_are<V>(m: Map<usize, V>, s: Seq<(usize, V)>)
    requires
        lists(s, m),
    ensures
        entries(m) == s,
{
    assert(lists(entries(m), m));
    lists_are_equal(entries(m), s, m);
}

/// What can be told of the entries of a map.
pub proof fn entries_of<V>(m: &BTreeMap<usize, V>)
    ensures
        lists(entries(m@), m@),
        forall|k: usize|
            m@.contains_key(k) <==> exists|i: int|
                0 <= i < entries(m@).len() && (#[trigger] entries(m@)[i]).0 == k,
{
    broadcast use vstd::std_specs::btree::group_btree_axioms;

    assert(m@.dom().finite());
    has_entries(m@);
}

/// The entries of a map that holds nothing.
pub proof fn entries_of_nothing<V>()
    ensures
        entries(Map::<usize, V>::empty()) == Seq::<(usize, V)>::empty(),
{
    assert(lists(Seq::<(usize, V)>::empty(), Map::<usize, V>::empty()));
    entries_are(Map::<usize, V>::empty(), Seq::<(usize, V)>::empty());
}

/// An entry whose key is behind all others comes last.
pub proof fn entries_with_last<V>(m: &BTreeMap<usize, V>, k: usize, v: V)
    requires
        forall|i: int|
            0 <= i < entries(m@).len() ==> (#[trigger] entries(m@)[i]).0 < k,
    ensures
        entries(m@.insert(k, v)) == entries(m@).push((k, v)),
{
    entries_of(m);
    assert forall|x: usize| #[trigger] m@.contains_key(x) implies x < k by {
        let i = choose|i: int| 0 <= i < entries(m@).len() && (#[trigger] entries(m@)[i]).0 == x;
        assert(entries(m@)[i].0 < k);
    }
    lists_with_last(entries(m@), m@, k, v);
    entries_are(m@.insert(k, v), entries(m@).push((k, v)));
}

/// The other entries stay in their order when one is taken out.
pub proof fn entries_without<V>(m: Map<usize, V>, at: int)
    requires
        lists(entries(m), m),
        0 <= at < entries(m).len(),
    ensures
        entries(m.remove(entries(m)[at].0)) == entries(m).remove(at),
        lists(entries(m).remove(at), m.remove(entries(m)[at].0)),
{
    lists_without(entries(m), m, at);
    entries_are(m.remove(entries(m)[at].0), entries(m).remove(at));
}

/// An entry that gets another value stays where it is.
pub proof fn entries_with_change<V>(m: Map<usize, V>, at: int, v: V)
    requires
        lists(entries(m), m),
        0 <= at < entries(m).len(),
    ensures
        entries(m.insert(entries(m)[at].0, v)) == entries(m).update(at, (entries(m)[at].0, v)),
{
    let s = entries(m);
    let k = s[at].0;
    let all = s.update(at, (k, v));
    let after = m.insert(k, v);
    assert forall|i: int, j: int| 0 <= i < j < all.len() implies (#[trigger] all[i]).0 < (
    #[trigger] all[j]).0 by {
        assert(s[i].0 < s[j].0);
    }
    assert forall|i: int| 0 <= i < all.len() implies after.contains_key((#[trigger] all[i]).0)
        && after[all[i].0] == all[i].1 by {
        assert(m.contains_key(s[i].0));
        if i < at {
            assert(s[i].0 < s[at].0);
        }
        if at < i {
            assert(s[at].0 < s[i].0);
        }
    }
    assert forall|x: usize| #[trigger] after.contains_key(x) implies exists|i: int|
        0 <= i < all.len() && (#[trigger] all[i]).0 == x by {
        if x == k {
            assert(all[at].0 == x);
        } else {
            assert(m.contains_key(x));
            let i = choose|i: int| 0 <= i < s.len() && (#[trigger] s[i]).0 == x;
            assert(all[i].0 == x);
        }
    }
    entries_are(after, all);
}

/// What a walk through a map goes through are its entries.
proof fn walk_is_entries<'a, V>(m: &'a BTreeMap<usize, V>, all: Seq<(&'a usize, &'a V)>)
    requires
        all == m.iter().remaining(),
        increasing_seq(all.map_values(|kv: (&usize, &V)| *kv.0)),
    ensures
        all.len() == entries(m@).len(),
        forall|i: int|
            0 <= i < all.len() ==> *(#[trigger] all[i]).0 == entries(m@)[i].0 && *all[i].1
                == entries(m@)[i].1,
{
    broadcast use {
        vstd::std_specs::btree::group_btree_axioms,
        vstd::laws_cmp::group_laws_cmp,
    };

    let s = all.map_values(|e: (&usize, &V)| (*e.0, *e.1));
    let keys = all.map_values(|kv: (&usize, &V)| *kv.0);
    assert forall|i: int, j: int| 0 <= i < j < s.len() implies (#[trigger] s[i]).0 < (
    #[trigger] s[j]).0 by {
        assert(keys[i].cmp_spec(&keys[j]) is Less);
    }
    assert forall|i: int| 0 <= i < s.len() implies m@.contains_key((#[trigger] s[i]).0)
        && m@[s[i].0] == s[i].1 by {
        assert(m@.contains_key(*all[i].0));
    }
    assert forall|k: usize| #[trigger] m@.contains_key(k) implies exists|i: int|
        0 <= i < s.len() && (#[trigger] s[i]).0 == k by {
        assert(all.contains((&k, &m@[k])));
        let i = choose|i: int| 0 <= i < all.len() && all[i] == (&k, &m@[k]);
        assert(s[i].0 == k);
    }
    entries_are(m@, s);
}

/// The keys of a map, in their order.
pub fn sorted_keys<V>(m: &BTreeMap<usize, V>) -> (r: Vec<usize>)
    ensures
        r@.len() == entries(m@).len(),
        forall|i: int| 0 <= i < r@.len() ==> (#[trigger] r@[i]) == entries(m@)[i].0,
{
    broadcast use {
        vstd::std_specs::btree::group_btree_axioms,
        vstd::laws_cmp::group_laws_cmp,
    };

    let mut r: Vec<usize> = Vec::new();
    let walk = m.iter();
    let ghost all = walk.remaining();
    proof {
        walk_is_entries(m, all);
    }
    for entry in it: walk
        invariant
            it.seq() == all,
            r@.len() == it.index(),
            forall|i: int| 0 <= i < r@.len() ==> (#[trigger] r@[i]) == *all[i].0,
    {
        r.push(*entry.0);
    }
    r
}

/// The entry with the smallest key.
pub fn first<V>(m: &BTreeMap<usize, V>) -> (r: Option<(usize, &V)>)
    ensures
        match r {
            Some((k, v)) => entries(m@).len() > 0 && entries(m@)[0] == (k, *v),
            None => entries(m@).len() == 0,
        },
{
    broadcast use {
        vstd::std_specs::btree::group_btree_axioms,
        vstd::laws_cmp::group_laws_cmp,
    };

    let walk = m.iter();
    let ghost all = walk.remaining();
    proof {
        walk_is_entries(m, all);
    }
    for entry in it: walk
        invariant
            it.seq() == all,
            it.index() == 0,
            all.len() == entries(m@).len(),
            all.len() > 0 ==> *all[0].0 == entries(m@)[0].0 && *all[0].1 == entries(m@)[0].1,
    {
        return Some((*entry.0, entry.1));
    }
    None
}

/// The number of entries.
pub fn size<V>(m: &BTreeMap<usize, V>) -> (r: usize)
    ensures
        r == entries(m@).len(),
{
    broadcast use {
        vstd::std_specs::btree::group_btree_axioms,
        vstd::laws_cmp::group_laws_cmp,
    };

    let walk = m.iter();
    proof {
        walk_is_entries(m, walk.remaining());
    }
    m.len()
}

/// The value of a key.
pub fn find<V>(m: &BTreeMap<usize, V>, k: usize) -> (r: Option<&V>)
    ensures
        match r {
            Some(v) => m@.contains_key(k) && m@[k] == *v,
            None => !m@.contains_key(k),
        },
{
    broadcast use {
        vstd::std_specs::btree::group_btree_axioms,
        vstd::laws_cmp::group_laws_cmp,
    };

    m.get(&k)
}

/// Puts a value under a key, in place of the value it had.
pub fn put<V>(m: &mut BTreeMap<usize, V>, k: usize, v: V)
    ensures
        final(m)@ == old(m)@.insert(k, v),
{
    broadcast use {
        vstd::std_specs::btree::group_btree_axioms,
        vstd::laws_cmp::group_laws_cmp,
    };

    m.insert(k, v);
}

/// Takes a key and its value out of the map.
pub fn take<V>(m: &mut BTreeMap<usize, V>, k: usize) -> (r: Option<V>)
    ensures
        final(m)@ == old(m)@.remove(k),
        match r {
            Some(v) => old(m)@.contains_key(k) && old(m)@[k] == v,
            None => !old(m)@.contains_key(k),
        },
{
    broadcast use {
        vstd::std_specs::btree::group_btree_axioms,
        vstd::laws_cmp::group_laws_cmp,
    };

    m.remove(&k)
}

} // verus!
