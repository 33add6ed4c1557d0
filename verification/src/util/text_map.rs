//! A map whose keys are text.

use crate::util::text::same;
use vstd::prelude::*;

verus! {

/// A map from text to values. No key occurs twice.
#[derive(Debug)]
pub struct TextMap<V> {
    entries: Vec<(String, V)>,
}

/// The map that a list of entries describes.
spec fn described<V: View>(entries: Seq<(String, V)>) -> Map<Seq<char>, V::V>
    decreases entries.len(),
{
    if entries.len() == 0 {
        Map::empty()
    } else {
        described(entries.drop_last()).insert(entries.last().0@, entries.last().1@)
    }
}

/// No two entries share a key.
spec fn distinct<V>(entries: Seq<(String, V)>) -> bool {
    forall|i: int, j: int|
        0 <= i < j < entries.len() ==> (#[trigger] entries[i]).0@ != (#[trigger] entries[j]).0@
}

impl<V: View> View for TextMap<V> {
    type V = Map<Seq<char>, V::V>;

    closed spec fn view(&self) -> Map<Seq<char>, V::V> {
        described(self.entries@)
    }
}

/// What `described` says of each key, for entries whose keys are distinct.
proof fn described_by_entries<V: View>(entries: Seq<(String, V)>)
    requires
        distinct(entries),
    ensures
        described(entries).dom().finite(),
        forall|i: int|
            0 <= i < entries.len() ==> {
                &&& described(entries).contains_key((#[trigger] entries[i]).0@)
                &&& described(entries)[entries[i].0@] == entries[i].1@
            },
        forall|k: Seq<char>|
            described(entries).contains_key(k) ==> exists|i: int|
                0 <= i < entries.len() && (#[trigger] entries[i]).0@ == k,
    decreases entries.len(),
{
    if entries.len() > 0 {
        let front = entries.drop_last();
        assert(distinct(front)) by {
            assert forall|i: int, j: int| 0 <= i < j < front.len() implies (
            #[trigger] front[i]).0@ != (#[trigger] front[j]).0@ by {
                assert(entries[i] == front[i] && entries[j] == front[j]);
            }
        }
        described_by_entries(front);
        assert forall|i: int| 0 <= i < entries.len() implies {
            &&& described(entries).contains_key((#[trigger] entries[i]).0@)
            &&& described(entries)[entries[i].0@] == entries[i].1@
        } by {
            if i < front.len() {
                assert(front[i] == entries[i]);
                assert(entries[i].0@ != entries[entries.len() - 1].0@);
            }
        }
        assert forall|k: Seq<char>| described(entries).contains_key(k) implies exists|i: int|
            0 <= i < entries.len() && (#[trigger] entries[i]).0@ == k by {
            if k == entries.last().0@ {
                assert(entries[entries.len() - 1].0@ == k);
            } else {
                assert(described(front).contains_key(k));
                let i = choose|i: int| 0 <= i < front.len() && (#[trigger] front[i]).0@ == k;
                assert(entries[i].0@ == k);
            }
        }
    }
}

impl<V: View> TextMap<V> {
    /// No key occurs twice.
    pub closed spec fn wf(&self) -> bool {
        distinct(self.entries@)
    }

    /// A map that holds nothing.
    pub fn new() -> (r: Self)
        ensures
            r.wf(),
            r@ == Map::<Seq<char>, V::V>::empty(),
    {
        TextMap { entries: Vec::new() }
    }

    /// A well-formed map holds finitely many keys.
    pub proof fn keys_are_finite(&self)
        requires
            self.wf(),
        ensures
            self@.dom().finite(),
    {
        described_by_entries(self.entries@);
    }

    /// The index of a key.
    fn find(&self, key: &str) -> (r: Option<usize>)
        requires
            self.wf(),
        ensures
            match r {
                Some(i) => i < self.entries@.len() && self.entries@[i as int].0@ == key@
                    && self@.contains_key(key@) && self@[key@] == self.entries@[i as int].1@,
                None => !self@.contains_key(key@) && forall|j: int|
                    0 <= j < self.entries@.len() ==> (#[trigger] self.entries@[j]).0@ != key@,
            },
    {
        proof {
            described_by_entries(self.entries@);
        }
        let mut i: usize = 0;
        while i < self.entries.len()
            invariant
                i <= self.entries@.len(),
                forall|j: int| 0 <= j < i ==> (#[trigger] self.entries@[j]).0@ != key@,
                forall|j: int|
                    0 <= j < self.entries@.len() ==> {
                        &&& self@.contains_key((#[trigger] self.entries@[j]).0@)
                        &&& self@[self.entries@[j].0@] == self.entries@[j].1@
                    },
            decreases self.entries.len() - i,
        {
            if same(self.entries[i].0.as_str(), key) {
                return Some(i);
            }
            i = i + 1;
        }
        None
    }

    /// Whether the map holds a key.
    pub fn contains_key(&self, key: &str) -> (r: bool)
        requires
            self.wf(),
        ensures
            r == self@.contains_key(key@),
    {
        self.find(key).is_some()
    }

    /// The value of a key.
    pub fn get(&self, key: &str) -> (r: Option<&V>)
        requires
            self.wf(),
        ensures
            match r {
                Some(v) => self@.contains_key(key@) && self@[key@] == v@,
                None => !self@.contains_key(key@),
            },
    {
        match self.find(key) {
            Some(i) => Some(&self.entries[i].1),
            None => None,
        }
    }

    /// Puts a value under a key, in place of the value it had.
    pub fn insert(&mut self, key: String, value: V)
        requires
            old(self).wf(),
        ensures
            final(self).wf(),
            final(self)@ == old(self)@.insert(key@, value@),
    {
        let ghost before = self.entries@;
        proof {
            described_by_entries(before);
        }
        match self.find(key.as_str()) {
            Some(i) => {
                self.entries.set(i, (key, value));
                proof {
                    let after = self.entries@;
                    assert forall|a: int, b: int| 0 <= a < b < after.len() implies (
                    #[trigger] after[a]).0@ != (#[trigger] after[b]).0@ by {
                        assert(before[a].0@ != before[b].0@);
                    }
                    described_by_entries(after);
                    assert forall|k: Seq<char>|
                        described(after).contains_key(k) <==> described(before).insert(
                            key@,
                            value@,
                        ).contains_key(k) by {
                        if described(before).contains_key(k) {
                            let j = choose|j: int|
                                0 <= j < before.len() && (#[trigger] before[j]).0@ == k;
                            assert(after[j].0@ == k);
                        }
                        if described(after).contains_key(k) {
                            let j = choose|j: int|
                                0 <= j < after.len() && (#[trigger] after[j]).0@ == k;
                            assert(before[j].0@ == k);
                        }
                        assert(after[i as int].0@ == key@);
                    }
                    assert forall|k: Seq<char>| described(after).contains_key(k) implies described(
                        after,
                    )[k] == described(before).insert(key@, value@)[k] by {
                        let j = choose|j: int|
                            0 <= j < after.len() && (#[trigger] after[j]).0@ == k;
                        assert(before[j].0@ == k);
                    }
                    assert(described(after) =~= described(before).insert(key@, value@));
                }
            },
            None => {
                self.entries.push((key, value));
                proof {
                    assert(self.entries@.drop_last() =~= before);
                    let after = self.entries@;
                    assert forall|a: int, b: int| 0 <= a < b < after.len() implies (
                    #[trigger] after[a]).0@ != (#[trigger] after[b]).0@ by {
                        assert(after[a] == before[a]);
                        if b < before.len() {
                            assert(after[b] == before[b]);
                        }
                    }
                }
            },
        }
    }

    /// Takes a key and its value out of the map.
    pub fn remove(&mut self, key: &str) -> (r: Option<V>)
        requires
            old(self).wf(),
        ensures
            final(self).wf(),
            final(self)@ == old(self)@.remove(key@),
            match r {
                Some(v) => old(self)@.contains_key(key@) && old(self)@[key@] == v@,
                None => !old(self)@.contains_key(key@),
            },
    {
        let ghost before = self.entries@;
        proof {
            described_by_entries(before);
        }
        match self.find(key) {
            Some(i) => {
                let entry = self.entries.remove(i);
                proof {
                    let after = self.entries@;
                    assert forall|a: int, b: int| 0 <= a < b < after.len() implies (
                    #[trigger] after[a]).0@ != (#[trigger] after[b]).0@ by {
                        let c = if a < i { a } else { a + 1 };
                        let d = if b < i { b } else { b + 1 };
                        assert(after[a] == before[c] && after[b] == before[d]);
                    }
                    described_by_entries(after);
                    assert forall|k: Seq<char>|
                        described(after).contains_key(k) <==> described(before).remove(
                            key@,
                        ).contains_key(k) by {
                        if described(before).contains_key(k) && k != key@ {
                            let j = choose|j: int|
                                0 <= j < before.len() && (#[trigger] before[j]).0@ == k;
                            assert(after[if j < i { j } else { j - 1 }] == before[j]);
                        }
                        if described(after).contains_key(k) {
                            let j = choose|j: int|
                                0 <= j < after.len() && (#[trigger] after[j]).0@ == k;
                            let c = if j < i { j } else { j + 1 };
                            assert(before[c] == after[j]);
                            assert(before[i as int].0@ == key@);
                        }
                    }
                    assert forall|k: Seq<char>| described(after).contains_key(k) implies described(
                        after,
                    )[k] == described(before).remove(key@)[k] by {
                        let j = choose|j: int|
                            0 <= j < after.len() && (#[trigger] after[j]).0@ == k;
                        let c = if j < i { j } else { j + 1 };
                        assert(before[c] == after[j]);
                    }
                    assert(described(after) =~= described(before).remove(key@));
                }
                Some(entry.1)
            },
            None => {
                assert(self@.remove(key@) =~= self@);
                None
            },
        }
    }

    /// Takes everything out of the map.
    pub fn clear(&mut self)
        ensures
            final(self).wf(),
            final(self)@ == Map::<Seq<char>, V::V>::empty(),
    {
        self.entries.clear();
    }
}

} // verus!
