//! A small map keyed by text.
use vstd::prelude::*;

use crate::text::{str_eq, Text};

verus! {

/// A list of entries, at most one for each key.
#[derive(Debug, Clone, PartialEq)]
pub struct Assoc<V> {
    entries: Vec<(String, V)>,
}

/// Where a key stands in a list of entries; of several places, the last.
spec fn place<V>(entries: Seq<(String, V)>, key: Text) -> Option<int>
    decreases entries.len(),
{
    if entries.len() == 0 {
        None
    } else if entries.last().0@ == key {
        Some(entries.len() - 1)
    } else {
        place(entries.drop_last(), key)
    }
}

proof fn place_is_there<V>(entries: Seq<(String, V)>, key: Text)
    ensures
        match place(entries, key) {
            Some(i) => 0 <= i < entries.len() && entries[i].0@ == key,
            None => forall|i: int| 0 <= i < entries.len() ==> (#[trigger] entries[i]).0@ != key,
        },
    decreases entries.len(),
{
    if entries.len() > 0 {
        place_is_there(entries.drop_last(), key);
        if place(entries, key).is_none() {
            assert forall|i: int| 0 <= i < entries.len() implies (#[trigger] entries[i]).0@
                != key by {
                if i < entries.len() - 1 {
                    assert(entries.drop_last()[i] == entries[i]);
                }
            }
        }
    }
}

/// No key stands in two places.
spec fn distinct<V>(entries: Seq<(String, V)>) -> bool {
    forall|i: int, j: int|
        0 <= i < j < entries.len() ==> (#[trigger] entries[i]).0@ != (#[trigger] entries[j]).0@
}

impl<V> View for Assoc<V> {
    type V = Map<Text, V>;

    closed spec fn view(&self) -> Map<Text, V> {
        Map::new(
            |k: Text| place(self.entries@, k).is_some(),
            |k: Text| self.entries@[place(self.entries@, k).unwrap()].1,
        )
    }
}

impl<V> Assoc<V> {
    /// No key stands in two places.
    pub closed spec fn wf(&self) -> bool {
        distinct(self.entries@)
    }

    pub fn new() -> (a: Self)
        ensures
            a.wf(),
            a@ == Map::<Text, V>::empty(),
    {
        let a = Assoc { entries: Vec::new() };
        proof {
            assert(a@ =~= Map::<Text, V>::empty());
        }
        a
    }

    fn find(&self, key: &str) -> (r: Option<usize>)
        ensures
            match r {
                Some(i) => i < self.entries@.len() && place(self.entries@, key@) == Some(i as int),
                None => place(self.entries@, key@).is_none(),
            },
    {
        let mut i: usize = self.entries.len();
        proof {
            assert(self.entries@.take(i as int) =~= self.entries@);
        }
        while i > 0
            invariant
                i <= self.entries.len(),
                place(self.entries@, key@) == place(self.entries@.take(i as int), key@),
            decreases i,
        {
            proof {
                assert(self.entries@.take(i as int).drop_last() =~= self.entries@.take(i - 1));
                assert(self.entries@.take(i as int).last() == self.entries@[i - 1]);
            }
            if str_eq(self.entries[i - 1].0.as_str(), key) {
                return Some(i - 1);
            }
            i -= 1;
        }
        None
    }

    pub fn get(&self, key: &str) -> (r: Option<&V>)
        ensures
            match r {
                Some(v) => self@.contains_key(key@) && self@[key@] == *v,
                None => !self@.contains_key(key@),
            },
    {
        match self.find(key) {
            Some(i) => Some(&self.entries[i].1),
            None => None,
        }
    }

    /// Put a value under a key, in place of the one that is there.
    pub fn insert(&mut self, key: String, value: V)
        requires
            old(self).wf(),
        ensures
            final(self).wf(),
            final(self)@ == old(self)@.insert(key@, value),
    {
        self.remove(key.as_str());
        let ghost before = self.entries@;
        let ghost without = self@;
        proof {
            assert(!without.contains_key(key@));
            place_is_there(before, key@);
            assert forall|i: int, j: int|
                0 <= i < j < before.push((key, value)).len() implies (#[trigger] before.push(
                (key, value),
            )[i]).0@ != (#[trigger] before.push((key, value))[j]).0@ by {
                if j == before.len() {
                    assert(before[i].0@ != key@);
                }
            }
        }
        self.entries.push((key, value));
        proof {
            let now = self.entries@;
            assert forall|k: Text| true implies #[trigger] place(now, k) == if k == key@ {
                Some(before.len() as int)
            } else {
                place(before, k)
            } by {
                assert(now.drop_last() =~= before);
            }
            assert forall|k: Text| #[trigger] without.contains_key(k) implies place(
                before,
                k,
            ).is_some() && before[place(before, k).unwrap()] == now[place(
                before,
                k,
            ).unwrap()] by {
                place_is_there(before, k);
            }
            assert(self@ =~= without.insert(key@, value));
            assert(without.insert(key@, value) =~= old(self)@.insert(key@, value));
        }
    }

    /// Take a key out.
    pub fn remove(&mut self, key: &str)
        requires
            old(self).wf(),
        ensures
            final(self).wf(),
            final(self)@ == old(self)@.remove(key@),
    {
        let ghost before = self.entries@;
        match self.find(key) {
            Some(i) => {
                proof {
                    let after = before.remove(i as int);
                    assert forall|a: int, b: int| 0 <= a < b < after.len() implies (
                    #[trigger] after[a]).0@ != (#[trigger] after[b]).0@ by {
                        let x = if a < i {
                            a
                        } else {
                            a + 1
                        };
                        let y = if b < i {
                            b
                        } else {
                            b + 1
                        };
                        assert(after[a] == before[x]);
                        assert(after[b] == before[y]);
                    }
                }
                self.entries.remove(i);
                proof {
                    let after = self.entries@;
                    place_is_there(before, key@);
                    assert forall|k: Text| true implies {
                        &&& #[trigger] place(after, k).is_some() <==> k != key@ && place(
                            before,
                            k,
                        ).is_some()
                        &&& place(after, k).is_some() ==> after[place(after, k).unwrap()]
                            == before[place(before, k).unwrap()]
                    } by {
                        place_is_there(before, k);
                        place_is_there(after, k);
                        if let Some(p) = place(after, k) {
                            let x: int = if p < i {
                                p
                            } else {
                                p + 1
                            };
                            assert(after[p] == before[x]);
                            let q = place(before, k).unwrap();
                            assert(before[q].0@ == before[x].0@);
                            assert(q == x) by {
                                if q < x {
                                    assert(before[q].0@ != before[x].0@);
                                }
                                if x < q {
                                    assert(before[x].0@ != before[q].0@);
                                }
                            }
                            assert(x != i);
                        } else if k != key@ && place(before, k).is_some() {
                            let q = place(before, k).unwrap();
                            let p: int = if q < i {
                                q
                            } else {
                                q - 1
                            };
                            assert(q != i);
                            assert(after[p] == before[q]);
                        }
                    }
                    assert(self@ =~= old(self)@.remove(key@));
                }
            },
            None => {
                proof {
                    assert(self@ =~= old(self)@.remove(key@));
                }
            },
        }
    }

    pub fn clear(&mut self)
        requires
            old(self).wf(),
        ensures
            final(self).wf(),
            final(self)@ == Map::<Text, V>::empty(),
    {
        self.entries.clear();
        proof {
            assert(self@ =~= Map::<Text, V>::empty());
        }
    }

    /// How many keys there are.
    pub fn len(&self) -> (n: usize)
        requires
            self.wf(),
        ensures
            self@.dom().finite(),
            n == self@.dom().len(),
    {
        proof {
            keys_count(self.entries@);
            assert(self@.dom() =~= keys(self.entries@));
        }
        self.entries.len()
    }

    /// The keys, in the order in which they were put in.
    pub fn keys(&self) -> (r: Vec<String>)
        ensures
            forall|k: Text|
                #![trigger self@.contains_key(k)]
                self@.contains_key(k) <==> exists|i: int|
                    0 <= i < r@.len() && (#[trigger] r@[i])@ == k,
    {
        let mut out: Vec<String> = Vec::new();
        let mut i: usize = 0;
        while i < self.entries.len()
            invariant
                i <= self.entries.len(),
                out@.len() == i,
                forall|j: int| 0 <= j < i ==> (#[trigger] out@[j])@ == self.entries@[j].0@,
            decreases self.entries.len() - i,
        {
            out.push(self.entries[i].0.clone());
            i += 1;
        }
        proof {
            assert forall|k: Text|
                #![trigger self@.contains_key(k)]
                self@.contains_key(k) <==> exists|i: int|
                    0 <= i < out@.len() && (#[trigger] out@[i])@ == k by {
                place_is_there(self.entries@, k);
                if self@.contains_key(k) {
                    let p = place(self.entries@, k).unwrap();
                    assert(out@[p]@ == k);
                }
                if exists|i: int| 0 <= i < out@.len() && (#[trigger] out@[i])@ == k {
                    let i = choose|i: int| 0 <= i < out@.len() && (#[trigger] out@[i])@ == k;
                    assert(self.entries@[i].0@ == k);
                }
            }
        }
        out
    }
}

/// The keys of a list of entries.
spec fn keys<V>(entries: Seq<(String, V)>) -> Set<Text> {
    Set::new(|k: Text| place(entries, k).is_some())
}

proof fn keys_count<V>(entries: Seq<(String, V)>)
    requires
        distinct(entries),
    ensures
        keys(entries).finite(),
        keys(entries).len() == entries.len(),
    decreases entries.len(),
{
    if entries.len() == 0 {
        assert(keys(entries) =~= Set::empty());
    } else {
        let d = entries.drop_last();
        assert forall|i: int, j: int| 0 <= i < j < d.len() implies (#[trigger] d[i]).0@ != (
        #[trigger] d[j]).0@ by {
            assert(d[i] == entries[i] && d[j] == entries[j]);
        }
        keys_count(d);
        let last = entries.last().0@;
        place_is_there(d, last);
        if let Some(p) = place(d, last) {
            assert(entries[p].0@ != entries[entries.len() - 1].0@);
        }
        assert(!keys(d).contains(last));
        assert(keys(entries) =~= keys(d).insert(last));
    }
}

} // verus!
