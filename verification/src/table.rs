//! A small map from texts to values.
use vstd::prelude::*;

use crate::text::same;

verus! {

/// A map keyed by text. At most one value is held per key.
pub struct TextTable<V> {
    keys: Vec<String>,
    values: Vec<V>,
}

impl<V> TextTable<V> {
    /// The slot that holds `key`.
    closed spec fn slot(self, key: Seq<char>) -> int {
        choose|i: int| 0 <= i < self.keys@.len() && (#[trigger] self.keys@[i])@ == key
    }

    closed spec fn holds(self, key: Seq<char>) -> bool {
        exists|i: int| 0 <= i < self.keys@.len() && (#[trigger] self.keys@[i])@ == key
    }

    /// Every key is paired with one value, and no key occurs twice.
    pub closed spec fn wf(self) -> bool {
        &&& self.keys@.len() == self.values@.len()
        &&& forall|i: int, j: int|
            0 <= i < j < self.keys@.len() ==> (#[trigger] self.keys@[i])@ != (#[trigger] self.keys@[j])@
    }
}

impl<V> View for TextTable<V> {
    type V = Map<Seq<char>, V>;

    closed spec fn view(&self) -> Map<Seq<char>, V> {
        Map::new(|k: Seq<char>| self.holds(k), |k: Seq<char>| self.values@[self.slot(k)])
    }
}

impl<V> TextTable<V> {
    pub fn new() -> (t: Self)
        ensures
            t.wf(),
            t@ == Map::<Seq<char>, V>::empty(),
    {
        let t = TextTable { keys: Vec::new(), values: Vec::new() };
        assert(t@ =~= Map::<Seq<char>, V>::empty());
        t
    }

    fn find(&self, key: &str) -> (r: Option<usize>)
        requires
            self.wf(),
        ensures
            r matches Some(i) ==> i < self.keys@.len() && self.keys@[i as int]@ == key@ && self.slot(
                key@,
            ) == i && self@.contains_key(key@) && self@[key@] == self.values@[i as int],
            r is None ==> !self@.contains_key(key@) && forall|i: int|
                0 <= i < self.keys@.len() ==> (#[trigger] self.keys@[i])@ != key@,
    {
        let mut i: usize = 0;
        while i < self.keys.len()
            invariant
                i <= self.keys@.len(),
                self.wf(),
                forall|j: int| 0 <= j < i ==> (#[trigger] self.keys@[j])@ != key@,
            decreases self.keys@.len() - i,
        {
            if same(self.keys[i].as_str(), key) {
                assert(self.holds(key@));
                assert(self.slot(key@) == i) by {
                    let s = self.slot(key@);
                    assert(0 <= s < self.keys@.len() && self.keys@[s]@ == key@);
                }
                return Some(i);
            }
            i = i + 1;
        }
        None
    }

    /// The value held for `key`.
    pub fn get(&self, key: &str) -> (r: Option<&V>)
        requires
            self.wf(),
        ensures
            r is Some <==> self@.contains_key(key@),
            r matches Some(v) ==> *v == self@[key@],
    {
        match self.find(key) {
            Some(i) => Some(&self.values[i]),
            None => None,
        }
    }

    /// The keys that a value is held for, each once.
    pub fn list_keys(&self) -> (r: Vec<String>)
        requires
            self.wf(),
        ensures
            forall|i: int| 0 <= i < r@.len() ==> self@.contains_key((#[trigger] r@[i])@),
            forall|k: Seq<char>| #[trigger]
                self@.contains_key(k) ==> exists|i: int| 0 <= i < r@.len() && (#[trigger] r@[i])@ == k,
            forall|i: int, j: int|
                0 <= i < j < r@.len() ==> (#[trigger] r@[i])@ != (#[trigger] r@[j])@,
    {
        let mut r: Vec<String> = Vec::new();
        let mut i: usize = 0;
        while i < self.keys.len()
            invariant
                i <= self.keys@.len(),
                r@.len() == i,
                forall|j: int| 0 <= j < i ==> (#[trigger] r@[j])@ == self.keys@[j]@,
            decreases self.keys@.len() - i,
        {
            r.push(self.keys[i].clone());
            i = i + 1;
        }
        proof {
            assert forall|j: int| 0 <= j < r@.len() implies self@.contains_key(
                (#[trigger] r@[j])@,
            ) by {
                assert(self.keys@[j]@ == r@[j]@);
            }
            assert forall|k: Seq<char>| #[trigger] self@.contains_key(k) implies exists|j: int|
                0 <= j < r@.len() && (#[trigger] r@[j])@ == k by {
                let s = self.slot(k);
                assert(self.keys@[s]@ == k);
                assert(r@[s]@ == k);
            }
        }
        r
    }

    /// Holds `value` for `key`, in place of any earlier value.
    pub fn set(&mut self, key: String, value: V)
        requires
            old(self).wf(),
        ensures
            final(self).wf(),
            final(self)@ == old(self)@.insert(key@, value),
    {
        let found = self.find(key.as_str());
        let ghost before = *self;
        let ghost name = key@;
        match found {
            Some(i) => {
                self.values.set(i, value);
                proof {
                    assert forall|k: Seq<char>| self.holds(k) == before.holds(k) by {}
                    assert forall|k: Seq<char>| #[trigger] before.holds(k) implies self.slot(k)
                        == before.slot(k) by {
                        assert(self.keys@ == before.keys@);
                    }
                    assert forall|k: Seq<char>| #[trigger] before.holds(k) && k != name implies before.slot(k)
                        != i by {
                        let s = before.slot(k);
                        assert(before.keys@[s]@ == k);
                    }
                    assert forall|k: Seq<char>| #[trigger] before.holds(k) implies 0 <= before.slot(k)
                        < before.keys@.len() by {
                        let s = before.slot(k);
                        assert(before.keys@[s]@ == k);
                    }
                    assert(before.holds(name));
                    assert(self@ =~= before@.insert(name, value));
                }
            },
            None => {
                self.keys.push(key);
                self.values.push(value);
                proof {
                    let n = before.keys@.len() as int;
                    assert(self.keys@[n]@ == name);
                    assert(forall|j: int| 0 <= j < n ==> self.keys@[j] == before.keys@[j]);
                    assert forall|k: Seq<char>| #[trigger] before.holds(k) implies self.holds(k)
                        && self.slot(k) == before.slot(k) && 0 <= before.slot(k) < n by {
                        let s = before.slot(k);
                        assert(0 <= s < n && before.keys@[s]@ == k);
                        assert(self.keys@[s]@ == k);
                        let u = self.slot(k);
                        assert(0 <= u <= n && self.keys@[u]@ == k);
                        if u != s {
                            if u < n {
                                assert(before.keys@[u]@ == k);
                            }
                        }
                    }
                    assert forall|k: Seq<char>| #[trigger] self.holds(k) && k != name implies before.holds(
                        k,
                    ) by {
                        let u = self.slot(k);
                        assert(0 <= u <= n && self.keys@[u]@ == k);
                        assert(before.keys@[u]@ == k);
                    }
                    assert(self.holds(name));
                    assert(self.slot(name) == n) by {
                        let u = self.slot(name);
                        assert(0 <= u <= n && self.keys@[u]@ == name);
                        if u < n {
                            assert(before.keys@[u]@ == name);
                        }
                    }
                    assert(self@ =~= before@.insert(name, value));
                }
            },
        }
    }

    /// Drops the value held for `key`, if any.
    pub fn unset(&mut self, key: &str)
        requires
            old(self).wf(),
        ensures
            final(self).wf(),
            final(self)@ == old(self)@.remove(key@),
    {
        let found = self.find(key);
        let ghost before = *self;
        match found {
            Some(i) => {
                self.keys.remove(i);
                self.values.remove(i);
                proof {
                    let at = i as int;
                    let n = before.keys@.len() as int;
                    assert forall|j: int| 0 <= j < n - 1 implies #[trigger] self.keys@[j] == before.keys@[if j
                        < at {
                        j
                    } else {
                        j + 1
                    }] && self.values@[j] == before.values@[if j < at {
                        j
                    } else {
                        j + 1
                    }] by {}
                    assert forall|k: Seq<char>| #[trigger] before.holds(k) && k != key@ implies self.holds(
                        k,
                    ) && self.values@[self.slot(k)] == before.values@[before.slot(k)] by {
                        let s = before.slot(k);
                        assert(0 <= s < n && before.keys@[s]@ == k);
                        let u = if s < at {
                            s
                        } else {
                            s - 1
                        };
                        assert(self.keys@[u]@ == k);
                        let w = self.slot(k);
                        assert(0 <= w < n - 1 && self.keys@[w]@ == k);
                        assert(before.keys@[if w < at {
                            w
                        } else {
                            w + 1
                        }]@ == k);
                    }
                    assert forall|k: Seq<char>| #[trigger] self.holds(k) implies before.holds(k) && k
                        != key@ by {
                        let w = self.slot(k);
                        assert(0 <= w < n - 1 && self.keys@[w]@ == k);
                        assert(before.keys@[if w < at {
                            w
                        } else {
                            w + 1
                        }]@ == k);
                    }
                    assert(self@ =~= before@.remove(key@));
                }
            },
            None => {
                assert(self@ =~= before@.remove(key@));
            },
        }
    }

    /// Drops every value.
    pub fn clear(&mut self)
        ensures
            final(self).wf(),
            final(self)@ == Map::<Seq<char>, V>::empty(),
    {
        self.keys.clear();
        self.values.clear();
        assert(self@ =~= Map::<Seq<char>, V>::empty());
    }
}

} // verus!
