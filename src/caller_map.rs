use vstd::prelude::*;

use crate::account::AccountId;

verus! {

/// A mapping from caller identity to a signed counter, held as a list of
/// entries with distinct keys. Inserting under a present key overwrites it.
pub struct CallerMap {
    entries: Vec<(AccountId, i32)>,
    contents: Ghost<Map<Seq<u8>, i32>>,
}

impl View for CallerMap {
    type V = Map<Seq<u8>, i32>;

    closed spec fn view(&self) -> Map<Seq<u8>, i32> {
        self.contents@
    }
}

impl CallerMap {
    /// The entries have distinct keys and hold exactly the pairs of the view.
    pub closed spec fn wf(&self) -> bool {
        &&& forall|i: int, j: int|
            0 <= i < self.entries@.len() && 0 <= j < self.entries@.len() && i != j
                ==> self.entries@[i].0@ != self.entries@[j].0@
        &&& forall|i: int|
            0 <= i < self.entries@.len() ==> {
                &&& #[trigger] self.contents@.contains_key(self.entries@[i].0@)
                &&& self.contents@[self.entries@[i].0@] == self.entries@[i].1
            }
        &&& forall|k: Seq<u8>|
            #[trigger] self.contents@.contains_key(k) ==> exists|i: int|
                0 <= i < self.entries@.len() && self.entries@[i].0@ == k
    }

    /// An empty mapping.
    pub fn new() -> (r: CallerMap)
        ensures
            r.wf(),
            r@ == Map::<Seq<u8>, i32>::empty(),
    {
        CallerMap { entries: Vec::new(), contents: Ghost(Map::empty()) }
    }

    /// The position of the entry for `key`, if there is one.
    fn position(&self, key: &AccountId) -> (r: Option<usize>)
        requires
            self.wf(),
        ensures
            match r {
                Some(i) => i < self.entries@.len() && self.entries@[i as int].0@ == key@,
                None => !self@.contains_key(key@),
            },
    {
        let mut i: usize = 0;
        while i < self.entries.len()
            invariant
                i <= self.entries@.len(),
                forall|j: int| 0 <= j < i ==> self.entries@[j].0@ != key@,
            decreases self.entries@.len() - i,
        {
            if self.entries[i].0.same_as(key) {
                return Some(i);
            }
            i = i + 1;
        }
        None
    }

    /// The value stored for `key`, if any.
    pub fn get(&self, key: &AccountId) -> (r: Option<i32>)
        requires
            self.wf(),
        ensures
            r == (if self@.contains_key(key@) { Some(self@[key@]) } else { None::<i32> }),
    {
        match self.position(key) {
            Some(i) => Some(self.entries[i].1),
            None => None,
        }
    }

    /// Stores `value` for `key`, replacing what was stored for it.
    pub fn insert(&mut self, key: &AccountId, value: i32)
        requires
            old(self).wf(),
        ensures
            final(self).wf(),
            final(self)@ == old(self)@.insert(key@, value),
    {
        let ghost m = self@;
        let ghost before = self.entries@;
        let ghost mut pos: int = 0;
        match self.position(key) {
            Some(i) => {
                self.entries.set(i, (*key, value));
                proof {
                    pos = i as int;
                }
            },
            None => {
                self.entries.push((*key, value));
                proof {
                    pos = before.len() as int;
                }
            },
        }
        self.contents = Ghost(m.insert(key@, value));
        assert(self.entries@[pos].0@ == key@);
        assert forall|k: Seq<u8>| #[trigger] self.contents@.contains_key(k) implies exists|i: int|
            0 <= i < self.entries@.len() && self.entries@[i].0@ == k by {
            if k != key@ {
                assert(m.contains_key(k));
                let j: int = choose|j: int| 0 <= j < before.len() && before[j].0@ == k;
                assert(self.entries@[j].0@ == k);
            }
        }
    }

    /// Deletes the entry for `key`; does nothing where there is none.
    pub fn remove(&mut self, key: &AccountId)
        requires
            old(self).wf(),
        ensures
            final(self).wf(),
            final(self)@ == old(self)@.remove(key@),
    {
        let ghost m = self@;
        let ghost before = self.entries@;
        let found = self.position(key);
        self.contents = Ghost(m.remove(key@));
        match found {
            Some(i) => {
                self.entries.remove(i);
                proof {
                    let after = self.entries@;
                    assert(after =~= before.remove(i as int));
                    assert forall|a: int|
                        0 <= a < after.len() implies #[trigger] after[a] == before[
                        if a < i { a } else { a + 1 }] by {}
                    assert forall|a: int, b: int|
                        0 <= a < after.len() && 0 <= b < after.len() && a != b
                            implies #[trigger] after[a].0@ != #[trigger] after[b].0@ by {
                        assert(after[a] == before[if a < i { a } else { a + 1 }]);
                        assert(after[b] == before[if b < i { b } else { b + 1 }]);
                    }
                    assert forall|a: int| 0 <= a < after.len() implies
                        #[trigger] self.contents@.contains_key(after[a].0@)
                            && self.contents@[after[a].0@] == after[a].1 by {
                        let a0 = if a < i { a } else { a + 1 };
                        assert(after[a] == before[a0]);
                        assert(m.contains_key(before[a0].0@));
                        assert(before[i as int].0@ == key@);
                        assert(before[a0].0@ != before[i as int].0@);
                    }
                    assert forall|k: Seq<u8>| #[trigger] self.contents@.contains_key(k)
                        implies exists|a: int| 0 <= a < after.len() && after[a].0@ == k by {
                        assert(m.contains_key(k));
                        let j: int = choose|j: int| 0 <= j < before.len() && before[j].0@ == k;
                        if j < i {
                            assert(after[j] == before[j]);
                        } else {
                            assert(after[j - 1] == before[j]);
                        }
                    }
                }
            },
            None => {
                assert(self.contents@ =~= m);
            },
        }
    }
}

} // verus!
