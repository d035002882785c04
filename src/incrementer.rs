use vstd::prelude::*;

use crate::account::AccountId;
use crate::caller_map::CallerMap;

verus! {

/// The abstract state of a counter store: the global counter and, for each
/// caller that has an entry, that caller's counter.
pub ghost struct CounterState {
    pub value: i32,
    pub mine: Map<Seq<u8>, i32>,
}

/// Whether `x` is representable as an `i32`.
pub open spec fn fits_i32(x: int) -> bool {
    i32::MIN <= x <= i32::MAX
}

/// The counter of `caller`: its stored value, or zero where it has no entry.
pub open spec fn mine_of(s: CounterState, caller: Seq<u8>) -> int {
    if s.mine.contains_key(caller) {
        s.mine[caller] as int
    } else {
        0
    }
}

/// The state made by `Incrementer::new`: the global counter holds `init`,
/// and the deploying caller has an entry of zero.
pub open spec fn new_state(init: i32, deployer: Seq<u8>) -> CounterState {
    CounterState { value: init, mine: map![deployer => 0i32] }
}

/// The state made by `Incrementer::default`: zero, and no entries.
pub open spec fn default_state() -> CounterState {
    CounterState { value: 0, mine: Map::empty() }
}

/// The state after adding `by` to the global counter; unchanged where the
/// sum does not fit.
pub open spec fn inc_step(s: CounterState, by: i32) -> CounterState {
    if fits_i32(s.value + by) {
        CounterState { value: (s.value + by) as i32, ..s }
    } else {
        s
    }
}

/// The state after adding `by` to the counter of `caller`, which is written
/// back as an entry; unchanged where the sum does not fit.
pub open spec fn inc_mine_step(s: CounterState, caller: Seq<u8>, by: i32) -> CounterState {
    if fits_i32(mine_of(s, caller) + by) {
        CounterState { mine: s.mine.insert(caller, (mine_of(s, caller) + by) as i32), ..s }
    } else {
        s
    }
}

/// The state after deleting the entry of `caller`, if it has one.
pub open spec fn remove_mine_step(s: CounterState, caller: Seq<u8>) -> CounterState {
    CounterState { mine: s.mine.remove(caller), ..s }
}

/// Why an operation of the store failed.
#[derive(Clone, Copy, Debug, PartialEq, Eq, Structural)]
pub enum IncrementerError {
    /// The sum of a counter and the increment is not representable as an `i32`;
    /// the store is left as it was.
    ArithmeticOverflow,
}

/// A counter store: a global counter, and a counter for each caller, where a
/// caller without an entry counts as zero.
pub struct Incrementer {
    value: i32,
    my_map: CallerMap,
}

impl View for Incrementer {
    type V = CounterState;

    closed spec fn view(&self) -> CounterState {
        CounterState { value: self.value, mine: self.my_map@ }
    }
}

impl Incrementer {
    #[verifier::type_invariant]
    spec fn wf(&self) -> bool {
        self.my_map.wf()
    }

    /// A store whose global counter holds `init_value`, where the deploying
    /// `caller` has an entry of zero.
    pub fn new(init_value: i32, caller: &AccountId) -> (r: Incrementer)
        ensures
            r@ == new_state(init_value, caller@),
    {
        let mut my_map = CallerMap::new();
        my_map.insert(caller, 0);
        assert(my_map@ =~= map![caller@ => 0i32]);
        Incrementer { value: init_value, my_map }
    }

    /// A store whose global counter is zero, with no entries.
    pub fn default() -> (r: Incrementer)
        ensures
            r@ == default_state(),
    {
        Incrementer { value: 0, my_map: CallerMap::new() }
    }

    /// Adds `by` to the global counter. Fails, leaving the store unchanged,
    /// where the sum is not representable.
    pub fn inc(&mut self, by: i32) -> (r: Result<(), IncrementerError>)
        ensures
            final(self)@ == inc_step(old(self)@, by),
            r == (if fits_i32(old(self)@.value + by) {
                Ok::<(), IncrementerError>(())
            } else {
                Err(IncrementerError::ArithmeticOverflow)
            }),
    {
        match self.value.checked_add(by) {
            Some(v) => {
                proof {
                    use_type_invariant(&*self);
                }
                self.value = v;
                Ok(())
            },
            None => Err(IncrementerError::ArithmeticOverflow),
        }
    }

    /// Adds `by` to the counter of `caller` (zero where it has no entry) and
    /// stores the sum as its entry. Fails, leaving the store unchanged, where
    /// the sum is not representable.
    pub fn inc_mine(&mut self, caller: &AccountId, by: i32) -> (r: Result<(), IncrementerError>)
        ensures
            final(self)@ == inc_mine_step(old(self)@, caller@, by),
            r == (if fits_i32(mine_of(old(self)@, caller@) + by) {
                Ok::<(), IncrementerError>(())
            } else {
                Err(IncrementerError::ArithmeticOverflow)
            }),
    {
        let my_value = self.get_mine(caller);
        match my_value.checked_add(by) {
            Some(v) => {
                proof {
                    use_type_invariant(&*self);
                }
                let mut my_map = CallerMap::new();
                std::mem::swap(&mut my_map, &mut self.my_map);
                my_map.insert(caller, v);
                self.my_map = my_map;
                Ok(())
            },
            None => Err(IncrementerError::ArithmeticOverflow),
        }
    }

    /// The global counter.
    pub fn get(&self) -> (r: i32)
        ensures
            r == self@.value,
    {
        self.value
    }

    /// The counter of `caller`: its entry, or zero where it has none.
    pub fn get_mine(&self, caller: &AccountId) -> (r: i32)
        ensures
            r == mine_of(self@, caller@),
    {
        proof {
            use_type_invariant(self);
        }
        match self.my_map.get(caller) {
            Some(v) => v,
            None => 0,
        }
    }

    /// Deletes the entry of `caller`; does nothing where it has none.
    pub fn remove_mine(&mut self, caller: &AccountId)
        ensures
            final(self)@ == remove_mine_step(old(self)@, caller@),
    {
        proof {
            use_type_invariant(&*self);
        }
        let mut my_map = CallerMap::new();
        std::mem::swap(&mut my_map, &mut self.my_map);
        my_map.remove(caller);
        self.my_map = my_map;
    }
}

} // verus!
