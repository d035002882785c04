use vstd::prelude::*;

use crate::incrementer::{
    default_state, fits_i32, inc_mine_step, inc_step, mine_of, new_state, remove_mine_step,
    CounterState,
};

verus! {

/// The sum of a sequence of increments.
pub open spec fn sum_of(ds: Seq<i32>) -> int
    decreases ds.len(),
{
    if ds.len() == 0 {
        0
    } else {
        sum_of(ds.drop_last()) + ds.last()
    }
}

/// The state after `Incrementer::inc` was called with each of `ds` in turn.
pub open spec fn after_incs(s: CounterState, ds: Seq<i32>) -> CounterState
    decreases ds.len(),
{
    if ds.len() == 0 {
        s
    } else {
        inc_step(after_incs(s, ds.drop_last()), ds.last())
    }
}

/// A fresh default store reads zero as its global counter.
pub proof fn lemma_default_reads_zero()
    ensures
        default_state().value == 0,
{
}

/// A store made with an initial value reads that value as its global counter.
pub proof fn lemma_new_reads_init(init: i32, deployer: Seq<u8>)
    ensures
        new_state(init, deployer).value == init,
{
}

/// After a run of global increments, none of whose partial sums overflows,
/// the global counter is the initial value plus the sum of the increments;
/// the callers' counters are untouched.
pub proof fn lemma_incs_sum(s: CounterState, ds: Seq<i32>)
    requires
        forall|k: int| 0 <= k <= ds.len() ==> #[trigger] fits_i32(s.value + sum_of(ds.take(k))),
    ensures
        after_incs(s, ds).value == s.value + sum_of(ds),
        after_incs(s, ds).mine == s.mine,
    decreases ds.len(),
{
    if ds.len() > 0 {
        let front = ds.drop_last();
        assert forall|k: int| 0 <= k <= front.len() implies #[trigger] fits_i32(
            s.value + sum_of(front.take(k)),
        ) by {
            assert(front.take(k) =~= ds.take(k));
            assert(fits_i32(s.value + sum_of(ds.take(k))));
        }
        lemma_incs_sum(s, front);
        assert(ds.take(ds.len() as int) =~= ds);
        assert(fits_i32(s.value + sum_of(ds.take(ds.len() as int))));
    }
}

/// In a fresh store every caller reads zero: a default store has no entries,
/// and the deployer's entry in a store made with a value is zero.
pub proof fn lemma_fresh_store_reads_zero(init: i32, deployer: Seq<u8>, caller: Seq<u8>)
    ensures
        mine_of(default_state(), caller) == 0,
        mine_of(new_state(init, deployer), caller) == 0,
{
}

/// What other callers do, and global increments, leave a caller's counter as
/// it was; so a caller that never incremented its own counter reads zero.
pub proof fn lemma_others_leave_mine(s: CounterState, caller: Seq<u8>, other: Seq<u8>, by: i32)
    requires
        other != caller,
    ensures
        mine_of(inc_mine_step(s, other, by), caller) == mine_of(s, caller),
        mine_of(remove_mine_step(s, other), caller) == mine_of(s, caller),
        mine_of(inc_step(s, by), caller) == mine_of(s, caller),
{
}

/// Increments of a caller's own counter accumulate: where the sum fits, the
/// counter afterwards is the counter before plus the increment.
pub proof fn lemma_inc_mine_adds(s: CounterState, caller: Seq<u8>, by: i32)
    requires
        fits_i32(mine_of(s, caller) + by),
    ensures
        mine_of(inc_mine_step(s, caller, by), caller) == mine_of(s, caller) + by,
{
}

/// From a counter of zero, an increment by `d` reads `d`, and a second one by
/// `d2` reads `d + d2`, where that sum fits.
pub proof fn lemma_inc_mine_twice(s: CounterState, caller: Seq<u8>, d: i32, d2: i32)
    requires
        mine_of(s, caller) == 0,
        fits_i32(d + d2),
    ensures
        mine_of(inc_mine_step(s, caller, d), caller) == d,
        mine_of(inc_mine_step(inc_mine_step(s, caller, d), caller, d2), caller) == d + d2,
{
}

/// Removing a caller's entry after an increment makes its counter read zero.
pub proof fn lemma_remove_after_inc_reads_zero(s: CounterState, caller: Seq<u8>, by: i32)
    ensures
        mine_of(remove_mine_step(inc_mine_step(s, caller, by), caller), caller) == 0,
{
}

/// Removing the entry of a caller that has none leaves the store as it was.
pub proof fn lemma_remove_absent_is_noop(s: CounterState, caller: Seq<u8>)
    requires
        !s.mine.contains_key(caller),
    ensures
        remove_mine_step(s, caller) == s,
{
    assert(s.mine.remove(caller) =~= s.mine);
}

} // verus!
