//! A counter store: one global signed counter and a per-caller mapping of
//! signed counters, with increment, read and remove operations.

mod account;
mod caller_map;
mod incrementer;
mod laws;

pub use account::AccountId;
pub use incrementer::{
    default_state, fits_i32, inc_mine_step, inc_step, mine_of, new_state, remove_mine_step,
    CounterState, Incrementer, IncrementerError,
};
pub use laws::{
    after_incs, lemma_default_reads_zero, lemma_fresh_store_reads_zero, lemma_inc_mine_adds,
    lemma_inc_mine_twice, lemma_incs_sum, lemma_new_reads_init, lemma_others_leave_mine,
    lemma_remove_absent_is_noop, lemma_remove_after_inc_reads_zero, sum_of,
};
