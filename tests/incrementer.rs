use incrementer::{AccountId, Incrementer, IncrementerError};

fn alice() -> AccountId {
    AccountId { bytes: [1u8; 32] }
}

fn bob() -> AccountId {
    AccountId { bytes: [2u8; 32] }
}

#[test]
fn default_works() {
    let contract = Incrementer::default();
    assert_eq!(contract.get(), 0);
}

#[test]
fn it_works() {
    let mut contract = Incrementer::new(42, &alice());
    assert_eq!(contract.get(), 42);
    assert_eq!(contract.inc(5), Ok(()));
    assert_eq!(contract.get(), 47);
    assert_eq!(contract.inc(-50), Ok(()));
    assert_eq!(contract.get(), -3);
}

#[test]
fn my_map_works() {
    let contract = Incrementer::new(11, &alice());
    assert_eq!(contract.get(), 11);
    assert_eq!(contract.get_mine(&alice()), 0);
}

#[test]
fn inc_mine_works() {
    let mut contract = Incrementer::new(11, &alice());
    assert_eq!(contract.get_mine(&alice()), 0);
    assert_eq!(contract.inc_mine(&alice(), 5), Ok(()));
    assert_eq!(contract.get_mine(&alice()), 5);
    assert_eq!(contract.inc_mine(&alice(), 5), Ok(()));
    assert_eq!(contract.get_mine(&alice()), 10);
}

#[test]
fn remove_mine_works() {
    let mut contract = Incrementer::new(11, &alice());
    assert_eq!(contract.get_mine(&alice()), 0);
    assert_eq!(contract.inc_mine(&alice(), 5), Ok(()));
    assert_eq!(contract.get_mine(&alice()), 5);
    contract.remove_mine(&alice());
    assert_eq!(contract.get_mine(&alice()), 0);
}

#[test]
fn new_reads_any_initial_value() {
    for v in [i32::MIN, -1, 0, 1, 7, i32::MAX] {
        assert_eq!(Incrementer::new(v, &alice()).get(), v);
    }
}

#[test]
fn global_increments_sum_up() {
    let mut contract = Incrementer::new(10, &alice());
    let deltas = [3, -20, 100, 0, -93];
    for d in deltas {
        assert_eq!(contract.inc(d), Ok(()));
    }
    assert_eq!(contract.get(), 10 + 3 - 20 + 100 + 0 - 93);
    assert_eq!(contract.get(), 0);
}

#[test]
fn global_overflow_is_an_error_and_keeps_the_value() {
    let mut contract = Incrementer::new(i32::MAX - 1, &alice());
    assert_eq!(contract.inc(1), Ok(()));
    assert_eq!(contract.get(), i32::MAX);
    assert_eq!(contract.inc(1), Err(IncrementerError::ArithmeticOverflow));
    assert_eq!(contract.get(), i32::MAX);
    let mut low = Incrementer::new(i32::MIN, &alice());
    assert_eq!(low.inc(-1), Err(IncrementerError::ArithmeticOverflow));
    assert_eq!(low.get(), i32::MIN);
}

#[test]
fn caller_overflow_is_an_error_and_keeps_the_entry() {
    let mut contract = Incrementer::default();
    assert_eq!(contract.inc_mine(&bob(), i32::MAX), Ok(()));
    assert_eq!(contract.inc_mine(&bob(), 1), Err(IncrementerError::ArithmeticOverflow));
    assert_eq!(contract.get_mine(&bob()), i32::MAX);
    assert_eq!(contract.inc_mine(&alice(), i32::MIN), Ok(()));
    assert_eq!(contract.inc_mine(&alice(), -1), Err(IncrementerError::ArithmeticOverflow));
    assert_eq!(contract.get_mine(&alice()), i32::MIN);
}

#[test]
fn unknown_caller_reads_zero() {
    let contract = Incrementer::default();
    assert_eq!(contract.get_mine(&alice()), 0);
    let seeded = Incrementer::new(5, &alice());
    assert_eq!(seeded.get_mine(&bob()), 0);
}

#[test]
fn callers_have_separate_counters() {
    let mut contract = Incrementer::new(0, &alice());
    assert_eq!(contract.inc_mine(&alice(), 4), Ok(()));
    assert_eq!(contract.inc_mine(&bob(), -9), Ok(()));
    assert_eq!(contract.get_mine(&alice()), 4);
    assert_eq!(contract.get_mine(&bob()), -9);
    contract.remove_mine(&alice());
    assert_eq!(contract.get_mine(&alice()), 0);
    assert_eq!(contract.get_mine(&bob()), -9);
    assert_eq!(contract.get(), 0);
}

#[test]
fn callers_differing_in_one_byte_are_distinct() {
    let mut last = [1u8; 32];
    last[31] = 9;
    let other = AccountId { bytes: last };
    assert!(!alice().same_as(&other));
    assert!(alice().same_as(&alice()));
    let mut contract = Incrementer::default();
    assert_eq!(contract.inc_mine(&other, 3), Ok(()));
    assert_eq!(contract.get_mine(&alice()), 0);
    assert_eq!(contract.get_mine(&other), 3);
}

#[test]
fn remove_mine_without_entry_is_a_no_op() {
    let mut contract = Incrementer::default();
    contract.remove_mine(&alice());
    assert_eq!(contract.get_mine(&alice()), 0);
    assert_eq!(contract.get(), 0);
    assert_eq!(contract.inc_mine(&alice(), 2), Ok(()));
    contract.remove_mine(&alice());
    contract.remove_mine(&alice());
    assert_eq!(contract.get_mine(&alice()), 0);
}

#[test]
fn inc_mine_after_remove_starts_from_zero() {
    let mut contract = Incrementer::new(1, &alice());
    assert_eq!(contract.inc_mine(&alice(), 8), Ok(()));
    contract.remove_mine(&alice());
    assert_eq!(contract.inc_mine(&alice(), 2), Ok(()));
    assert_eq!(contract.get_mine(&alice()), 2);
}
