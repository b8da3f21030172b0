//! The position ledger: adjustments, transfers and their bookkeeping.

use serp_treasury::currency::{CurrencyId, TokenSymbol};
use serp_treasury::ledger::Ledger;
use serp_treasury::positions::{SettmintEvent, SettmintManager};
use serp_treasury::Error;

const ALICE: u128 = 1;
const BOB: u128 = 2;
const MODULE: u128 = 100;

fn eurj() -> CurrencyId {
    CurrencyId::Token(TokenSymbol::SETEUR)
}

fn setr() -> CurrencyId {
    CurrencyId::Token(TokenSymbol::SETR)
}

fn build() -> (Ledger, SettmintManager) {
    let mut ledger = Ledger::new();
    ledger.deposit(setr(), ALICE, 1000).unwrap();
    ledger.deposit(setr(), BOB, 1000).unwrap();
    ledger.deposit(eurj(), ALICE, 1000).unwrap();
    ledger.deposit(eurj(), BOB, 1000).unwrap();
    let manager = SettmintManager::new(MODULE, setr(), 1, 2);
    (ledger, manager)
}

#[test]
fn standards_key() {
    let (mut ledger, mut manager) = build();
    assert_eq!(manager.positions(eurj(), ALICE).standard, 0);
    assert!(manager.adjust_position(&mut ledger, ALICE, eurj(), 200, 200).is_ok());
    assert_eq!(manager.positions(eurj(), ALICE).standard, 200);
    assert_eq!(ledger.free_balance(setr(), manager.account_id()), 100);
    assert!(manager.adjust_position(&mut ledger, ALICE, eurj(), -100, -100).is_ok());
    assert_eq!(manager.positions(eurj(), ALICE).standard, 100);
}

#[test]
fn check_update_position_underflow_work() {
    let (_ledger, mut manager) = build();
    // reserve underflow
    assert_eq!(
        manager.update_position(ALICE, eurj(), -100, 0),
        Err(Error::Underflow)
    );
    // standard underflow
    assert_eq!(
        manager.update_position(ALICE, eurj(), 0, -100),
        Err(Error::Underflow)
    );
}

#[test]
fn adjust_position_should_work() {
    let (mut ledger, mut manager) = build();
    assert_eq!(ledger.free_balance(setr(), ALICE), 1000);

    assert_eq!(ledger.free_balance(setr(), ALICE), 1000);
    assert_eq!(ledger.free_balance(eurj(), manager.account_id()), 0);
    assert_eq!(manager.total_positions(eurj()).standard, 0);
    assert_eq!(manager.total_positions(eurj()).reserve, 0);
    assert_eq!(manager.positions(eurj(), ALICE).standard, 0);
    assert_eq!(manager.positions(eurj(), ALICE).reserve, 0);
    assert_eq!(ledger.free_balance(eurj(), ALICE), 1000);

    // success
    assert!(manager.adjust_position(&mut ledger, ALICE, eurj(), 500, 300).is_ok());
    assert_eq!(ledger.free_balance(setr(), ALICE), 750);
    assert_eq!(ledger.free_balance(setr(), manager.account_id()), 250);
    assert_eq!(manager.total_positions(eurj()).standard, 300);
    assert_eq!(manager.total_positions(eurj()).reserve, 500);
    assert_eq!(manager.positions(eurj(), ALICE).standard, 300);
    assert_eq!(manager.positions(eurj(), ALICE).reserve, 500);
    assert_eq!(ledger.free_balance(eurj(), ALICE), 1150);
    assert_eq!(
        manager.last_event(),
        Some(SettmintEvent::PositionUpdated(ALICE, eurj(), 500, 300))
    );

    // reserve_adjustment is negative: the module account empties out.
    assert_eq!(ledger.free_balance(eurj(), manager.account_id()), 0);
    assert!(ledger.account_exists(manager.account_id()));
    assert!(manager.adjust_position(&mut ledger, ALICE, eurj(), -500, 0).is_ok());
    assert_eq!(ledger.free_balance(eurj(), manager.account_id()), 0);
    assert!(!ledger.account_exists(manager.account_id()));
}

#[test]
fn transfer_position_should_work() {
    let (_ledger, mut manager) = build();
    assert!(manager.update_position(ALICE, eurj(), 400, 500).is_ok());
    assert!(manager.update_position(BOB, eurj(), 100, 600).is_ok());
    assert_eq!(manager.positions(eurj(), ALICE).standard, 500);
    assert_eq!(manager.positions(eurj(), ALICE).reserve, 400);
    assert_eq!(manager.positions(eurj(), BOB).standard, 600);
    assert_eq!(manager.positions(eurj(), BOB).reserve, 100);

    assert!(manager.transfer_position(ALICE, BOB, eurj()).is_ok());
    assert_eq!(manager.positions(eurj(), ALICE).standard, 0);
    assert_eq!(manager.positions(eurj(), ALICE).reserve, 0);
    assert_eq!(manager.positions(eurj(), BOB).standard, 1100);
    assert_eq!(manager.positions(eurj(), BOB).reserve, 500);

    assert_eq!(
        manager.last_event(),
        Some(SettmintEvent::TransferPosition(ALICE, BOB, eurj()))
    );
}

#[test]
fn update_position_should_work() {
    let (mut ledger, mut manager) = build();
    assert_eq!(ledger.free_balance(setr(), manager.account_id()), 0);
    assert_eq!(ledger.free_balance(setr(), ALICE), 1000);
    assert_eq!(manager.total_positions(eurj()).standard, 0);
    assert_eq!(manager.total_positions(eurj()).reserve, 0);
    assert_eq!(manager.positions(eurj(), ALICE).standard, 0);
    assert_eq!(manager.positions(eurj(), ALICE).reserve, 0);
    assert_eq!(manager.contains_position(eurj(), ALICE), false);

    let alice_ref_count_0 = manager.consumers(ALICE);

    assert!(manager.update_position(ALICE, eurj(), 3000, 2000).is_ok());

    // just update records
    assert_eq!(manager.total_positions(eurj()).standard, 2000);
    assert_eq!(manager.total_positions(eurj()).reserve, 3000);
    assert_eq!(manager.positions(eurj(), ALICE).standard, 2000);
    assert_eq!(manager.positions(eurj(), ALICE).reserve, 3000);

    // increase ref count when open new position
    let alice_ref_count_1 = manager.consumers(ALICE);
    assert_eq!(alice_ref_count_1, alice_ref_count_0 + 1);

    // do not manipulate balance
    assert_eq!(ledger.free_balance(setr(), manager.account_id()), 0);
    assert_eq!(ledger.free_balance(setr(), ALICE), 1000);

    // should remove position storage if zero
    assert_eq!(manager.contains_position(eurj(), ALICE), true);
    assert!(manager.update_position(ALICE, eurj(), -3000, -2000).is_ok());
    assert_eq!(manager.positions(eurj(), ALICE).standard, 0);
    assert_eq!(manager.positions(eurj(), ALICE).reserve, 0);
    assert_eq!(manager.contains_position(eurj(), ALICE), false);

    // decrease ref count after remove position
    let alice_ref_count_2 = manager.consumers(ALICE);
    assert_eq!(alice_ref_count_2, alice_ref_count_1 - 1);
}

#[test]
fn total_reserve_works() {
    let (mut ledger, manager) = build();
    assert!(ledger.deposit(setr(), manager.account_id(), 10).is_ok());
    assert_eq!(manager.total_reserve(&ledger), 10);
}

#[test]
fn failed_adjustment_is_a_no_op() {
    let (mut ledger, mut manager) = build();
    assert!(manager.adjust_position(&mut ledger, ALICE, eurj(), 500, 300).is_ok());
    let pos_before = manager.positions(eurj(), ALICE);
    let totals_before = manager.total_positions(eurj());
    let alice_setr = ledger.free_balance(setr(), ALICE);
    let alice_eurj = ledger.free_balance(eurj(), ALICE);
    let module_setr = ledger.free_balance(setr(), manager.account_id());

    // driving the reserve below zero declines with Underflow and leaves
    // every record and balance as it was
    assert_eq!(
        manager.adjust_position(&mut ledger, ALICE, eurj(), -501, 0),
        Err(Error::Underflow)
    );
    assert_eq!(manager.positions(eurj(), ALICE), pos_before);
    assert_eq!(manager.total_positions(eurj()), totals_before);
    assert_eq!(ledger.free_balance(setr(), ALICE), alice_setr);
    assert_eq!(ledger.free_balance(eurj(), ALICE), alice_eurj);
    assert_eq!(ledger.free_balance(setr(), manager.account_id()), module_setr);

    // an unpayable collateral movement declines and is also a no-op
    assert_eq!(
        manager.adjust_position(&mut ledger, ALICE, eurj(), 2000, 0),
        Err(Error::InsufficientBalance)
    );
    assert_eq!(manager.positions(eurj(), ALICE), pos_before);
    assert_eq!(ledger.free_balance(setr(), ALICE), alice_setr);
}

#[test]
fn record_exists_exactly_while_nonzero() {
    let (mut ledger, mut manager) = build();
    assert!(!manager.contains_position(eurj(), ALICE));
    assert!(manager.adjust_position(&mut ledger, ALICE, eurj(), 10, 0).is_ok());
    assert!(manager.contains_position(eurj(), ALICE));
    assert!(manager.adjust_position(&mut ledger, ALICE, eurj(), -10, 0).is_ok());
    assert!(!manager.contains_position(eurj(), ALICE));
}

#[test]
fn totals_follow_the_sum_of_positions() {
    let (mut ledger, mut manager) = build();
    assert!(manager.adjust_position(&mut ledger, ALICE, eurj(), 300, 100).is_ok());
    assert!(manager.adjust_position(&mut ledger, BOB, eurj(), 200, 50).is_ok());
    let alice = manager.positions(eurj(), ALICE);
    let bob = manager.positions(eurj(), BOB);
    let totals = manager.total_positions(eurj());
    assert_eq!(totals.reserve, alice.reserve + bob.reserve);
    assert_eq!(totals.standard, alice.standard + bob.standard);

    assert!(manager.transfer_position(ALICE, BOB, eurj()).is_ok());
    let totals_after = manager.total_positions(eurj());
    assert_eq!(totals_after.reserve, totals.reserve);
    assert_eq!(totals_after.standard, totals.standard);
}

#[test]
fn transfer_position_needs_a_record() {
    let (_ledger, mut manager) = build();
    assert_eq!(
        manager.transfer_position(ALICE, BOB, eurj()),
        Err(Error::InvalidAmount)
    );
}

#[test]
fn transfer_onto_oneself_changes_nothing() {
    let (_ledger, mut manager) = build();
    assert!(manager.update_position(ALICE, eurj(), 40, 50).is_ok());
    assert!(manager.transfer_position(ALICE, ALICE, eurj()).is_ok());
    assert_eq!(manager.positions(eurj(), ALICE).reserve, 40);
    assert_eq!(manager.positions(eurj(), ALICE).standard, 50);
    assert_eq!(manager.total_positions(eurj()).reserve, 40);
}

#[test]
fn positions_in_different_currencies_stay_apart() {
    let (mut ledger, mut manager) = build();
    assert!(manager.adjust_position(&mut ledger, ALICE, eurj(), 100, 60).is_ok());
    assert!(manager.update_position(ALICE, setr(), 7, 3).is_ok());
    assert_eq!(manager.positions(eurj(), ALICE).reserve, 100);
    assert_eq!(manager.positions(setr(), ALICE).reserve, 7);
    assert_eq!(manager.total_positions(eurj()).standard, 60);
    assert_eq!(manager.total_positions(setr()).standard, 3);
}

#[test]
fn position_overflow_is_detected() {
    let (_ledger, mut manager) = build();
    assert!(manager.update_position(ALICE, eurj(), i128::MAX, 0).is_ok());
    assert!(manager.update_position(ALICE, eurj(), i128::MAX, 0).is_ok());
    assert_eq!(
        manager.update_position(ALICE, eurj(), i128::MAX, 0),
        Err(Error::Overflow)
    );
}
