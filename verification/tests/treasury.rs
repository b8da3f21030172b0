//! The treasury pools: the surplus/bad-debt offset, the pool guards and
//! the splitting of liquidations into auction lots.

use serp_treasury::auction::Auctions;
use serp_treasury::currency::{CurrencyId, TokenSymbol};
use serp_treasury::dex::{Dex, DexRate};
use serp_treasury::ledger::Ledger;
use serp_treasury::treasury::{SerpTreasury, TreasuryEvent};
use serp_treasury::Error;

const TREASURY: u128 = 50;
const RECEIVER: u128 = 51;
const VENUE: u128 = 60;

fn setusd() -> CurrencyId {
    CurrencyId::Token(TokenSymbol::SETUSD)
}

fn renbtc() -> CurrencyId {
    CurrencyId::Token(TokenSymbol::RENBTC)
}

fn build() -> (Ledger, Auctions, SerpTreasury) {
    let ledger = Ledger::new();
    let auctions = Auctions::new();
    let treasury = SerpTreasury::new(TREASURY, setusd(), 10);
    (ledger, auctions, treasury)
}

#[test]
fn offset_burns_the_smaller_pool() {
    let (mut ledger, _auctions, mut treasury) = build();
    assert!(treasury.on_system_standard(100).is_ok());
    ledger.deposit(setusd(), TREASURY, 60).unwrap();

    treasury.offset_serplusand_standard(&mut ledger);
    assert_eq!(treasury.standard_pool(), 40);
    assert_eq!(treasury.serpluspool(&ledger), 0);
    assert_eq!(ledger.total_issuance(setusd()), 0);

    // With the surplus at zero, a second run changes nothing.
    treasury.offset_serplusand_standard(&mut ledger);
    assert_eq!(treasury.standard_pool(), 40);
    assert_eq!(treasury.serpluspool(&ledger), 0);
}

#[test]
fn offset_with_excess_surplus_clears_the_debt() {
    let (mut ledger, _auctions, mut treasury) = build();
    assert!(treasury.on_system_standard(30).is_ok());
    ledger.deposit(setusd(), TREASURY, 60).unwrap();

    treasury.offset_serplusand_standard(&mut ledger);
    assert_eq!(treasury.standard_pool(), 0);
    assert_eq!(treasury.serpluspool(&ledger), 30);

    // With the debt at zero, a second run changes nothing either.
    treasury.offset_serplusand_standard(&mut ledger);
    assert_eq!(treasury.standard_pool(), 0);
    assert_eq!(treasury.serpluspool(&ledger), 30);
}

#[test]
fn standard_pool_guards_its_range() {
    let (_ledger, _auctions, mut treasury) = build();
    assert!(treasury.on_system_standard(u128::MAX).is_ok());
    assert_eq!(
        treasury.on_system_standard(1),
        Err(Error::StandardPoolOverflow)
    );
    assert_eq!(treasury.standard_pool(), u128::MAX);
}

#[test]
fn system_surplus_is_minted_to_the_treasury() {
    let (mut ledger, _auctions, treasury) = build();
    assert!(treasury.on_system_serplus(&mut ledger, 25).is_ok());
    assert_eq!(treasury.serpluspool(&ledger), 25);
    assert_eq!(ledger.total_issuance(setusd()), 25);
}

#[test]
fn auction_lots_partition_the_amount() {
    let (mut ledger, mut auctions, mut treasury) = build();
    treasury.set_expected_setter_auction_size(renbtc(), 10);
    assert_eq!(
        treasury.last_event(),
        Some(TreasuryEvent::ExpectedSetterAuctionSizeUpdated(renbtc(), 10))
    );
    ledger.deposit(renbtc(), TREASURY, 25).unwrap();

    assert!(treasury
        .create_setter_auctions(&ledger, &mut auctions, renbtc(), 25, 25, RECEIVER, true)
        .is_ok());

    // ceil(25 / 10) = 3 lots; each but the last carries floor(25 / 3) = 8,
    // the last absorbs the remainder, so the lots partition 25 exactly.
    assert_eq!(auctions.setter_lots.len(), 3);
    assert_eq!(auctions.setter_lots[0].amount, 8);
    assert_eq!(auctions.setter_lots[1].amount, 8);
    assert_eq!(auctions.setter_lots[2].amount, 9);
    assert_eq!(auctions.setter_lots[0].target, 8);
    assert_eq!(auctions.setter_lots[1].target, 8);
    assert_eq!(auctions.setter_lots[2].target, 9);
    assert_eq!(auctions.setter_lots[0].refund_receiver, RECEIVER);
    assert_eq!(auctions.total_reserve_in_auction(renbtc()), 25);
}

#[test]
fn auction_lots_stay_whole_without_splitting() {
    let (mut ledger, mut auctions, mut treasury) = build();
    treasury.set_expected_setter_auction_size(renbtc(), 10);
    ledger.deposit(renbtc(), TREASURY, 25).unwrap();

    assert!(treasury
        .create_setter_auctions(&ledger, &mut auctions, renbtc(), 25, 40, RECEIVER, false)
        .is_ok());
    assert_eq!(auctions.setter_lots.len(), 1);
    assert_eq!(auctions.setter_lots[0].amount, 25);
    assert_eq!(auctions.setter_lots[0].target, 40);
}

#[test]
fn auction_lots_need_free_reserve() {
    let (ledger, mut auctions, treasury) = build();
    assert_eq!(
        treasury.create_setter_auctions(&ledger, &mut auctions, renbtc(), 25, 25, RECEIVER, true),
        Err(Error::ReserveNotEnough)
    );
    assert_eq!(auctions.setter_lots.len(), 0);
}

#[test]
fn auction_reserve_uses_the_treasury_account() {
    let (mut ledger, mut auctions, mut treasury) = build();
    treasury.set_expected_setter_auction_size(renbtc(), 40);
    ledger.deposit(renbtc(), TREASURY, 30).unwrap();
    assert!(treasury
        .auction_reserve(&ledger, &mut auctions, renbtc(), 30, 30, true)
        .is_ok());
    // The amount fits one expected lot, so a single lot was created.
    assert_eq!(auctions.setter_lots.len(), 1);
    assert_eq!(auctions.setter_lots[0].refund_receiver, TREASURY);
}

#[test]
fn surplus_auctions_are_guarded_by_the_pool() {
    let (mut ledger, mut auctions, treasury) = build();
    assert_eq!(
        treasury.auction_serplus(&ledger, &mut auctions, 10),
        Err(Error::SerplusPoolNotEnough)
    );
    ledger.deposit(setusd(), TREASURY, 10).unwrap();
    assert!(treasury.auction_serplus(&ledger, &mut auctions, 10).is_ok());
    assert_eq!(auctions.total_serplus_in_auction(), 10);
    // Everything is already in auction now.
    assert_eq!(
        treasury.auction_serplus(&ledger, &mut auctions, 1),
        Err(Error::SerplusPoolNotEnough)
    );
}

#[test]
fn standard_auctions_are_guarded_by_the_pool() {
    let (_ledger, mut auctions, mut treasury) = build();
    assert_eq!(
        treasury.auction_standard(&mut auctions, 10, 5),
        Err(Error::StandardPoolNotEnough)
    );
    assert!(treasury.on_system_standard(10).is_ok());
    assert!(treasury.auction_standard(&mut auctions, 10, 5).is_ok());
    assert_eq!(auctions.total_standard_in_auction(), 10);
    assert_eq!(
        treasury.auction_standard(&mut auctions, 1, 5),
        Err(Error::StandardPoolNotEnough)
    );
}

#[test]
fn treasury_swaps_check_the_reserves() {
    let (mut ledger, auctions, treasury) = build();
    let rates = vec![DexRate {
        supply_currency: renbtc(),
        target_currency: setusd(),
        num: 1,
        den: 1,
    }];
    let dex = Dex::new(VENUE, rates);

    assert_eq!(
        treasury.swap_exact_reserve_in_auction_to_stable(
            &mut ledger,
            &auctions,
            &dex,
            renbtc(),
            10,
            10,
            None
        ),
        Err(Error::ReserveNotEnough)
    );

    // With free reserve, swapping against an exact stable target works.
    ledger.deposit(renbtc(), TREASURY, 20).unwrap();
    ledger.deposit(setusd(), VENUE, 20).unwrap();
    let spent = treasury
        .swap_reserve_not_in_auction_with_exact_stable(
            &mut ledger,
            &auctions,
            &dex,
            renbtc(),
            15,
            20,
            None,
        )
        .unwrap();
    assert_eq!(spent, 15);
    assert_eq!(ledger.free_balance(setusd(), TREASURY), 15);
    assert_eq!(ledger.free_balance(renbtc(), TREASURY), 5);
}

#[test]
fn standard_proportion_is_a_scaled_share() {
    let (mut ledger, _auctions, treasury) = build();
    // An empty supply yields the default zero ratio.
    assert_eq!(treasury.get_standard_proportion(&ledger, 50), 0);
    ledger.deposit(setusd(), 99, 100).unwrap();
    assert_eq!(
        treasury.get_standard_proportion(&ledger, 50),
        500_000_000_000_000_000
    );
}
