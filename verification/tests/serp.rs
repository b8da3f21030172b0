//! The elasticity engine: supply-change arithmetic, expansion routing,
//! contraction and the cadence trigger.

use serp_treasury::currency::{CurrencyId, TokenSymbol};
use serp_treasury::dex::{Dex, DexRate};
use serp_treasury::ledger::Ledger;
use serp_treasury::oracle::PriceFeed;
use serp_treasury::serp::{convert, get_supply_change, SerpEvent, SerpTes};
use serp_treasury::Error;

const ENGINE: u128 = 10;
const SETTPAY: u128 = 11;
const CHARITY: u128 = 12;
const VENUE: u128 = 20;

fn dnar() -> CurrencyId {
    CurrencyId::Token(TokenSymbol::DNAR)
}

fn setr() -> CurrencyId {
    CurrencyId::Token(TokenSymbol::SETR)
}

fn setusd() -> CurrencyId {
    CurrencyId::Token(TokenSymbol::SETUSD)
}

fn build() -> (Ledger, Dex, PriceFeed, SerpTes) {
    let ledger = Ledger::new();
    let rates = vec![
        DexRate {
            supply_currency: setusd(),
            target_currency: dnar(),
            num: 1,
            den: 1,
        },
        DexRate {
            supply_currency: setr(),
            target_currency: setusd(),
            num: 1,
            den: 1,
        },
        DexRate {
            supply_currency: dnar(),
            target_currency: setr(),
            num: 1,
            den: 1,
        },
    ];
    let dex = Dex::new(VENUE, rates);
    let oracle = PriceFeed::new();
    let engine = SerpTes::new(
        vec![setr(), setusd()],
        dnar(),
        setr(),
        setusd(),
        CurrencyId::Token(TokenSymbol::DRAM),
        SETTPAY,
        CHARITY,
        ENGINE,
        2,
        1_000_000_000_000_000_000,
    );
    (ledger, dex, oracle, engine)
}

#[test]
fn supply_change_truncates_the_ratio() {
    // A ratio just above par truncates to one, so no change follows.
    assert_eq!(get_supply_change(110, 100, 1_000_000), 0);
    // A ratio of three yields twice the supply.
    assert_eq!(get_supply_change(300, 100, 1_000), 2_000);
    // The product saturates at the balance range.
    assert_eq!(get_supply_change(u128::MAX, 1, u128::MAX), u128::MAX);
}

#[test]
fn price_conversion_is_the_identity() {
    assert_eq!(convert(42), 42);
}

#[test]
fn serpup_routes_fixed_shares() {
    let (mut ledger, dex, mut oracle, mut engine) = build();
    oracle.set_market_price(setusd(), 1);
    oracle.set_market_price(dnar(), 1);
    ledger.deposit(dnar(), VENUE, 1_000).unwrap();

    assert!(engine
        .on_serpup(&mut ledger, &dex, &oracle, setusd(), 1000)
        .is_ok());

    // 60% to the reward pool, 10% to charity, 30% through the buy-back.
    assert_eq!(ledger.free_balance(setusd(), SETTPAY), 600);
    assert_eq!(ledger.free_balance(setusd(), CHARITY), 100);
    assert_eq!(ledger.free_balance(setusd(), VENUE), 300);
    // The native proceeds of the buy-back were burned.
    assert_eq!(ledger.free_balance(dnar(), VENUE), 700);
    assert_eq!(ledger.total_issuance(dnar()), 700);
    assert_eq!(ledger.free_balance(dnar(), ENGINE), 0);
    // The minted stable supply equals the three shares.
    assert_eq!(ledger.total_issuance(setusd()), 1000);
    assert_eq!(
        engine.last_event(),
        Some(SerpEvent::SerpUp(1000, setusd()))
    );
}

#[test]
fn serpup_validates_its_inputs() {
    let (mut ledger, dex, mut oracle, mut engine) = build();
    oracle.set_market_price(setusd(), 1);
    oracle.set_market_price(dnar(), 1);
    ledger.deposit(dnar(), VENUE, 1_000).unwrap();

    // an unrecognised currency
    assert_eq!(
        engine.on_serpup(&mut ledger, &dex, &oracle, dnar(), 1000),
        Err(Error::InvalidCurrencyType)
    );
    // a zero amount
    assert_eq!(
        engine.on_serpup(&mut ledger, &dex, &oracle, setusd(), 0),
        Err(Error::InvalidAmount)
    );
    // a missing relative price feed
    let (mut ledger2, dex2, oracle2, mut engine2) = build();
    ledger2.deposit(dnar(), VENUE, 1_000).unwrap();
    assert_eq!(
        engine2.on_serpup(&mut ledger2, &dex2, &oracle2, setusd(), 1000),
        Err(Error::InvalidFeedPrice)
    );
}

#[test]
fn serpdown_acquires_the_currency() {
    let (mut ledger, dex, _oracle, mut engine) = build();
    ledger.deposit(setusd(), VENUE, 500).unwrap();
    ledger.deposit(setusd(), 99, 400).unwrap();

    assert!(engine
        .on_serpdown(&mut ledger, &dex, setusd(), 200)
        .is_ok());
    // The amount was acquired against freshly minted settlement currency
    // and is held by the engine.
    assert_eq!(ledger.free_balance(setusd(), ENGINE), 200);
    assert_eq!(ledger.free_balance(setusd(), VENUE), 300);
    assert_eq!(ledger.free_balance(setr(), VENUE), 200);
    assert_eq!(
        engine.last_event(),
        Some(SerpEvent::SerpDown(200, setusd()))
    );
}

#[test]
fn serpdown_respects_the_supply_floor() {
    let (mut ledger, dex, _oracle, mut engine) = build();
    ledger.deposit(setusd(), 99, 400).unwrap();
    engine.set_minimum_supply(setusd(), 300);

    assert_eq!(
        engine.on_serpdown(&mut ledger, &dex, setusd(), 200),
        Err(Error::MinSupplyReached)
    );
    // Right at the floor the contraction is allowed.
    ledger.deposit(setusd(), VENUE, 500).unwrap();
    assert!(engine
        .on_serpdown(&mut ledger, &dex, setusd(), 200)
        .is_ok());
}

#[test]
fn elasticity_pass_expands_over_the_peg() {
    let (mut ledger, dex, mut oracle, mut engine) = build();
    oracle.set_market_price(setusd(), 3);
    oracle.set_peg_price(setusd(), 1);
    oracle.set_market_price(dnar(), 1);
    ledger.deposit(setusd(), 99, 10).unwrap();
    ledger.deposit(dnar(), VENUE, 1_000).unwrap();

    // supply change = (3 / 1 - 1) * 10 = 20
    assert!(engine
        .serp_tes(&mut ledger, &dex, &oracle, setusd())
        .is_ok());
    assert_eq!(ledger.free_balance(setusd(), SETTPAY), 12);
    assert_eq!(ledger.free_balance(setusd(), CHARITY), 2);
    assert_eq!(ledger.free_balance(setusd(), VENUE), 6);
    assert_eq!(engine.last_event(), Some(SerpEvent::SerpTes(setusd())));
}

#[test]
fn elasticity_pass_contracts_under_the_peg() {
    let (mut ledger, dex, mut oracle, mut engine) = build();
    oracle.set_market_price(setusd(), 1);
    oracle.set_peg_price(setusd(), 2);
    ledger.deposit(setusd(), VENUE, 110).unwrap();

    // supply change = (2 / 1 - 1) * 110 = 110
    assert!(engine
        .serp_tes(&mut ledger, &dex, &oracle, setusd())
        .is_ok());
    assert_eq!(ledger.free_balance(setusd(), ENGINE), 110);
    assert_eq!(ledger.free_balance(setusd(), VENUE), 0);
    assert_eq!(ledger.free_balance(setr(), VENUE), 110);
    assert_eq!(engine.last_event(), Some(SerpEvent::SerpTes(setusd())));
}

#[test]
fn elasticity_pass_rests_at_the_peg() {
    let (mut ledger, dex, mut oracle, mut engine) = build();
    oracle.set_market_price(setusd(), 5);
    oracle.set_peg_price(setusd(), 5);
    ledger.deposit(setusd(), 99, 10).unwrap();

    assert!(engine
        .serp_tes(&mut ledger, &dex, &oracle, setusd())
        .is_ok());
    // No balance moved; only the pass event was recorded.
    assert_eq!(ledger.free_balance(setusd(), 99), 10);
    assert_eq!(ledger.total_issuance(setusd()), 10);
    assert_eq!(engine.last_event(), Some(SerpEvent::SerpTes(setusd())));
}

#[test]
fn elasticity_pass_skips_missing_or_degenerate_feeds() {
    let (mut ledger, dex, mut oracle, mut engine) = build();
    // no feed at all
    assert_eq!(
        engine.serp_tes(&mut ledger, &dex, &oracle, setusd()),
        Err(Error::InvalidFeedPrice)
    );
    // a zero price counts as no usable feed
    oracle.set_market_price(setusd(), 0);
    oracle.set_peg_price(setusd(), 1);
    assert_eq!(
        engine.serp_tes(&mut ledger, &dex, &oracle, setusd()),
        Err(Error::InvalidFeedPrice)
    );
}

#[test]
fn small_deviations_truncate_to_no_expansion() {
    let (mut ledger, dex, mut oracle, mut engine) = build();
    oracle.set_market_price(setusd(), 110);
    oracle.set_peg_price(setusd(), 100);
    oracle.set_market_price(dnar(), 1);
    ledger.deposit(setusd(), 99, 1_000_000).unwrap();

    // The truncated ratio yields a zero change, which the expansion
    // rejects as an invalid amount; nothing moves.
    assert_eq!(
        engine.serp_tes(&mut ledger, &dex, &oracle, setusd()),
        Err(Error::InvalidAmount)
    );
    assert_eq!(ledger.total_issuance(setusd()), 1_000_000);
}

#[test]
fn cadence_gates_the_passes() {
    let (mut ledger, dex, mut oracle, mut engine) = build();
    oracle.set_market_price(setr(), 1);
    oracle.set_peg_price(setr(), 1);
    oracle.set_market_price(setusd(), 1);
    oracle.set_peg_price(setusd(), 1);
    ledger.deposit(setusd(), 99, 10).unwrap();

    // off cadence: nothing runs
    assert_eq!(engine.on_initialize(&mut ledger, &dex, &oracle, 1), 0);
    assert_eq!(engine.last_event(), None);
    // on cadence: both passes run (both currencies sit at their peg here)
    assert_eq!(engine.on_initialize(&mut ledger, &dex, &oracle, 4), 2);
    assert_eq!(engine.last_event(), Some(SerpEvent::SerpTes(setusd())));
}

#[test]
fn custom_swap_paths_are_validated() {
    let (mut ledger, dex, _oracle, engine) = build();
    let bad_path = vec![setusd(), setr()];
    assert_eq!(
        engine.swap_exact_dinar_to_setter(&mut ledger, &dex, 10, Some(&bad_path)),
        Err(Error::InvalidSwapPath)
    );
    // A one-hop path is no path at all.
    let short_path = vec![setusd()];
    assert_eq!(
        engine.swap_exact_stablecurrency_to_dinar(
            &mut ledger,
            &dex,
            setusd(),
            10,
            Some(&short_path)
        ),
        Err(Error::InvalidSwapPath)
    );
}

#[test]
fn swap_without_a_rate_cannot_fill() {
    let (mut ledger, _dex, _oracle, engine) = build();
    let empty_dex = Dex::new(VENUE, vec![]);
    assert_eq!(
        engine.swap_exact_dinar_to_setter(&mut ledger, &empty_dex, 10, None),
        Err(Error::CannotSwap)
    );
}

#[test]
fn swap_helpers_move_the_quoted_amounts() {
    let (mut ledger, dex, _oracle, engine) = build();
    ledger.deposit(setr(), VENUE, 50).unwrap();
    // supplying 20 native buys 20 settlement at the unit rate
    let got = engine
        .swap_exact_dinar_to_setter(&mut ledger, &dex, 20, None)
        .unwrap();
    assert_eq!(got, 20);
    assert_eq!(ledger.free_balance(setr(), ENGINE), 20);
    assert_eq!(ledger.free_balance(dnar(), VENUE), 20);

    // acquiring exactly 10 settlement spends the quoted 10 native
    let spent = engine
        .swap_dinar_to_exact_setter(&mut ledger, &dex, 10, None)
        .unwrap();
    assert_eq!(spent, 10);
    assert_eq!(ledger.free_balance(setr(), ENGINE), 30);
}
