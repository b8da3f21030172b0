//! The deterministic collaborator stand-ins.

use serp_treasury::currency::{CurrencyId, TokenSymbol};
use serp_treasury::test_support::{
    mock_shutdown, MockAuctionManager, MockDataProvider, MockDex, MockEmergencyShutdown,
    MockPriceSource,
};
use serp_treasury::SCALE;

fn setusd() -> CurrencyId {
    CurrencyId::Token(TokenSymbol::SETUSD)
}

fn renbtc() -> CurrencyId {
    CurrencyId::Token(TokenSymbol::RENBTC)
}

fn dnar() -> CurrencyId {
    CurrencyId::Token(TokenSymbol::DNAR)
}

#[test]
fn set_relative_price_drives_the_pair() {
    let mut source = MockPriceSource::new(setusd(), renbtc());
    assert_eq!(source.get_relative_price(setusd(), renbtc()), Some(SCALE));
    assert_eq!(source.get_relative_price(renbtc(), setusd()), Some(SCALE));
    assert_eq!(source.get_relative_price(setusd(), dnar()), None);

    source.set_relative_price(Some(3));
    assert_eq!(source.get_relative_price(setusd(), renbtc()), Some(3));
    source.set_relative_price(None);
    assert_eq!(source.get_relative_price(setusd(), renbtc()), None);
    // other pairs and the unit quote are untouched
    assert_eq!(source.get_price(dnar()), Some(SCALE));
}

#[test]
fn mock_shutdown_sets_the_latch() {
    let mut state = MockEmergencyShutdown::new();
    assert!(!state.is_shutdown());
    mock_shutdown(&mut state);
    assert!(state.is_shutdown());
}

#[test]
fn mock_auctions_accept_everything() {
    assert!(MockAuctionManager::new_collateral_auction(&1, renbtc(), 10, 10).is_ok());
    assert!(MockAuctionManager::cancel_auction(3).is_ok());
    assert_eq!(MockAuctionManager::get_total_target_in_auction(), 0);
    assert_eq!(MockAuctionManager::get_total_collateral_in_auction(renbtc()), 0);
}

#[test]
fn mock_data_provider_quotes_three_currencies() {
    assert_eq!(
        MockDataProvider::get(&setusd()),
        Some(99 * SCALE / 100)
    );
    assert_eq!(
        MockDataProvider::get(&CurrencyId::Token(TokenSymbol::SETCHF)),
        Some(50_000 * SCALE)
    );
    assert_eq!(MockDataProvider::get(&dnar()), Some(100 * SCALE));
    assert_eq!(MockDataProvider::get(&renbtc()), None);
    assert!(MockDataProvider::feed_value(1, setusd(), 5).is_ok());
}

#[test]
fn mock_dex_has_one_pool() {
    assert_eq!(MockDex::get_liquidity_pool(setusd(), dnar()), (10000, 200));
    assert_eq!(MockDex::get_liquidity_pool(dnar(), setusd()), (0, 0));
}
