//! The balance ledger's conservation rules and the currency identifiers.

use serp_treasury::currency::{CurrencyId, DexShare, EvmAddress, TokenSymbol};
use serp_treasury::ledger::Ledger;
use serp_treasury::Error;

const ALICE: u128 = 1;
const BOB: u128 = 2;

fn dnar() -> CurrencyId {
    CurrencyId::Token(TokenSymbol::DNAR)
}

fn setusd() -> CurrencyId {
    CurrencyId::Token(TokenSymbol::SETUSD)
}

#[test]
fn deposits_and_withdrawals_move_issuance() {
    let mut ledger = Ledger::new();
    assert!(ledger.deposit(dnar(), ALICE, 100).is_ok());
    assert_eq!(ledger.free_balance(dnar(), ALICE), 100);
    assert_eq!(ledger.total_issuance(dnar()), 100);

    assert!(ledger.withdraw(dnar(), ALICE, 40).is_ok());
    assert_eq!(ledger.free_balance(dnar(), ALICE), 60);
    assert_eq!(ledger.total_issuance(dnar()), 60);

    assert_eq!(
        ledger.withdraw(dnar(), ALICE, 61),
        Err(Error::InsufficientBalance)
    );
    assert_eq!(ledger.free_balance(dnar(), ALICE), 60);
}

#[test]
fn transfers_conserve_issuance() {
    let mut ledger = Ledger::new();
    assert!(ledger.deposit(dnar(), ALICE, 100).is_ok());
    assert!(ledger.transfer(dnar(), ALICE, BOB, 30).is_ok());
    assert_eq!(ledger.free_balance(dnar(), ALICE), 70);
    assert_eq!(ledger.free_balance(dnar(), BOB), 30);
    assert_eq!(ledger.total_issuance(dnar()), 100);

    assert_eq!(
        ledger.transfer(dnar(), ALICE, BOB, 71),
        Err(Error::InsufficientBalance)
    );
    assert_eq!(ledger.free_balance(dnar(), ALICE), 70);
}

#[test]
fn deposit_overflow_is_detected() {
    let mut ledger = Ledger::new();
    assert!(ledger.deposit(dnar(), ALICE, u128::MAX).is_ok());
    assert_eq!(ledger.deposit(dnar(), BOB, 1), Err(Error::Overflow));
    assert_eq!(ledger.free_balance(dnar(), BOB), 0);
}

#[test]
fn account_liveness_follows_positive_balances() {
    let mut ledger = Ledger::new();
    assert!(!ledger.account_exists(ALICE));
    assert!(ledger.deposit(setusd(), ALICE, 5).is_ok());
    assert!(ledger.account_exists(ALICE));
    assert!(ledger.withdraw(setusd(), ALICE, 5).is_ok());
    assert!(!ledger.account_exists(ALICE));
}

#[test]
fn currency_kind_predicates_work() {
    let token = CurrencyId::Token(TokenSymbol::DNAR);
    let contract = CurrencyId::Erc20(EvmAddress { raw: 7 });
    let pair = CurrencyId::DexShare(
        DexShare::Token(TokenSymbol::SETUSD),
        DexShare::Token(TokenSymbol::DNAR),
    );
    assert!(token.is_token_currency_id());
    assert!(!token.is_dex_share_currency_id());
    assert!(!token.is_erc20_currency_id());
    assert!(contract.is_erc20_currency_id());
    assert!(pair.is_dex_share_currency_id());
}

#[test]
fn dex_share_identifiers_split_and_join() {
    let usd = CurrencyId::Token(TokenSymbol::SETUSD);
    let native = CurrencyId::Token(TokenSymbol::DNAR);
    let contract = CurrencyId::Erc20(EvmAddress { raw: 9 });
    let pair = CurrencyId::DexShare(
        DexShare::Token(TokenSymbol::SETUSD),
        DexShare::Token(TokenSymbol::DNAR),
    );

    // joining then splitting round-trips the underlying currencies
    let joined = CurrencyId::join_dex_share_currency_id(usd, native).unwrap();
    assert_eq!(joined, pair);
    assert_eq!(joined.split_dex_share_currency_id(), Some((usd, native)));

    // a contract side is allowed, a nested pair is not
    assert!(CurrencyId::join_dex_share_currency_id(usd, contract).is_some());
    assert_eq!(CurrencyId::join_dex_share_currency_id(pair, usd), None);
    assert_eq!(usd.split_dex_share_currency_id(), None);
}
