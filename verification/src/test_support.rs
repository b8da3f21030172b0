//! Deterministic stand-ins for the external collaborators — a fixed-pair
//! price source, a fixed liquidity view, an always-accepting auction
//! manager and an emergency-shutdown latch — so that the system can be
//! driven with swappable, fully predictable collaborators.

use vstd::prelude::*;

use crate::currency::{CurrencyId, TokenSymbol};
use crate::{AccountId, Balance, Error, Price, SCALE};

verus! {

/// A price source that quotes one configurable pair, in either order, and
/// a unit price for everything else.
pub struct MockPriceSource {
    pub pair_a: CurrencyId,
    pub pair_b: CurrencyId,
    pub relative_price: Option<Price>,
}

impl MockPriceSource {
    /// A source quoting the given pair at the unit price.
    pub fn new(pair_a: CurrencyId, pair_b: CurrencyId) -> (r: MockPriceSource)
        ensures
            r.pair_a == pair_a,
            r.pair_b == pair_b,
            r.relative_price == Some(SCALE),
    {
        MockPriceSource { pair_a, pair_b, relative_price: Some(SCALE) }
    }

    /// Replace the quoted relative price of the configured pair.
    pub fn set_relative_price(&mut self, price: Option<Price>)
        ensures
            final(self).pair_a == old(self).pair_a,
            final(self).pair_b == old(self).pair_b,
            final(self).relative_price == price,
    {
        self.relative_price = price;
    }

    /// The relative price of the configured pair, in either order.
    pub fn get_relative_price(&self, base: CurrencyId, quote: CurrencyId) -> (r: Option<Price>)
        ensures
            r == if (base == self.pair_a && quote == self.pair_b) || (base == self.pair_b && quote
                == self.pair_a) {
                self.relative_price
            } else {
                None::<Price>
            },
    {
        if (base == self.pair_a && quote == self.pair_b) || (base == self.pair_b && quote
            == self.pair_a) {
            self.relative_price
        } else {
            None
        }
    }

    /// Every currency is quoted at the unit price.
    pub fn get_price(&self, currency_id: CurrencyId) -> (r: Option<Price>)
        ensures
            r == Some(SCALE),
    {
        let _ = currency_id;
        Some(SCALE)
    }
}

/// An auction manager that accepts every lot and reports nothing in
/// auction.
pub struct MockAuctionManager {}

impl MockAuctionManager {
    /// Accept a collateral auction without recording it.
    pub fn new_collateral_auction(
        refund_recipient: &AccountId,
        currency_id: CurrencyId,
        amount: Balance,
        target: Balance,
    ) -> (r: Result<(), Error>)
        ensures
            r is Ok,
    {
        let _ = refund_recipient;
        let _ = currency_id;
        let _ = amount;
        let _ = target;
        Ok(())
    }

    /// Accept a cancellation without recording it.
    pub fn cancel_auction(id: u32) -> (r: Result<(), Error>)
        ensures
            r is Ok,
    {
        let _ = id;
        Ok(())
    }

    /// Nothing is ever in auction.
    pub fn get_total_target_in_auction() -> (r: Balance)
        ensures
            r == 0,
    {
        0
    }

    /// Nothing is ever in auction.
    pub fn get_total_collateral_in_auction(id: CurrencyId) -> (r: Balance)
        ensures
            r == 0,
    {
        let _ = id;
        0
    }
}

/// An emergency-shutdown latch: once set, it stays set.
pub struct MockEmergencyShutdown {
    pub shutdown: bool,
}

impl MockEmergencyShutdown {
    /// A latch that starts open.
    pub fn new() -> (r: MockEmergencyShutdown)
        ensures
            !r.shutdown,
    {
        MockEmergencyShutdown { shutdown: false }
    }

    /// Whether the latch has been set.
    pub fn is_shutdown(&self) -> (r: bool)
        ensures
            r == self.shutdown,
    {
        self.shutdown
    }
}

/// Set the emergency-shutdown latch.
pub fn mock_shutdown(state: &mut MockEmergencyShutdown)
    ensures
        final(state).shutdown,
{
    state.shutdown = true;
}

/// A data feed quoting a fixed price for three currencies and nothing for
/// the rest.
pub struct MockDataProvider {}

impl MockDataProvider {
    /// The fixed quotes: just under par for the dollar currency, a large
    /// integer price for the franc currency and the native token.
    pub fn get(currency_id: &CurrencyId) -> (r: Option<Price>)
        ensures
            r == if *currency_id == CurrencyId::Token(TokenSymbol::SETUSD) {
                Some((99 * SCALE / 100) as Price)
            } else if *currency_id == CurrencyId::Token(TokenSymbol::SETCHF) {
                Some((50_000 * SCALE) as Price)
            } else if *currency_id == CurrencyId::Token(TokenSymbol::DNAR) {
                Some((100 * SCALE) as Price)
            } else {
                None::<Price>
            },
    {
        if *currency_id == CurrencyId::Token(TokenSymbol::SETUSD) {
            Some(99 * SCALE / 100)
        } else if *currency_id == CurrencyId::Token(TokenSymbol::SETCHF) {
            Some(50_000 * SCALE)
        } else if *currency_id == CurrencyId::Token(TokenSymbol::DNAR) {
            Some(100 * SCALE)
        } else {
            None
        }
    }

    /// Accept a fed value without recording it.
    pub fn feed_value(who: AccountId, currency_id: CurrencyId, price: Price) -> (r: Result<
        (),
        Error,
    >)
        ensures
            r is Ok,
    {
        let _ = who;
        let _ = currency_id;
        let _ = price;
        Ok(())
    }
}

/// A liquidity view with one fixed pool.
pub struct MockDex {}

impl MockDex {
    /// The fixed pool: dollar currency against the native token.
    pub fn get_liquidity_pool(currency_id_a: CurrencyId, currency_id_b: CurrencyId) -> (r: (
        Balance,
        Balance,
    ))
        ensures
            r == if currency_id_a == CurrencyId::Token(TokenSymbol::SETUSD) && currency_id_b
                == CurrencyId::Token(TokenSymbol::DNAR) {
                (10000 as Balance, 200 as Balance)
            } else {
                (0 as Balance, 0 as Balance)
            },
    {
        if currency_id_a == CurrencyId::Token(TokenSymbol::SETUSD) && currency_id_b
            == CurrencyId::Token(TokenSymbol::DNAR) {
            (10000, 200)
        } else {
            (0, 0)
        }
    }
}

} // verus!
