//! The price oracle, modelled as explicit injected state: one feed of
//! market prices and one of peg prices. A price of zero counts as no
//! usable feed, since the elasticity engine divides by prices.

use vstd::prelude::*;

use crate::lookup::{
    first_match, lemma_first_match_found, lemma_first_match_prepend, lemma_first_match_skip,
};
use crate::currency::CurrencyId;
use crate::{Price, SCALE};

verus! {

/// One currency's quoted price.
#[derive(Clone, Copy, Debug, PartialEq, Eq, Structural)]
pub struct PriceEntry {
    pub currency: CurrencyId,
    pub price: Price,
}

/// Whether a price entry quotes the given currency.
pub open spec fn price_key(c: CurrencyId) -> spec_fn(PriceEntry) -> bool {
    |e: PriceEntry| e.currency == c
}

/// The injected price source: market and peg feeds.
pub struct PriceFeed {
    pub market: Vec<PriceEntry>,
    pub peg: Vec<PriceEntry>,
}

/// The price the feed quotes for a currency, if any.
pub open spec fn spec_price_in(s: Seq<PriceEntry>, c: CurrencyId) -> Option<Price> {
    match first_match(s, price_key(c)) {
        Some(e) => Some(e.price),
        None => None,
    }
}

fn get_in(s: &Vec<PriceEntry>, c: CurrencyId) -> (r: Option<Price>)
    ensures
        r == spec_price_in(s@, c),
{
    let n = s.len();
    let mut i: usize = 0;
    proof {
        assert(s@.subrange(0, n as int) =~= s@);
    }
    while i < n
        invariant
            i <= n,
            n == s@.len(),
            first_match(s@, price_key(c)) == first_match(
                s@.subrange(i as int, n as int),
                price_key(c),
            ),
        decreases n - i,
    {
        if s[i].currency == c {
            proof {
                lemma_first_match_found(s@, price_key(c), i as int);
            }
            return Some(s[i].price);
        }
        proof {
            lemma_first_match_skip(s@, price_key(c), i as int);
        }
        i = i + 1;
    }
    proof {
        assert(s@.subrange(n as int, n as int).len() == 0);
    }
    None
}

impl PriceFeed {
    /// The market price quoted for a currency.
    pub open spec fn spec_market_price(self, c: CurrencyId) -> Option<Price> {
        spec_price_in(self.market@, c)
    }

    /// The peg price quoted for a currency.
    pub open spec fn spec_peg_price(self, c: CurrencyId) -> Option<Price> {
        spec_price_in(self.peg@, c)
    }

    /// The relative price of `a` in terms of `b`, scaled by `SCALE`, when
    /// both market feeds exist and the computation stays in range.
    pub open spec fn spec_relative_price(self, a: CurrencyId, b: CurrencyId) -> Option<Price> {
        match (self.spec_market_price(a), self.spec_market_price(b)) {
            (Some(pa), Some(pb)) => if pb > 0 && pa * SCALE <= Price::MAX {
                Some(((pa * SCALE) / pb as int) as Price)
            } else {
                None
            },
            _ => None,
        }
    }

    /// A feed with no prices quoted.
    pub fn new() -> (r: PriceFeed)
        ensures
            forall|c: CurrencyId| #[trigger] r.spec_market_price(c) is None,
            forall|c: CurrencyId| #[trigger] r.spec_peg_price(c) is None,
    {
        PriceFeed { market: Vec::new(), peg: Vec::new() }
    }

    /// Quote a market price, shadowing any earlier quote of the currency.
    pub fn set_market_price(&mut self, c: CurrencyId, price: Price)
        ensures
            forall|c2: CurrencyId|
                #[trigger] final(self).spec_market_price(c2) == if c2 == c {
                    Some(price)
                } else {
                    old(self).spec_market_price(c2)
                },
            final(self).peg@ == old(self).peg@,
    {
        let e = PriceEntry { currency: c, price };
        self.market.insert(0, e);
        proof {
            assert forall|c2: CurrencyId|
                #[trigger] self.spec_market_price(c2) == if c2 == c {
                    Some(price)
                } else {
                    old(self).spec_market_price(c2)
                } by {
                lemma_first_match_prepend(old(self).market@, price_key(c2), e);
            }
        }
    }

    /// Quote a peg price, shadowing any earlier quote of the currency.
    pub fn set_peg_price(&mut self, c: CurrencyId, price: Price)
        ensures
            forall|c2: CurrencyId|
                #[trigger] final(self).spec_peg_price(c2) == if c2 == c {
                    Some(price)
                } else {
                    old(self).spec_peg_price(c2)
                },
            final(self).market@ == old(self).market@,
    {
        let e = PriceEntry { currency: c, price };
        self.peg.insert(0, e);
        proof {
            assert forall|c2: CurrencyId|
                #[trigger] self.spec_peg_price(c2) == if c2 == c {
                    Some(price)
                } else {
                    old(self).spec_peg_price(c2)
                } by {
                lemma_first_match_prepend(old(self).peg@, price_key(c2), e);
            }
        }
    }

    /// The market price of a currency.
    pub fn get_market_price(&self, c: CurrencyId) -> (r: Option<Price>)
        ensures
            r == self.spec_market_price(c),
    {
        get_in(&self.market, c)
    }

    /// The peg price of a currency.
    pub fn get_peg_price(&self, c: CurrencyId) -> (r: Option<Price>)
        ensures
            r == self.spec_peg_price(c),
    {
        get_in(&self.peg, c)
    }

    /// The relative market price of `a` in terms of `b`.
    pub fn get_relative_price(&self, a: CurrencyId, b: CurrencyId) -> (r: Option<Price>)
        ensures
            r == self.spec_relative_price(a, b),
    {
        let pa = match self.get_market_price(a) {
            Some(p) => p,
            None => {
                return None;
            },
        };
        let pb = match self.get_market_price(b) {
            Some(p) => p,
            None => {
                return None;
            },
        };
        if pb == 0 {
            return None;
        }
        match pa.checked_mul(SCALE) {
            Some(scaled) => Some(scaled / pb),
            None => None,
        }
    }
}

} // verus!
