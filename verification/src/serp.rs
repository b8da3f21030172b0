//! The supply elasticity engine: it compares each stabilised currency's
//! market price to its peg, computes a supply change from the price ratio,
//! and dispatches expansion (mint and route to the buy-back, reward and
//! charity destinations) or contraction (acquire the currency through the
//! swap venue).

use vstd::prelude::*;

use crate::lookup::{
    first_match, lemma_first_match_found, lemma_first_match_prepend, lemma_first_match_skip,
};
use crate::currency::CurrencyId;
use crate::dex::{spec_quote_supply, spec_quote_target, Dex};
use crate::ledger::Ledger;
use crate::oracle::PriceFeed;
use crate::{AccountId, Balance, Error, Price, Ratio};

verus! {

/// The supply floor configured for one currency.
#[derive(Clone, Copy, Debug, PartialEq, Eq, Structural)]
pub struct MinimumSupplyEntry {
    pub currency: CurrencyId,
    pub amount: Balance,
}

/// Whether a floor entry configures the given currency.
pub open spec fn minimum_supply_key(c: CurrencyId) -> spec_fn(MinimumSupplyEntry) -> bool {
    |e: MinimumSupplyEntry| e.currency == c
}

/// What the elasticity engine announces.
#[derive(Clone, Copy, Debug, PartialEq, Eq, Structural)]
pub enum SerpEvent {
    /// An elasticity pass ran for the currency.
    SerpTes(CurrencyId),
    /// One expansion destination was served: amount and currency.
    SerpUpDelivery(Balance, CurrencyId),
    /// An expansion completed: amount and currency.
    SerpUp(Balance, CurrencyId),
    /// A contraction completed: amount and currency.
    SerpDown(Balance, CurrencyId),
}

/// The supply change a price deviation asks for: the truncated price
/// ratio, less one, times the supply, saturating at the balance range.
/// The truncation is deliberate: a ratio under two yields no change.
pub open spec fn spec_supply_change(nume: int, deno: int, supply: int) -> int {
    let fraction = nume / deno - 1;
    if fraction * supply > Balance::MAX {
        Balance::MAX as int
    } else {
        fraction * supply
    }
}

/// The supply change from a price deviation. The greater price goes first:
/// the result is `(floor(nume / deno) - 1) * supply`, saturating.
pub fn get_supply_change(nume_fraction: Balance, deno_fraction: Balance, supply: Balance) -> (r:
    Balance)
    requires
        deno_fraction >= 1,
        nume_fraction >= deno_fraction,
    ensures
        r as int == spec_supply_change(nume_fraction as int, deno_fraction as int, supply as int),
{
    proof {
        vstd::arithmetic::div_mod::lemma_div_non_zero(nume_fraction as int, deno_fraction as int);
    }
    let fraction = nume_fraction / deno_fraction - 1;
    match fraction.checked_mul(supply) {
        Some(v) => v,
        None => Balance::MAX,
    }
}

/// The identity reading of an oracle price as a balance magnitude.
pub fn convert(p: Price) -> (r: Balance)
    ensures
        r == p,
{
    p
}

/// The elasticity engine's configuration and event log.
pub struct SerpTes {
    pub events: Vec<SerpEvent>,
    /// The recognised stable currencies, in pass order.
    pub stable_currency_ids: Vec<CurrencyId>,
    /// The native reserve token bought back and burned on expansion.
    pub native_currency_id: CurrencyId,
    /// The reserve-pegged settlement currency.
    pub setter_currency_id: CurrencyId,
    /// The dollar-pegged currency, passed on the fixed cadence.
    pub settusd_currency_id: CurrencyId,
    /// The swap-venue token.
    pub dirham_currency_id: CurrencyId,
    /// The reward-pool destination of expansions.
    pub settpay_account: AccountId,
    /// The charity destination of expansions.
    pub charity_fund_account: AccountId,
    /// The engine's own ledger account.
    pub account: AccountId,
    /// Elasticity passes run every this many cycles.
    pub serp_tes_schedule: u64,
    /// The slippage bound handed to the swap venue.
    pub max_slippage: Ratio,
    /// Per-currency supply floors.
    pub minimum_supply: Vec<MinimumSupplyEntry>,
}

impl SerpTes {
    /// Whether the currency is in the recognised stable set.
    pub open spec fn spec_is_stable(self, c: CurrencyId) -> bool {
        self.stable_currency_ids@.contains(c)
    }

    /// The supply floor configured for a currency; zero when none is.
    pub open spec fn spec_minimum_supply_of(self, c: CurrencyId) -> Balance {
        match first_match(self.minimum_supply@, minimum_supply_key(c)) {
            Some(e) => e.amount,
            None => 0,
        }
    }

    /// The engine is usable with the given venue: it does not trade from
    /// the venue's own account, and the native reserve token is not one of
    /// the stable currencies it expands or contracts.
    pub open spec fn spec_config_ok(self, dex: Dex) -> bool {
        &&& self.account != dex.account
        &&& !self.spec_is_stable(self.native_currency_id)
    }

    /// An engine over the given currencies, destinations and cadence, with
    /// an empty event log and no supply floors configured.
    #[allow(clippy::too_many_arguments)]
    pub fn new(
        stable_currency_ids: Vec<CurrencyId>,
        native_currency_id: CurrencyId,
        setter_currency_id: CurrencyId,
        settusd_currency_id: CurrencyId,
        dirham_currency_id: CurrencyId,
        settpay_account: AccountId,
        charity_fund_account: AccountId,
        account: AccountId,
        serp_tes_schedule: u64,
        max_slippage: Ratio,
    ) -> (r: SerpTes)
        ensures
            r.events@.len() == 0,
            r.stable_currency_ids@ == stable_currency_ids@,
            r.native_currency_id == native_currency_id,
            r.setter_currency_id == setter_currency_id,
            r.settusd_currency_id == settusd_currency_id,
            r.dirham_currency_id == dirham_currency_id,
            r.settpay_account == settpay_account,
            r.charity_fund_account == charity_fund_account,
            r.account == account,
            r.serp_tes_schedule == serp_tes_schedule,
            r.max_slippage == max_slippage,
            forall|c: CurrencyId| #[trigger] r.spec_minimum_supply_of(c) == 0,
    {
        SerpTes {
            events: Vec::new(),
            stable_currency_ids,
            native_currency_id,
            setter_currency_id,
            settusd_currency_id,
            dirham_currency_id,
            settpay_account,
            charity_fund_account,
            account,
            serp_tes_schedule,
            max_slippage,
            minimum_supply: Vec::new(),
        }
    }

    /// The engine's own ledger account.
    pub fn account_id(&self) -> (r: AccountId)
        ensures
            r == self.account,
    {
        self.account
    }

    /// Whether the currency is in the recognised stable set.
    pub fn is_stable_currency(&self, c: CurrencyId) -> (r: bool)
        ensures
            r == self.spec_is_stable(c),
    {
        let n = self.stable_currency_ids.len();
        let mut i: usize = 0;
        while i < n
            invariant
                i <= n,
                n == self.stable_currency_ids@.len(),
                forall|k: int| 0 <= k < i ==> self.stable_currency_ids@[k] != c,
            decreases n - i,
        {
            if self.stable_currency_ids[i] == c {
                return true;
            }
            i = i + 1;
        }
        false
    }

    /// The supply floor of a currency.
    pub fn get_minimum_supply(&self, c: CurrencyId) -> (r: Balance)
        ensures
            r == self.spec_minimum_supply_of(c),
    {
        let n = self.minimum_supply.len();
        let mut i: usize = 0;
        proof {
            assert(self.minimum_supply@.subrange(0, n as int) =~= self.minimum_supply@);
        }
        while i < n
            invariant
                i <= n,
                n == self.minimum_supply@.len(),
                first_match(self.minimum_supply@, minimum_supply_key(c)) == first_match(
                    self.minimum_supply@.subrange(i as int, n as int),
                    minimum_supply_key(c),
                ),
            decreases n - i,
        {
            if self.minimum_supply[i].currency == c {
                proof {
                    lemma_first_match_found(self.minimum_supply@, minimum_supply_key(c), i as int);
                }
                return self.minimum_supply[i].amount;
            }
            proof {
                lemma_first_match_skip(self.minimum_supply@, minimum_supply_key(c), i as int);
            }
            i = i + 1;
        }
        proof {
            assert(self.minimum_supply@.subrange(n as int, n as int).len() == 0);
        }
        0
    }

    /// Configure the supply floor of a currency, shadowing earlier values.
    pub fn set_minimum_supply(&mut self, c: CurrencyId, amount: Balance)
        ensures
            final(self).events@ == old(self).events@,
            final(self).stable_currency_ids@ == old(self).stable_currency_ids@,
            final(self).native_currency_id == old(self).native_currency_id,
            final(self).setter_currency_id == old(self).setter_currency_id,
            final(self).settusd_currency_id == old(self).settusd_currency_id,
            final(self).dirham_currency_id == old(self).dirham_currency_id,
            final(self).settpay_account == old(self).settpay_account,
            final(self).charity_fund_account == old(self).charity_fund_account,
            final(self).account == old(self).account,
            final(self).serp_tes_schedule == old(self).serp_tes_schedule,
            final(self).max_slippage == old(self).max_slippage,
            forall|c2: CurrencyId|
                #[trigger] final(self).spec_minimum_supply_of(c2) == if c2 == c {
                    amount
                } else {
                    old(self).spec_minimum_supply_of(c2)
                },
    {
        let e = MinimumSupplyEntry { currency: c, amount };
        self.minimum_supply.insert(0, e);
        proof {
            assert forall|c2: CurrencyId|
                #[trigger] self.spec_minimum_supply_of(c2) == if c2 == c {
                    amount
                } else {
                    old(self).spec_minimum_supply_of(c2)
                } by {
                lemma_first_match_prepend(old(self).minimum_supply@, minimum_supply_key(c2), e);
            }
        }
    }

    /// The most recent event, if any.
    pub fn last_event(&self) -> (r: Option<SerpEvent>)
        ensures
            r == if self.events@.len() == 0 {
                None::<SerpEvent>
            } else {
                Some(self.events@.last())
            },
    {
        let n = self.events.len();
        if n == 0 {
            None
        } else {
            Some(self.events[n - 1])
        }
    }

    /// The error, if any, with which a mint-then-swap of exact supply
    /// declines: an invalid custom path, then the mint overflowing the
    /// supplied currency's issuance, then a missing quote, then the venue
    /// lacking the target funds.
    pub open spec fn spec_mint_swap_supply_error(
        self,
        ledger: Ledger,
        dex: Dex,
        first: CurrencyId,
        last: CurrencyId,
        maybe_path: Option<Seq<CurrencyId>>,
        supply_amount: Balance,
    ) -> Option<Error> {
        if !spec_path_ok(maybe_path, first, last) {
            Some(Error::InvalidSwapPath)
        } else {
            let path = spec_resolved_path(maybe_path, first, last);
            if ledger.issuance_of(first) + supply_amount > Balance::MAX {
                Some(Error::Overflow)
            } else {
                match spec_quote_target(dex.rates@, path, supply_amount) {
                    None => Some(Error::CannotSwap),
                    Some(t) => if ledger.balance_of(path.last(), dex.account) + (
                    if path.last() == path[0] {
                        supply_amount as int
                    } else {
                        0
                    }) < t {
                        Some(Error::InsufficientBalance)
                    } else {
                        None
                    },
                }
            }
        }
    }

    /// Mint `supply_amount` of `first` to the engine's account and swap it
    /// along the path for `last`, returning the target bought.
    fn mint_and_swap_exact_supply(
        &self,
        ledger: &mut Ledger,
        dex: &Dex,
        first: CurrencyId,
        last: CurrencyId,
        maybe_path: Option<&Vec<CurrencyId>>,
        supply_amount: Balance,
    ) -> (r: Result<Balance, Error>)
        requires
            old(ledger).wf(),
            self.account != dex.account,
        ensures
            final(ledger).wf(),
            ({
                let spath = match maybe_path {
                    Some(p) => Some(p@),
                    None => None,
                };
                let path = spec_resolved_path(spath, first, last);
                match r {
                    Ok(t) => {
                        &&& self.spec_mint_swap_supply_error(
                            *old(ledger),
                            *dex,
                            first,
                            last,
                            spath,
                            supply_amount,
                        ) is None
                        &&& Some(t) == spec_quote_target(dex.rates@, path, supply_amount)
                        &&& forall|c2: CurrencyId, a2: AccountId|
                            #[trigger] final(ledger).balance_of(c2, a2) == old(ledger).balance_of(
                                c2,
                                a2,
                            ) + (if c2 == first && a2 == dex.account {
                                supply_amount as int
                            } else {
                                0
                            }) - (if c2 == path.last() && a2 == dex.account {
                                t as int
                            } else {
                                0
                            }) + (if c2 == path.last() && a2 == self.account {
                                t as int
                            } else {
                                0
                            })
                        &&& forall|c2: CurrencyId|
                            #[trigger] final(ledger).issuance_of(c2) == old(ledger).issuance_of(
                                c2,
                            ) + (if c2 == first {
                                supply_amount as int
                            } else {
                                0
                            })
                    },
                    Err(e) => {
                        &&& Some(e) == self.spec_mint_swap_supply_error(
                            *old(ledger),
                            *dex,
                            first,
                            last,
                            spath,
                            supply_amount,
                        )
                        &&& *final(ledger) == *old(ledger)
                    },
                }
            }),
    {
        let ghost l0 = *ledger;
        let mut owned_path: Vec<CurrencyId> = Vec::new();
        match maybe_path {
            None => {
                owned_path.push(first);
                owned_path.push(last);
            },
            Some(p) => {
                let len = p.len();
                if !(len >= 2 && p[0] == first && p[len - 1] == last) {
                    return Err(Error::InvalidSwapPath);
                }
                let mut i: usize = 0;
                while i < len
                    invariant
                        i <= len,
                        len == p@.len(),
                        owned_path@ == p@.subrange(0, i as int),
                    decreases len - i,
                {
                    owned_path.push(p[i]);
                    proof {
                        assert(owned_path@ =~= p@.subrange(0, i as int + 1));
                    }
                    i = i + 1;
                }
                proof {
                    assert(owned_path@ =~= p@);
                }
            },
        }
        let path = owned_path;
        proof {
            match maybe_path {
                None => {
                    assert(path@ =~= seq![first, last]);
                },
                Some(p) => {},
            }
        }
        // Decide every failure before minting.
        let iss = ledger.total_issuance(first);
        if supply_amount > Balance::MAX - iss {
            return Err(Error::Overflow);
        }
        let t = match dex.get_swap_target_amount(&path, supply_amount, Some(self.max_slippage)) {
            Some(t) => t,
            None => {
                return Err(Error::CannotSwap);
            },
        };
        let path_last = path[path.len() - 1];
        let dex_bal = ledger.free_balance(path_last, dex.account);
        let enough: bool = if path_last == first {
            if t <= dex_bal {
                true
            } else {
                t - dex_bal <= supply_amount
            }
        } else {
            t <= dex_bal
        };
        if !enough {
            return Err(Error::InsufficientBalance);
        }
        match ledger.deposit(first, self.account, supply_amount) {
            Ok(()) => {},
            Err(e) => {
                assert(false);
                return Err(e);
            },
        }
        let ghost l1 = *ledger;
        let swapped = dex.swap_with_exact_supply(
            ledger,
            self.account,
            &path,
            supply_amount,
            t,
            Some(self.max_slippage),
        );
        let got = match swapped {
            Ok(got) => got,
            Err(e) => {
                proof {
                    crate::ledger::lemma_balance_nonneg(l0, first, self.account);
                    assert(l1.balance_of(first, self.account) == l0.balance_of(first, self.account)
                        + supply_amount);
                    assert(l1.balance_of(path@.last(), dex.account) == l0.balance_of(
                        path@.last(),
                        dex.account,
                    ));
                }
                assert(false);
                return Err(e);
            },
        };
        proof {
            assert forall|c2: CurrencyId, a2: AccountId| #[trigger] ledger.balance_of(c2, a2)
                == l0.balance_of(c2, a2) + (if c2 == first && a2 == dex.account {
                supply_amount as int
            } else {
                0
            }) - (if c2 == path@.last() && a2 == dex.account {
                got as int
            } else {
                0
            }) + (if c2 == path@.last() && a2 == self.account {
                got as int
            } else {
                0
            }) by {
                assert(l1.balance_of(c2, a2) == l0.balance_of(c2, a2) + (
                if c2 == first && a2 == self.account {
                    supply_amount as int
                } else {
                    0
                }));
                assert(ledger.balance_of(c2, a2) == l1.balance_of(c2, a2) - (
                if c2 == path@[0] && a2 == self.account {
                    supply_amount as int
                } else {
                    0
                }) + (if c2 == path@[0] && a2 == dex.account {
                    supply_amount as int
                } else {
                    0
                }) - (if c2 == path@.last() && a2 == dex.account {
                    got as int
                } else {
                    0
                }) + (if c2 == path@.last() && a2 == self.account {
                    got as int
                } else {
                    0
                }));
            }
            assert forall|c2: CurrencyId| #[trigger] ledger.issuance_of(c2) == l0.issuance_of(c2)
                + (if c2 == first {
                supply_amount as int
            } else {
                0
            }) by {
                assert(l1.issuance_of(c2) == l0.issuance_of(c2) + (if c2 == first {
                    supply_amount as int
                } else {
                    0
                }));
                assert(ledger.issuance_of(c2) == l1.issuance_of(c2));
            }
        }
        Ok(got)
    }

    /// The error, if any, with which a mint-then-swap for an exact target
    /// declines: an invalid custom path, then a missing quote, then the
    /// mint overflowing the supplied currency's issuance, then the venue
    /// lacking the target funds.
    pub open spec fn spec_mint_swap_target_error(
        self,
        ledger: Ledger,
        dex: Dex,
        first: CurrencyId,
        last: CurrencyId,
        maybe_path: Option<Seq<CurrencyId>>,
        target_amount: Balance,
    ) -> Option<Error> {
        if !spec_path_ok(maybe_path, first, last) {
            Some(Error::InvalidSwapPath)
        } else {
            let path = spec_resolved_path(maybe_path, first, last);
            match spec_quote_supply(dex.rates@, path, target_amount) {
                None => Some(Error::CannotSwap),
                Some(s) => if ledger.issuance_of(first) + s > Balance::MAX {
                    Some(Error::Overflow)
                } else if ledger.balance_of(path.last(), dex.account) + (
                if path.last() == path[0] {
                    s as int
                } else {
                    0
                }) < target_amount {
                    Some(Error::InsufficientBalance)
                } else {
                    None
                },
            }
        }
    }

    /// Mint the quoted supply of `first` to the engine's account and swap
    /// it along the path for exactly `target_amount` of `last`, returning
    /// the supply spent.
    fn mint_and_swap_exact_target(
        &self,
        ledger: &mut Ledger,
        dex: &Dex,
        first: CurrencyId,
        last: CurrencyId,
        maybe_path: Option<&Vec<CurrencyId>>,
        target_amount: Balance,
    ) -> (r: Result<Balance, Error>)
        requires
            old(ledger).wf(),
            self.account != dex.account,
        ensures
            final(ledger).wf(),
            ({
                let spath = match maybe_path {
                    Some(p) => Some(p@),
                    None => None,
                };
                let path = spec_resolved_path(spath, first, last);
                match r {
                    Ok(s) => {
                        &&& self.spec_mint_swap_target_error(
                            *old(ledger),
                            *dex,
                            first,
                            last,
                            spath,
                            target_amount,
                        ) is None
                        &&& Some(s) == spec_quote_supply(dex.rates@, path, target_amount)
                        &&& forall|c2: CurrencyId, a2: AccountId|
                            #[trigger] final(ledger).balance_of(c2, a2) == old(ledger).balance_of(
                                c2,
                                a2,
                            ) + (if c2 == first && a2 == dex.account {
                                s as int
                            } else {
                                0
                            }) - (if c2 == path.last() && a2 == dex.account {
                                target_amount as int
                            } else {
                                0
                            }) + (if c2 == path.last() && a2 == self.account {
                                target_amount as int
                            } else {
                                0
                            })
                        &&& forall|c2: CurrencyId|
                            #[trigger] final(ledger).issuance_of(c2) == old(ledger).issuance_of(
                                c2,
                            ) + (if c2 == first {
                                s as int
                            } else {
                                0
                            })
                    },
                    Err(e) => {
                        &&& Some(e) == self.spec_mint_swap_target_error(
                            *old(ledger),
                            *dex,
                            first,
                            last,
                            spath,
                            target_amount,
                        )
                        &&& *final(ledger) == *old(ledger)
                    },
                }
            }),
    {
        let ghost l0 = *ledger;
        let mut owned_path: Vec<CurrencyId> = Vec::new();
        match maybe_path {
            None => {
                owned_path.push(first);
                owned_path.push(last);
            },
            Some(p) => {
                let len = p.len();
                if !(len >= 2 && p[0] == first && p[len - 1] == last) {
                    return Err(Error::InvalidSwapPath);
                }
                let mut i: usize = 0;
                while i < len
                    invariant
                        i <= len,
                        len == p@.len(),
                        owned_path@ == p@.subrange(0, i as int),
                    decreases len - i,
                {
                    owned_path.push(p[i]);
                    proof {
                        assert(owned_path@ =~= p@.subrange(0, i as int + 1));
                    }
                    i = i + 1;
                }
                proof {
                    assert(owned_path@ =~= p@);
                }
            },
        }
        let path = owned_path;
        proof {
            match maybe_path {
                None => {
                    assert(path@ =~= seq![first, last]);
                },
                Some(p) => {},
            }
        }
        let s = match dex.get_swap_supply_amount(&path, target_amount, Some(self.max_slippage)) {
            Some(s) => s,
            None => {
                return Err(Error::CannotSwap);
            },
        };
        let iss = ledger.total_issuance(first);
        if s > Balance::MAX - iss {
            return Err(Error::Overflow);
        }
        let path_last = path[path.len() - 1];
        let dex_bal = ledger.free_balance(path_last, dex.account);
        let enough: bool = if path_last == first {
            if target_amount <= dex_bal {
                true
            } else {
                target_amount - dex_bal <= s
            }
        } else {
            target_amount <= dex_bal
        };
        if !enough {
            return Err(Error::InsufficientBalance);
        }
        match ledger.deposit(first, self.account, s) {
            Ok(()) => {},
            Err(e) => {
                assert(false);
                return Err(e);
            },
        }
        let ghost l1 = *ledger;
        let swapped = dex.swap_with_exact_target(
            ledger,
            self.account,
            &path,
            target_amount,
            s,
            Some(self.max_slippage),
        );
        let spent = match swapped {
            Ok(spent) => spent,
            Err(e) => {
                proof {
                    crate::ledger::lemma_balance_nonneg(l0, first, self.account);
                    assert(l1.balance_of(first, self.account) == l0.balance_of(first, self.account)
                        + s);
                    assert(l1.balance_of(path@.last(), dex.account) == l0.balance_of(
                        path@.last(),
                        dex.account,
                    ));
                }
                assert(false);
                return Err(e);
            },
        };
        proof {
            assert forall|c2: CurrencyId, a2: AccountId| #[trigger] ledger.balance_of(c2, a2)
                == l0.balance_of(c2, a2) + (if c2 == first && a2 == dex.account {
                spent as int
            } else {
                0
            }) - (if c2 == path@.last() && a2 == dex.account {
                target_amount as int
            } else {
                0
            }) + (if c2 == path@.last() && a2 == self.account {
                target_amount as int
            } else {
                0
            }) by {
                assert(l1.balance_of(c2, a2) == l0.balance_of(c2, a2) + (
                if c2 == first && a2 == self.account {
                    spent as int
                } else {
                    0
                }));
                assert(ledger.balance_of(c2, a2) == l1.balance_of(c2, a2) - (
                if c2 == path@[0] && a2 == self.account {
                    spent as int
                } else {
                    0
                }) + (if c2 == path@[0] && a2 == dex.account {
                    spent as int
                } else {
                    0
                }) - (if c2 == path@.last() && a2 == dex.account {
                    target_amount as int
                } else {
                    0
                }) + (if c2 == path@.last() && a2 == self.account {
                    target_amount as int
                } else {
                    0
                }));
            }
            assert forall|c2: CurrencyId| #[trigger] ledger.issuance_of(c2) == l0.issuance_of(c2)
                + (if c2 == first {
                spent as int
            } else {
                0
            }) by {
                assert(l1.issuance_of(c2) == l0.issuance_of(c2) + (if c2 == first {
                    spent as int
                } else {
                    0
                }));
                assert(ledger.issuance_of(c2) == l1.issuance_of(c2));
            }
        }
        Ok(spent)
    }

    /// Swap an exact freshly-minted amount of the native token for the
    /// settlement currency, returning the settlement amount bought.
    pub fn swap_exact_dinar_to_setter(
        &self,
        ledger: &mut Ledger,
        dex: &Dex,
        supply_amount: Balance,
        maybe_path: Option<&Vec<CurrencyId>>,
    ) -> (r: Result<Balance, Error>)
        requires
            old(ledger).wf(),
            self.account != dex.account,
        ensures
            final(ledger).wf(),
            ({
                let spath = match maybe_path {
                    Some(p) => Some(p@),
                    None => None,
                };
                let path = spec_resolved_path(
                    spath,
                    self.native_currency_id,
                    self.setter_currency_id,
                );
                match r {
                    Ok(t) => {
                        &&& self.spec_mint_swap_supply_error(
                            *old(ledger),
                            *dex,
                            self.native_currency_id,
                            self.setter_currency_id,
                            spath,
                            supply_amount,
                        ) is None
                        &&& Some(t) == spec_quote_target(dex.rates@, path, supply_amount)
                        &&& forall|c2: CurrencyId, a2: AccountId|
                            #[trigger] final(ledger).balance_of(c2, a2) == old(ledger).balance_of(
                                c2,
                                a2,
                            ) + (if c2 == self.native_currency_id && a2 == dex.account {
                                supply_amount as int
                            } else {
                                0
                            }) - (if c2 == path.last() && a2 == dex.account {
                                t as int
                            } else {
                                0
                            }) + (if c2 == path.last() && a2 == self.account {
                                t as int
                            } else {
                                0
                            })
                        &&& forall|c2: CurrencyId|
                            #[trigger] final(ledger).issuance_of(c2) == old(ledger).issuance_of(
                                c2,
                            ) + (if c2 == self.native_currency_id {
                                supply_amount as int
                            } else {
                                0
                            })
                    },
                    Err(e) => {
                        &&& Some(e) == self.spec_mint_swap_supply_error(
                            *old(ledger),
                            *dex,
                            self.native_currency_id,
                            self.setter_currency_id,
                            spath,
                            supply_amount,
                        )
                        &&& *final(ledger) == *old(ledger)
                    },
                }
            }),
    {
        self.mint_and_swap_exact_supply(
            ledger,
            dex,
            self.native_currency_id,
            self.setter_currency_id,
            maybe_path,
            supply_amount,
        )
    }

    /// Swap freshly-minted native tokens for an exact amount of the
    /// settlement currency, returning the native amount spent.
    pub fn swap_dinar_to_exact_setter(
        &self,
        ledger: &mut Ledger,
        dex: &Dex,
        target_amount: Balance,
        maybe_path: Option<&Vec<CurrencyId>>,
    ) -> (r: Result<Balance, Error>)
        requires
            old(ledger).wf(),
            self.account != dex.account,
        ensures
            final(ledger).wf(),
            ({
                let spath = match maybe_path {
                    Some(p) => Some(p@),
                    None => None,
                };
                let path = spec_resolved_path(
                    spath,
                    self.native_currency_id,
                    self.setter_currency_id,
                );
                match r {
                    Ok(s) => {
                        &&& self.spec_mint_swap_target_error(
                            *old(ledger),
                            *dex,
                            self.native_currency_id,
                            self.setter_currency_id,
                            spath,
                            target_amount,
                        ) is None
                        &&& Some(s) == spec_quote_supply(dex.rates@, path, target_amount)
                        &&& forall|c2: CurrencyId, a2: AccountId|
                            #[trigger] final(ledger).balance_of(c2, a2) == old(ledger).balance_of(
                                c2,
                                a2,
                            ) + (if c2 == self.native_currency_id && a2 == dex.account {
                                s as int
                            } else {
                                0
                            }) - (if c2 == path.last() && a2 == dex.account {
                                target_amount as int
                            } else {
                                0
                            }) + (if c2 == path.last() && a2 == self.account {
                                target_amount as int
                            } else {
                                0
                            })
                        &&& forall|c2: CurrencyId|
                            #[trigger] final(ledger).issuance_of(c2) == old(ledger).issuance_of(
                                c2,
                            ) + (if c2 == self.native_currency_id {
                                s as int
                            } else {
                                0
                            })
                    },
                    Err(e) => {
                        &&& Some(e) == self.spec_mint_swap_target_error(
                            *old(ledger),
                            *dex,
                            self.native_currency_id,
                            self.setter_currency_id,
                            spath,
                            target_amount,
                        )
                        &&& *final(ledger) == *old(ledger)
                    },
                }
            }),
    {
        self.mint_and_swap_exact_target(
            ledger,
            dex,
            self.native_currency_id,
            self.setter_currency_id,
            maybe_path,
            target_amount,
        )
    }

    /// Swap freshly-minted settlement currency for an exact amount of a
    /// stable currency, returning the settlement amount spent.
    pub fn swap_setter_to_exact_settcurrency(
        &self,
        ledger: &mut Ledger,
        dex: &Dex,
        currency_id: CurrencyId,
        target_amount: Balance,
        maybe_path: Option<&Vec<CurrencyId>>,
    ) -> (r: Result<Balance, Error>)
        requires
            old(ledger).wf(),
            self.account != dex.account,
        ensures
            final(ledger).wf(),
            ({
                let spath = match maybe_path {
                    Some(p) => Some(p@),
                    None => None,
                };
                let path = spec_resolved_path(spath, self.setter_currency_id, currency_id);
                match r {
                    Ok(s) => {
                        &&& self.spec_mint_swap_target_error(
                            *old(ledger),
                            *dex,
                            self.setter_currency_id,
                            currency_id,
                            spath,
                            target_amount,
                        ) is None
                        &&& Some(s) == spec_quote_supply(dex.rates@, path, target_amount)
                        &&& forall|c2: CurrencyId, a2: AccountId|
                            #[trigger] final(ledger).balance_of(c2, a2) == old(ledger).balance_of(
                                c2,
                                a2,
                            ) + (if c2 == self.setter_currency_id && a2 == dex.account {
                                s as int
                            } else {
                                0
                            }) - (if c2 == path.last() && a2 == dex.account {
                                target_amount as int
                            } else {
                                0
                            }) + (if c2 == path.last() && a2 == self.account {
                                target_amount as int
                            } else {
                                0
                            })
                        &&& forall|c2: CurrencyId|
                            #[trigger] final(ledger).issuance_of(c2) == old(ledger).issuance_of(
                                c2,
                            ) + (if c2 == self.setter_currency_id {
                                s as int
                            } else {
                                0
                            })
                    },
                    Err(e) => {
                        &&& Some(e) == self.spec_mint_swap_target_error(
                            *old(ledger),
                            *dex,
                            self.setter_currency_id,
                            currency_id,
                            spath,
                            target_amount,
                        )
                        &&& *final(ledger) == *old(ledger)
                    },
                }
            }),
    {
        self.mint_and_swap_exact_target(
            ledger,
            dex,
            self.setter_currency_id,
            currency_id,
            maybe_path,
            target_amount,
        )
    }

    /// Swap an exact freshly-minted amount of a stable currency for the
    /// native token, returning the native amount bought.
    pub fn swap_exact_stablecurrency_to_dinar(
        &self,
        ledger: &mut Ledger,
        dex: &Dex,
        currency_id: CurrencyId,
        supply_amount: Balance,
        maybe_path: Option<&Vec<CurrencyId>>,
    ) -> (r: Result<Balance, Error>)
        requires
            old(ledger).wf(),
            self.account != dex.account,
        ensures
            final(ledger).wf(),
            ({
                let spath = match maybe_path {
                    Some(p) => Some(p@),
                    None => None,
                };
                let path = spec_resolved_path(spath, currency_id, self.native_currency_id);
                match r {
                    Ok(t) => {
                        &&& self.spec_mint_swap_supply_error(
                            *old(ledger),
                            *dex,
                            currency_id,
                            self.native_currency_id,
                            spath,
                            supply_amount,
                        ) is None
                        &&& Some(t) == spec_quote_target(dex.rates@, path, supply_amount)
                        &&& forall|c2: CurrencyId, a2: AccountId|
                            #[trigger] final(ledger).balance_of(c2, a2) == old(ledger).balance_of(
                                c2,
                                a2,
                            ) + (if c2 == currency_id && a2 == dex.account {
                                supply_amount as int
                            } else {
                                0
                            }) - (if c2 == path.last() && a2 == dex.account {
                                t as int
                            } else {
                                0
                            }) + (if c2 == path.last() && a2 == self.account {
                                t as int
                            } else {
                                0
                            })
                        &&& forall|c2: CurrencyId|
                            #[trigger] final(ledger).issuance_of(c2) == old(ledger).issuance_of(
                                c2,
                            ) + (if c2 == currency_id {
                                supply_amount as int
                            } else {
                                0
                            })
                    },
                    Err(e) => {
                        &&& Some(e) == self.spec_mint_swap_supply_error(
                            *old(ledger),
                            *dex,
                            currency_id,
                            self.native_currency_id,
                            spath,
                            supply_amount,
                        )
                        &&& *final(ledger) == *old(ledger)
                    },
                }
            }),
    {
        self.mint_and_swap_exact_supply(
            ledger,
            dex,
            currency_id,
            self.native_currency_id,
            maybe_path,
            supply_amount,
        )
    }
}

/// The expansion share swapped for the native token and burned.
pub open spec fn spec_buyback_amount(amount: Balance) -> int {
    3 * (amount as int / 10)
}

/// The expansion share minted to the reward pool.
pub open spec fn spec_settpay_amount(amount: Balance) -> int {
    6 * (amount as int / 10)
}

/// The expansion share minted to the charity fund.
pub open spec fn spec_charity_amount(amount: Balance) -> int {
    amount as int / 10
}

impl SerpTes {
    /// Mint an amount of the given currency to an account.
    pub fn issue_propper(
        &self,
        ledger: &mut Ledger,
        currency_id: CurrencyId,
        who: AccountId,
        amount: Balance,
    ) -> (r: Result<(), Error>)
        requires
            old(ledger).wf(),
        ensures
            final(ledger).wf(),
            match r {
                Ok(()) => {
                    &&& old(ledger).issuance_of(currency_id) + amount <= Balance::MAX
                    &&& forall|c2: CurrencyId, a2: AccountId|
                        #[trigger] final(ledger).balance_of(c2, a2) == old(ledger).balance_of(
                            c2,
                            a2,
                        ) + (if c2 == currency_id && a2 == who {
                            amount as int
                        } else {
                            0
                        })
                    &&& forall|c2: CurrencyId|
                        #[trigger] final(ledger).issuance_of(c2) == old(ledger).issuance_of(c2)
                            + (if c2 == currency_id {
                            amount as int
                        } else {
                            0
                        })
                },
                Err(e) => {
                    &&& e == Error::Overflow
                    &&& old(ledger).issuance_of(currency_id) + amount > Balance::MAX
                    &&& *final(ledger) == *old(ledger)
                },
            },
    {
        ledger.deposit(currency_id, who, amount)
    }

    /// Burn an amount of the given currency from an account.
    pub fn burn_propper(
        &self,
        ledger: &mut Ledger,
        currency_id: CurrencyId,
        who: AccountId,
        amount: Balance,
    ) -> (r: Result<(), Error>)
        requires
            old(ledger).wf(),
        ensures
            final(ledger).wf(),
            match r {
                Ok(()) => {
                    &&& old(ledger).balance_of(currency_id, who) >= amount
                    &&& forall|c2: CurrencyId, a2: AccountId|
                        #[trigger] final(ledger).balance_of(c2, a2) == old(ledger).balance_of(
                            c2,
                            a2,
                        ) - (if c2 == currency_id && a2 == who {
                            amount as int
                        } else {
                            0
                        })
                    &&& forall|c2: CurrencyId|
                        #[trigger] final(ledger).issuance_of(c2) == old(ledger).issuance_of(c2)
                            - (if c2 == currency_id {
                            amount as int
                        } else {
                            0
                        })
                },
                Err(e) => {
                    &&& e == Error::InsufficientBalance
                    &&& old(ledger).balance_of(currency_id, who) < amount
                    &&& *final(ledger) == *old(ledger)
                },
            },
    {
        ledger.withdraw(currency_id, who, amount)
    }

    /// Mint a stable currency to an account; debt issue and repayment are
    /// the same ledger movement as any other mint here.
    pub fn issue_standard(
        &self,
        ledger: &mut Ledger,
        currency_id: CurrencyId,
        who: AccountId,
        amount: Balance,
    ) -> (r: Result<(), Error>)
        requires
            old(ledger).wf(),
        ensures
            final(ledger).wf(),
            r is Ok <==> old(ledger).issuance_of(currency_id) + amount <= Balance::MAX,
            r is Ok ==> forall|c2: CurrencyId, a2: AccountId|
                #[trigger] final(ledger).balance_of(c2, a2) == old(ledger).balance_of(c2, a2) + (
                if c2 == currency_id && a2 == who {
                    amount as int
                } else {
                    0
                }),
            r is Ok ==> forall|c2: CurrencyId|
                #[trigger] final(ledger).issuance_of(c2) == old(ledger).issuance_of(c2) + (
                if c2 == currency_id {
                    amount as int
                } else {
                    0
                }),
            r is Err ==> r == Result::<(), Error>::Err(Error::Overflow) && *final(ledger) == *old(
                ledger,
            ),
    {
        ledger.deposit(currency_id, who, amount)
    }

    /// Burn a stable currency from an account.
    pub fn burn_standard(
        &self,
        ledger: &mut Ledger,
        currency_id: CurrencyId,
        who: AccountId,
        amount: Balance,
    ) -> (r: Result<(), Error>)
        requires
            old(ledger).wf(),
        ensures
            final(ledger).wf(),
            r is Ok <==> old(ledger).balance_of(currency_id, who) >= amount,
            r is Ok ==> forall|c2: CurrencyId, a2: AccountId|
                #[trigger] final(ledger).balance_of(c2, a2) == old(ledger).balance_of(c2, a2) - (
                if c2 == currency_id && a2 == who {
                    amount as int
                } else {
                    0
                }),
            r is Ok ==> forall|c2: CurrencyId|
                #[trigger] final(ledger).issuance_of(c2) == old(ledger).issuance_of(c2) - (
                if c2 == currency_id {
                    amount as int
                } else {
                    0
                }),
            r is Err ==> r == Result::<(), Error>::Err(Error::InsufficientBalance) && *final(ledger) == *old(ledger),
    {
        ledger.withdraw(currency_id, who, amount)
    }

    /// Mint the settlement currency to an account.
    pub fn issue_setter(&self, ledger: &mut Ledger, who: AccountId, amount: Balance) -> (r: Result<
        (),
        Error,
    >)
        requires
            old(ledger).wf(),
        ensures
            final(ledger).wf(),
            r is Ok <==> old(ledger).issuance_of(self.setter_currency_id) + amount <= Balance::MAX,
            r is Ok ==> forall|c2: CurrencyId, a2: AccountId|
                #[trigger] final(ledger).balance_of(c2, a2) == old(ledger).balance_of(c2, a2) + (
                if c2 == self.setter_currency_id && a2 == who {
                    amount as int
                } else {
                    0
                }),
            r is Ok ==> forall|c2: CurrencyId|
                #[trigger] final(ledger).issuance_of(c2) == old(ledger).issuance_of(c2) + (
                if c2 == self.setter_currency_id {
                    amount as int
                } else {
                    0
                }),
            r is Err ==> r == Result::<(), Error>::Err(Error::Overflow) && *final(ledger) == *old(
                ledger,
            ),
    {
        ledger.deposit(self.setter_currency_id, who, amount)
    }

    /// Burn the settlement currency from an account.
    pub fn burn_setter(&self, ledger: &mut Ledger, who: AccountId, amount: Balance) -> (r: Result<
        (),
        Error,
    >)
        requires
            old(ledger).wf(),
        ensures
            final(ledger).wf(),
            r is Ok <==> old(ledger).balance_of(self.setter_currency_id, who) >= amount,
            r is Ok ==> forall|c2: CurrencyId, a2: AccountId|
                #[trigger] final(ledger).balance_of(c2, a2) == old(ledger).balance_of(c2, a2) - (
                if c2 == self.setter_currency_id && a2 == who {
                    amount as int
                } else {
                    0
                }),
            r is Ok ==> forall|c2: CurrencyId|
                #[trigger] final(ledger).issuance_of(c2) == old(ledger).issuance_of(c2) - (
                if c2 == self.setter_currency_id {
                    amount as int
                } else {
                    0
                }),
            r is Err ==> r == Result::<(), Error>::Err(Error::InsufficientBalance) && *final(ledger) == *old(ledger),
    {
        ledger.withdraw(self.setter_currency_id, who, amount)
    }

    /// Mint the native reserve token to an account.
    pub fn issue_dinar(&self, ledger: &mut Ledger, who: AccountId, amount: Balance) -> (r: Result<
        (),
        Error,
    >)
        requires
            old(ledger).wf(),
        ensures
            final(ledger).wf(),
            r is Ok <==> old(ledger).issuance_of(self.native_currency_id) + amount <= Balance::MAX,
            r is Ok ==> forall|c2: CurrencyId, a2: AccountId|
                #[trigger] final(ledger).balance_of(c2, a2) == old(ledger).balance_of(c2, a2) + (
                if c2 == self.native_currency_id && a2 == who {
                    amount as int
                } else {
                    0
                }),
            r is Ok ==> forall|c2: CurrencyId|
                #[trigger] final(ledger).issuance_of(c2) == old(ledger).issuance_of(c2) + (
                if c2 == self.native_currency_id {
                    amount as int
                } else {
                    0
                }),
            r is Err ==> r == Result::<(), Error>::Err(Error::Overflow) && *final(ledger) == *old(
                ledger,
            ),
    {
        ledger.deposit(self.native_currency_id, who, amount)
    }

    /// Burn the native reserve token from an account.
    pub fn burn_dinar(&self, ledger: &mut Ledger, who: AccountId, amount: Balance) -> (r: Result<
        (),
        Error,
    >)
        requires
            old(ledger).wf(),
        ensures
            final(ledger).wf(),
            r is Ok <==> old(ledger).balance_of(self.native_currency_id, who) >= amount,
            r is Ok ==> forall|c2: CurrencyId, a2: AccountId|
                #[trigger] final(ledger).balance_of(c2, a2) == old(ledger).balance_of(c2, a2) - (
                if c2 == self.native_currency_id && a2 == who {
                    amount as int
                } else {
                    0
                }),
            r is Ok ==> forall|c2: CurrencyId|
                #[trigger] final(ledger).issuance_of(c2) == old(ledger).issuance_of(c2) - (
                if c2 == self.native_currency_id {
                    amount as int
                } else {
                    0
                }),
            r is Err ==> r == Result::<(), Error>::Err(Error::InsufficientBalance) && *final(ledger) == *old(ledger),
    {
        ledger.withdraw(self.native_currency_id, who, amount)
    }

    /// Mint the swap-venue token to an account.
    pub fn issue_dexer(&self, ledger: &mut Ledger, who: AccountId, amount: Balance) -> (r: Result<
        (),
        Error,
    >)
        requires
            old(ledger).wf(),
        ensures
            final(ledger).wf(),
            r is Ok <==> old(ledger).issuance_of(self.dirham_currency_id) + amount <= Balance::MAX,
            r is Ok ==> forall|c2: CurrencyId, a2: AccountId|
                #[trigger] final(ledger).balance_of(c2, a2) == old(ledger).balance_of(c2, a2) + (
                if c2 == self.dirham_currency_id && a2 == who {
                    amount as int
                } else {
                    0
                }),
            r is Ok ==> forall|c2: CurrencyId|
                #[trigger] final(ledger).issuance_of(c2) == old(ledger).issuance_of(c2) + (
                if c2 == self.dirham_currency_id {
                    amount as int
                } else {
                    0
                }),
            r is Err ==> r == Result::<(), Error>::Err(Error::Overflow) && *final(ledger) == *old(
                ledger,
            ),
    {
        ledger.deposit(self.dirham_currency_id, who, amount)
    }

    /// Burn the swap-venue token from an account.
    pub fn burn_dexer(&self, ledger: &mut Ledger, who: AccountId, amount: Balance) -> (r: Result<
        (),
        Error,
    >)
        requires
            old(ledger).wf(),
        ensures
            final(ledger).wf(),
            r is Ok <==> old(ledger).balance_of(self.dirham_currency_id, who) >= amount,
            r is Ok ==> forall|c2: CurrencyId, a2: AccountId|
                #[trigger] final(ledger).balance_of(c2, a2) == old(ledger).balance_of(c2, a2) - (
                if c2 == self.dirham_currency_id && a2 == who {
                    amount as int
                } else {
                    0
                }),
            r is Ok ==> forall|c2: CurrencyId|
                #[trigger] final(ledger).issuance_of(c2) == old(ledger).issuance_of(c2) - (
                if c2 == self.dirham_currency_id {
                    amount as int
                } else {
                    0
                }),
            r is Err ==> r == Result::<(), Error>::Err(Error::InsufficientBalance) && *final(ledger) == *old(ledger),
    {
        ledger.withdraw(self.dirham_currency_id, who, amount)
    }

    /// Move surplus stable currency from an account into the engine's own.
    pub fn deposit_serplus(
        &self,
        ledger: &mut Ledger,
        currency_id: CurrencyId,
        from: AccountId,
        amount: Balance,
    ) -> (r: Result<(), Error>)
        requires
            old(ledger).wf(),
        ensures
            final(ledger).wf(),
            r is Ok <==> old(ledger).balance_of(currency_id, from) >= amount,
            r is Ok ==> forall|c2: CurrencyId, a2: AccountId|
                #[trigger] final(ledger).balance_of(c2, a2) == old(ledger).balance_of(c2, a2) - (
                if c2 == currency_id && a2 == from {
                    amount as int
                } else {
                    0
                }) + (if c2 == currency_id && a2 == self.account {
                    amount as int
                } else {
                    0
                }),
            r is Ok ==> forall|c2: CurrencyId|
                #[trigger] final(ledger).issuance_of(c2) == old(ledger).issuance_of(c2),
            r is Err ==> r == Result::<(), Error>::Err(Error::InsufficientBalance) && *final(ledger) == *old(ledger),
    {
        ledger.transfer(currency_id, from, self.account, amount)
    }

    /// Move settlement currency from an account into the engine's own.
    pub fn deposit_setter(&self, ledger: &mut Ledger, from: AccountId, amount: Balance) -> (r:
        Result<(), Error>)
        requires
            old(ledger).wf(),
        ensures
            final(ledger).wf(),
            r is Ok <==> old(ledger).balance_of(self.setter_currency_id, from) >= amount,
            r is Ok ==> forall|c2: CurrencyId, a2: AccountId|
                #[trigger] final(ledger).balance_of(c2, a2) == old(ledger).balance_of(c2, a2) - (
                if c2 == self.setter_currency_id && a2 == from {
                    amount as int
                } else {
                    0
                }) + (if c2 == self.setter_currency_id && a2 == self.account {
                    amount as int
                } else {
                    0
                }),
            r is Ok ==> forall|c2: CurrencyId|
                #[trigger] final(ledger).issuance_of(c2) == old(ledger).issuance_of(c2),
            r is Err ==> r == Result::<(), Error>::Err(Error::InsufficientBalance) && *final(ledger) == *old(ledger),
    {
        ledger.transfer(self.setter_currency_id, from, self.account, amount)
    }

    /// Refund native reserve tokens from the engine's account.
    pub fn withdraw_dinar(&self, ledger: &mut Ledger, to: AccountId, amount: Balance) -> (r: Result<
        (),
        Error,
    >)
        requires
            old(ledger).wf(),
        ensures
            final(ledger).wf(),
            r is Ok <==> old(ledger).balance_of(self.native_currency_id, self.account) >= amount,
            r is Ok ==> forall|c2: CurrencyId, a2: AccountId|
                #[trigger] final(ledger).balance_of(c2, a2) == old(ledger).balance_of(c2, a2) - (
                if c2 == self.native_currency_id && a2 == self.account {
                    amount as int
                } else {
                    0
                }) + (if c2 == self.native_currency_id && a2 == to {
                    amount as int
                } else {
                    0
                }),
            r is Ok ==> forall|c2: CurrencyId|
                #[trigger] final(ledger).issuance_of(c2) == old(ledger).issuance_of(c2),
            r is Err ==> r == Result::<(), Error>::Err(Error::InsufficientBalance) && *final(ledger) == *old(ledger),
    {
        ledger.transfer(self.native_currency_id, self.account, to, amount)
    }
}

/// The saturating difference of two quantities.
pub open spec fn spec_sat_sub(a: int, b: int) -> int {
    if a >= b {
        a - b
    } else {
        0
    }
}

impl SerpTes {
    /// The error, if any, with which the buy-back leg declines.
    pub open spec fn spec_buyback_error(
        self,
        ledger: Ledger,
        dex: Dex,
        oracle: PriceFeed,
        c: CurrencyId,
        amount: Balance,
    ) -> Option<Error> {
        if oracle.spec_relative_price(c, self.native_currency_id) is None {
            Some(Error::InvalidFeedPrice)
        } else {
            self.spec_mint_swap_supply_error(
                ledger,
                dex,
                c,
                self.native_currency_id,
                None,
                spec_buyback_amount(amount) as Balance,
            )
        }
    }

    /// What the buy-back leg does to the ledger: the minted share moves to
    /// the venue and the native proceeds are burned.
    pub open spec fn spec_buyback_effects(
        self,
        l0: Ledger,
        l1: Ledger,
        dex: Dex,
        c: CurrencyId,
        amount: Balance,
    ) -> bool {
        match spec_quote_target(
            dex.rates@,
            seq![c, self.native_currency_id],
            spec_buyback_amount(amount) as Balance,
        ) {
            Some(t) => {
                &&& forall|c2: CurrencyId, a2: AccountId|
                    #[trigger] l1.balance_of(c2, a2) == l0.balance_of(c2, a2) + (
                    if c2 == c && a2 == dex.account {
                        spec_buyback_amount(amount)
                    } else {
                        0
                    }) - (if c2 == self.native_currency_id && a2 == dex.account {
                        t as int
                    } else {
                        0
                    })
                &&& forall|c2: CurrencyId|
                    #[trigger] l1.issuance_of(c2) == l0.issuance_of(c2) + (if c2 == c {
                        spec_buyback_amount(amount)
                    } else {
                        0
                    }) - (if c2 == self.native_currency_id {
                        t as int
                    } else {
                        0
                    })
            },
            None => false,
        }
    }

    /// The buy-back expansion leg: mint three tenths of the amount, swap
    /// it for the native reserve token, and burn the proceeds.
    pub fn get_buyback_serpup(
        &mut self,
        ledger: &mut Ledger,
        dex: &Dex,
        oracle: &PriceFeed,
        amount: Balance,
        currency_id: CurrencyId,
    ) -> (r: Result<(), Error>)
        requires
            old(ledger).wf(),
            old(self).spec_config_ok(*dex),
            old(self).spec_is_stable(currency_id),
        ensures
            final(ledger).wf(),
            spec_same_config(*old(self), *final(self)),
            match r {
                Ok(()) => {
                    &&& old(self).spec_buyback_error(
                        *old(ledger),
                        *dex,
                        *oracle,
                        currency_id,
                        amount,
                    ) is None
                    &&& old(self).spec_buyback_effects(
                        *old(ledger),
                        *final(ledger),
                        *dex,
                        currency_id,
                        amount,
                    )
                    &&& final(self).events@ == old(self).events@.push(
                        SerpEvent::SerpUpDelivery(amount, currency_id),
                    )
                },
                Err(e) => {
                    &&& Some(e) == old(self).spec_buyback_error(
                        *old(ledger),
                        *dex,
                        *oracle,
                        currency_id,
                        amount,
                    )
                    &&& *final(self) == *old(self)
                    &&& *final(ledger) == *old(ledger)
                },
            },
    {
        let ghost l0 = *ledger;
        match oracle.get_relative_price(currency_id, self.native_currency_id) {
            Some(_) => {},
            None => {
                return Err(Error::InvalidFeedPrice);
            },
        }
        let tenth = amount / 10;
        proof {
            vstd::arithmetic::div_mod::lemma_div_is_ordered(
                amount as int,
                Balance::MAX as int,
                10,
            );
        }
        let serping: Balance = 3 * tenth;
        let swap = self.mint_and_swap_exact_supply(
            ledger,
            dex,
            currency_id,
            self.native_currency_id,
            None,
            serping,
        );
        let t = match swap {
            Ok(t) => t,
            Err(e) => {
                return Err(e);
            },
        };
        let ghost l1 = *ledger;
        // Burn the native proceeds, which the swap just delivered.
        match ledger.withdraw(self.native_currency_id, self.account, t) {
            Ok(()) => {},
            Err(e) => {
                proof {
                    crate::ledger::lemma_balance_nonneg(l0, self.native_currency_id, self.account);
                    assert(seq![currency_id, self.native_currency_id].last()
                        == self.native_currency_id);
                    assert(l1.balance_of(self.native_currency_id, self.account) == l0.balance_of(
                        self.native_currency_id,
                        self.account,
                    ) + t);
                }
                assert(false);
                return Err(e);
            },
        }
        self.events.push(SerpEvent::SerpUpDelivery(amount, currency_id));
        proof {
            let native = self.native_currency_id;
            assert(seq![currency_id, native].last() == native);
            assert forall|c2: CurrencyId, a2: AccountId| #[trigger] ledger.balance_of(c2, a2)
                == l0.balance_of(c2, a2) + (if c2 == currency_id && a2 == dex.account {
                spec_buyback_amount(amount)
            } else {
                0
            }) - (if c2 == native && a2 == dex.account {
                t as int
            } else {
                0
            }) by {
                assert(l1.balance_of(c2, a2) == l0.balance_of(c2, a2) + (
                if c2 == currency_id && a2 == dex.account {
                    serping as int
                } else {
                    0
                }) - (if c2 == native && a2 == dex.account {
                    t as int
                } else {
                    0
                }) + (if c2 == native && a2 == self.account {
                    t as int
                } else {
                    0
                }));
                assert(ledger.balance_of(c2, a2) == l1.balance_of(c2, a2) - (
                if c2 == native && a2 == self.account {
                    t as int
                } else {
                    0
                }));
            }
            assert forall|c2: CurrencyId| #[trigger] ledger.issuance_of(c2) == l0.issuance_of(c2)
                + (if c2 == currency_id {
                spec_buyback_amount(amount)
            } else {
                0
            }) - (if c2 == native {
                t as int
            } else {
                0
            }) by {
                assert(l1.issuance_of(c2) == l0.issuance_of(c2) + (if c2 == currency_id {
                    serping as int
                } else {
                    0
                }));
                assert(ledger.issuance_of(c2) == l1.issuance_of(c2) - (if c2 == native {
                    t as int
                } else {
                    0
                }));
            }
        }
        Ok(())
    }

    /// The reward-pool expansion leg: mint six tenths of the amount to the
    /// reward destination.
    pub fn get_settpay_serpup(
        &mut self,
        ledger: &mut Ledger,
        amount: Balance,
        currency_id: CurrencyId,
    ) -> (r: Result<(), Error>)
        requires
            old(ledger).wf(),
        ensures
            final(ledger).wf(),
            spec_same_config(*old(self), *final(self)),
            match r {
                Ok(()) => {
                    &&& old(ledger).issuance_of(currency_id) + spec_settpay_amount(amount)
                        <= Balance::MAX
                    &&& forall|c2: CurrencyId, a2: AccountId|
                        #[trigger] final(ledger).balance_of(c2, a2) == old(ledger).balance_of(
                            c2,
                            a2,
                        ) + (if c2 == currency_id && a2 == old(self).settpay_account {
                            spec_settpay_amount(amount)
                        } else {
                            0
                        })
                    &&& forall|c2: CurrencyId|
                        #[trigger] final(ledger).issuance_of(c2) == old(ledger).issuance_of(c2)
                            + (if c2 == currency_id {
                            spec_settpay_amount(amount)
                        } else {
                            0
                        })
                    &&& final(self).events@ == old(self).events@.push(
                        SerpEvent::SerpUpDelivery(amount, currency_id),
                    )
                },
                Err(e) => {
                    &&& e == Error::Overflow
                    &&& old(ledger).issuance_of(currency_id) + spec_settpay_amount(amount)
                        > Balance::MAX
                    &&& *final(self) == *old(self)
                    &&& *final(ledger) == *old(ledger)
                },
            },
    {
        let tenth = amount / 10;
        proof {
            vstd::arithmetic::div_mod::lemma_div_is_ordered(
                amount as int,
                Balance::MAX as int,
                10,
            );
        }
        let six: Balance = 6 * tenth;
        match ledger.deposit(currency_id, self.settpay_account, six) {
            Ok(()) => {},
            Err(e) => {
                return Err(e);
            },
        }
        self.events.push(SerpEvent::SerpUpDelivery(amount, currency_id));
        Ok(())
    }

    /// The charity expansion leg: mint one tenth of the amount to the
    /// charity destination.
    pub fn get_charity_fund_serpup(
        &mut self,
        ledger: &mut Ledger,
        amount: Balance,
        currency_id: CurrencyId,
    ) -> (r: Result<(), Error>)
        requires
            old(ledger).wf(),
        ensures
            final(ledger).wf(),
            spec_same_config(*old(self), *final(self)),
            match r {
                Ok(()) => {
                    &&& old(ledger).issuance_of(currency_id) + spec_charity_amount(amount)
                        <= Balance::MAX
                    &&& forall|c2: CurrencyId, a2: AccountId|
                        #[trigger] final(ledger).balance_of(c2, a2) == old(ledger).balance_of(
                            c2,
                            a2,
                        ) + (if c2 == currency_id && a2 == old(self).charity_fund_account {
                            spec_charity_amount(amount)
                        } else {
                            0
                        })
                    &&& forall|c2: CurrencyId|
                        #[trigger] final(ledger).issuance_of(c2) == old(ledger).issuance_of(c2)
                            + (if c2 == currency_id {
                            spec_charity_amount(amount)
                        } else {
                            0
                        })
                    &&& final(self).events@ == old(self).events@.push(
                        SerpEvent::SerpUpDelivery(amount, currency_id),
                    )
                },
                Err(e) => {
                    &&& e == Error::Overflow
                    &&& old(ledger).issuance_of(currency_id) + spec_charity_amount(amount)
                        > Balance::MAX
                    &&& *final(self) == *old(self)
                    &&& *final(ledger) == *old(ledger)
                },
            },
    {
        let tenth = amount / 10;
        match ledger.deposit(currency_id, self.charity_fund_account, tenth) {
            Ok(()) => {},
            Err(e) => {
                return Err(e);
            },
        }
        self.events.push(SerpEvent::SerpUpDelivery(amount, currency_id));
        Ok(())
    }

    /// The error, if any, with which an expansion declines: an unrecognised
    /// currency, a zero amount, a missing relative price, the combined mint
    /// overflowing the currency's issuance, a missing buy-back quote, or
    /// the venue lacking the native funds.
    pub open spec fn spec_serpup_error(
        self,
        ledger: Ledger,
        dex: Dex,
        oracle: PriceFeed,
        c: CurrencyId,
        amount: Balance,
    ) -> Option<Error> {
        if !self.spec_is_stable(c) {
            Some(Error::InvalidCurrencyType)
        } else if amount == 0 {
            Some(Error::InvalidAmount)
        } else if oracle.spec_relative_price(c, self.native_currency_id) is None {
            Some(Error::InvalidFeedPrice)
        } else if ledger.issuance_of(c) + spec_buyback_amount(amount) + spec_settpay_amount(amount)
            + spec_charity_amount(amount) > Balance::MAX {
            Some(Error::Overflow)
        } else {
            match spec_quote_target(
                dex.rates@,
                seq![c, self.native_currency_id],
                spec_buyback_amount(amount) as Balance,
            ) {
                None => Some(Error::CannotSwap),
                Some(t) => if ledger.balance_of(self.native_currency_id, dex.account) < t {
                    Some(Error::InsufficientBalance)
                } else {
                    None
                },
            }
        }
    }

    /// What a whole expansion does to the ledger: the three destination
    /// shares, computed independently from the same amount.
    pub open spec fn spec_serpup_effects(
        self,
        l0: Ledger,
        l1: Ledger,
        dex: Dex,
        c: CurrencyId,
        amount: Balance,
    ) -> bool {
        match spec_quote_target(
            dex.rates@,
            seq![c, self.native_currency_id],
            spec_buyback_amount(amount) as Balance,
        ) {
            Some(t) => {
                &&& forall|c2: CurrencyId, a2: AccountId|
                    #[trigger] l1.balance_of(c2, a2) == l0.balance_of(c2, a2) + (
                    if c2 == c && a2 == dex.account {
                        spec_buyback_amount(amount)
                    } else {
                        0
                    }) - (if c2 == self.native_currency_id && a2 == dex.account {
                        t as int
                    } else {
                        0
                    }) + (if c2 == c && a2 == self.settpay_account {
                        spec_settpay_amount(amount)
                    } else {
                        0
                    }) + (if c2 == c && a2 == self.charity_fund_account {
                        spec_charity_amount(amount)
                    } else {
                        0
                    })
                &&& forall|c2: CurrencyId|
                    #[trigger] l1.issuance_of(c2) == l0.issuance_of(c2) + (if c2 == c {
                        spec_buyback_amount(amount) + spec_settpay_amount(amount)
                            + spec_charity_amount(amount)
                    } else {
                        0
                    }) - (if c2 == self.native_currency_id {
                        t as int
                    } else {
                        0
                    })
            },
            None => false,
        }
    }

    /// Expand the supply of a stable currency: apportion the amount by
    /// fixed shares to the buy-back, reward and charity destinations, each
    /// share computed independently from the same amount; all or nothing.
    pub fn on_serpup(
        &mut self,
        ledger: &mut Ledger,
        dex: &Dex,
        oracle: &PriceFeed,
        currency_id: CurrencyId,
        amount: Balance,
    ) -> (r: Result<(), Error>)
        requires
            old(ledger).wf(),
            old(self).spec_config_ok(*dex),
        ensures
            final(ledger).wf(),
            spec_same_config(*old(self), *final(self)),
            match r {
                Ok(()) => {
                    &&& old(self).spec_serpup_error(
                        *old(ledger),
                        *dex,
                        *oracle,
                        currency_id,
                        amount,
                    ) is None
                    &&& old(self).spec_serpup_effects(
                        *old(ledger),
                        *final(ledger),
                        *dex,
                        currency_id,
                        amount,
                    )
                    &&& final(self).events@ == old(self).events@.push(
                        SerpEvent::SerpUpDelivery(amount, currency_id),
                    ).push(SerpEvent::SerpUpDelivery(amount, currency_id)).push(
                        SerpEvent::SerpUpDelivery(amount, currency_id),
                    ).push(SerpEvent::SerpUp(amount, currency_id))
                },
                Err(e) => {
                    &&& Some(e) == old(self).spec_serpup_error(
                        *old(ledger),
                        *dex,
                        *oracle,
                        currency_id,
                        amount,
                    )
                    &&& *final(self) == *old(self)
                    &&& *final(ledger) == *old(ledger)
                },
            },
    {
        let ghost l0 = *ledger;
        let ghost s0 = *self;
        if !self.is_stable_currency(currency_id) {
            return Err(Error::InvalidCurrencyType);
        }
        if amount == 0 {
            return Err(Error::InvalidAmount);
        }
        // Decide every failure of the three legs before mutating anything.
        match oracle.get_relative_price(currency_id, self.native_currency_id) {
            Some(_) => {},
            None => {
                return Err(Error::InvalidFeedPrice);
            },
        }
        let tenth = amount / 10;
        proof {
            vstd::arithmetic::div_mod::lemma_div_is_ordered(
                amount as int,
                Balance::MAX as int,
                10,
            );
        }
        let serping: Balance = 3 * tenth;
        let six: Balance = 6 * tenth;
        let total_mint: Balance = serping + six + tenth;
        let iss = ledger.total_issuance(currency_id);
        if total_mint > Balance::MAX - iss {
            return Err(Error::Overflow);
        }
        let mut path: Vec<CurrencyId> = Vec::new();
        path.push(currency_id);
        path.push(self.native_currency_id);
        proof {
            assert(path@ =~= seq![currency_id, self.native_currency_id]);
        }
        let t = match dex.get_swap_target_amount(&path, serping, Some(self.max_slippage)) {
            Some(t) => t,
            None => {
                return Err(Error::CannotSwap);
            },
        };
        if ledger.free_balance(self.native_currency_id, dex.account) < t {
            return Err(Error::InsufficientBalance);
        }
        // Every check passed; the three legs below cannot fail.
        match self.get_buyback_serpup(ledger, dex, oracle, amount, currency_id) {
            Ok(()) => {},
            Err(e) => {
                assert(false);
                return Err(e);
            },
        }
        let ghost l1 = *ledger;
        let ghost s1 = *self;
        match self.get_settpay_serpup(ledger, amount, currency_id) {
            Ok(()) => {},
            Err(e) => {
                proof {
                    assert(l1.issuance_of(currency_id) == l0.issuance_of(currency_id)
                        + serping as int);
                }
                assert(false);
                return Err(e);
            },
        }
        let ghost l2 = *ledger;
        let ghost s2 = *self;
        match self.get_charity_fund_serpup(ledger, amount, currency_id) {
            Ok(()) => {},
            Err(e) => {
                proof {
                    assert(l1.issuance_of(currency_id) == l0.issuance_of(currency_id)
                        + serping as int);
                    assert(l2.issuance_of(currency_id) == l1.issuance_of(currency_id) + six as int);
                }
                assert(false);
                return Err(e);
            },
        }
        self.events.push(SerpEvent::SerpUp(amount, currency_id));
        proof {
            let native = s0.native_currency_id;
            assert forall|c2: CurrencyId, a2: AccountId| #[trigger] ledger.balance_of(c2, a2)
                == l0.balance_of(c2, a2) + (if c2 == currency_id && a2 == dex.account {
                spec_buyback_amount(amount)
            } else {
                0
            }) - (if c2 == native && a2 == dex.account {
                t as int
            } else {
                0
            }) + (if c2 == currency_id && a2 == s0.settpay_account {
                spec_settpay_amount(amount)
            } else {
                0
            }) + (if c2 == currency_id && a2 == s0.charity_fund_account {
                spec_charity_amount(amount)
            } else {
                0
            }) by {
                assert(l1.balance_of(c2, a2) == l0.balance_of(c2, a2) + (
                if c2 == currency_id && a2 == dex.account {
                    spec_buyback_amount(amount)
                } else {
                    0
                }) - (if c2 == native && a2 == dex.account {
                    t as int
                } else {
                    0
                }));
                assert(l2.balance_of(c2, a2) == l1.balance_of(c2, a2) + (
                if c2 == currency_id && a2 == s0.settpay_account {
                    spec_settpay_amount(amount)
                } else {
                    0
                }));
                assert(ledger.balance_of(c2, a2) == l2.balance_of(c2, a2) + (
                if c2 == currency_id && a2 == s0.charity_fund_account {
                    spec_charity_amount(amount)
                } else {
                    0
                }));
            }
            assert forall|c2: CurrencyId| #[trigger] ledger.issuance_of(c2) == l0.issuance_of(c2)
                + (if c2 == currency_id {
                spec_buyback_amount(amount) + spec_settpay_amount(amount) + spec_charity_amount(
                    amount,
                )
            } else {
                0
            }) - (if c2 == native {
                t as int
            } else {
                0
            }) by {
                assert(l1.issuance_of(c2) == l0.issuance_of(c2) + (if c2 == currency_id {
                    spec_buyback_amount(amount)
                } else {
                    0
                }) - (if c2 == native {
                    t as int
                } else {
                    0
                }));
                assert(l2.issuance_of(c2) == l1.issuance_of(c2) + (if c2 == currency_id {
                    spec_settpay_amount(amount)
                } else {
                    0
                }));
                assert(ledger.issuance_of(c2) == l2.issuance_of(c2) + (if c2 == currency_id {
                    spec_charity_amount(amount)
                } else {
                    0
                }));
            }
        }
        Ok(())
    }

    /// The error, if any, with which a contraction declines: an
    /// unrecognised currency, a supply that would fall under its floor, or
    /// the acquisition swap's own error.
    pub open spec fn spec_serpdown_error(
        self,
        ledger: Ledger,
        dex: Dex,
        c: CurrencyId,
        amount: Balance,
    ) -> Option<Error> {
        if !self.spec_is_stable(c) {
            Some(Error::InvalidCurrencyType)
        } else if spec_sat_sub(ledger.issuance_of(c), amount as int) < self.spec_minimum_supply_of(
            c,
        ) as int {
            Some(Error::MinSupplyReached)
        } else if c == self.setter_currency_id {
            self.spec_mint_swap_target_error(
                ledger,
                dex,
                self.native_currency_id,
                self.setter_currency_id,
                None,
                amount,
            )
        } else {
            self.spec_mint_swap_target_error(
                ledger,
                dex,
                self.setter_currency_id,
                c,
                None,
                amount,
            )
        }
    }

    /// What one acquisition swap does to the ledger.
    pub open spec fn spec_mint_swap_target_effects(
        self,
        l0: Ledger,
        l1: Ledger,
        dex: Dex,
        first: CurrencyId,
        last: CurrencyId,
        target: Balance,
    ) -> bool {
        match spec_quote_supply(dex.rates@, seq![first, last], target) {
            Some(s) => {
                &&& forall|c2: CurrencyId, a2: AccountId|
                    #[trigger] l1.balance_of(c2, a2) == l0.balance_of(c2, a2) + (
                    if c2 == first && a2 == dex.account {
                        s as int
                    } else {
                        0
                    }) - (if c2 == last && a2 == dex.account {
                        target as int
                    } else {
                        0
                    }) + (if c2 == last && a2 == self.account {
                        target as int
                    } else {
                        0
                    })
                &&& forall|c2: CurrencyId|
                    #[trigger] l1.issuance_of(c2) == l0.issuance_of(c2) + (if c2 == first {
                        s as int
                    } else {
                        0
                    })
            },
            None => false,
        }
    }

    /// What a contraction does to the ledger: the currency is acquired
    /// through the venue (against freshly minted supply of the paying
    /// currency) and held on the engine's account; it is not burned.
    pub open spec fn spec_serpdown_effects(
        self,
        l0: Ledger,
        l1: Ledger,
        dex: Dex,
        c: CurrencyId,
        amount: Balance,
    ) -> bool {
        if c == self.setter_currency_id {
            self.spec_mint_swap_target_effects(
                l0,
                l1,
                dex,
                self.native_currency_id,
                self.setter_currency_id,
                amount,
            )
        } else {
            self.spec_mint_swap_target_effects(l0, l1, dex, self.setter_currency_id, c, amount)
        }
    }

    /// Contract the supply of a stable currency by acquiring `amount` of
    /// it through the venue: against the native token when the currency is
    /// the settlement currency itself, against the settlement currency
    /// otherwise. The acquired amount is held on the engine's account.
    pub fn on_serpdown(
        &mut self,
        ledger: &mut Ledger,
        dex: &Dex,
        currency_id: CurrencyId,
        amount: Balance,
    ) -> (r: Result<(), Error>)
        requires
            old(ledger).wf(),
            old(self).spec_config_ok(*dex),
        ensures
            final(ledger).wf(),
            spec_same_config(*old(self), *final(self)),
            match r {
                Ok(()) => {
                    &&& old(self).spec_serpdown_error(*old(ledger), *dex, currency_id, amount)
                        is None
                    &&& old(self).spec_serpdown_effects(
                        *old(ledger),
                        *final(ledger),
                        *dex,
                        currency_id,
                        amount,
                    )
                    &&& final(self).events@ == old(self).events@.push(
                        SerpEvent::SerpDown(amount, currency_id),
                    )
                },
                Err(e) => {
                    &&& Some(e) == old(self).spec_serpdown_error(
                        *old(ledger),
                        *dex,
                        currency_id,
                        amount,
                    )
                    &&& *final(self) == *old(self)
                    &&& *final(ledger) == *old(ledger)
                },
            },
    {
        if !self.is_stable_currency(currency_id) {
            return Err(Error::InvalidCurrencyType);
        }
        let total_supply = ledger.total_issuance(currency_id);
        let minimum_supply = self.get_minimum_supply(currency_id);
        let remaining = if total_supply >= amount {
            total_supply - amount
        } else {
            0
        };
        if remaining < minimum_supply {
            return Err(Error::MinSupplyReached);
        }
        let res = if currency_id == self.setter_currency_id {
            self.swap_dinar_to_exact_setter(ledger, dex, amount, None)
        } else {
            self.swap_setter_to_exact_settcurrency(ledger, dex, currency_id, amount, None)
        };
        match res {
            Ok(_) => {},
            Err(e) => {
                return Err(e);
            },
        }
        self.events.push(SerpEvent::SerpDown(amount, currency_id));
        proof {
            if currency_id == self.setter_currency_id {
                assert(seq![self.native_currency_id, self.setter_currency_id].last()
                    == self.setter_currency_id);
            } else {
                assert(seq![self.setter_currency_id, currency_id].last() == currency_id);
            }
        }
        Ok(())
    }

    /// The error, if any, with which one elasticity pass declines: a
    /// missing or zero price, or the dispatched operation's own error with
    /// the computed supply change.
    pub open spec fn spec_serp_tes_error(
        self,
        ledger: Ledger,
        dex: Dex,
        oracle: PriceFeed,
        c: CurrencyId,
    ) -> Option<Error> {
        match (oracle.spec_market_price(c), oracle.spec_peg_price(c)) {
            (Some(m), Some(p)) => {
                if m == 0 || p == 0 {
                    Some(Error::InvalidFeedPrice)
                } else if m > p {
                    self.spec_serpup_error(
                        ledger,
                        dex,
                        oracle,
                        c,
                        spec_supply_change(m as int, p as int, ledger.issuance_of(c)) as Balance,
                    )
                } else if m < p {
                    self.spec_serpdown_error(
                        ledger,
                        dex,
                        c,
                        spec_supply_change(p as int, m as int, ledger.issuance_of(c)) as Balance,
                    )
                } else {
                    None
                }
            },
            _ => Some(Error::InvalidFeedPrice),
        }
    }

    /// What one successful elasticity pass does: expansion when the market
    /// is over the peg, contraction when under, nothing when equal; a pass
    /// event is recorded regardless of the branch taken.
    pub open spec fn spec_serp_tes_outcome(
        self,
        s1: SerpTes,
        l0: Ledger,
        l1: Ledger,
        dex: Dex,
        oracle: PriceFeed,
        c: CurrencyId,
    ) -> bool {
        match (oracle.spec_market_price(c), oracle.spec_peg_price(c)) {
            (Some(m), Some(p)) => {
                if m > p {
                    let amount = spec_supply_change(
                        m as int,
                        p as int,
                        l0.issuance_of(c),
                    ) as Balance;
                    &&& self.spec_serpup_effects(l0, l1, dex, c, amount)
                    &&& s1.events@ == self.events@.push(
                        SerpEvent::SerpUpDelivery(amount, c),
                    ).push(SerpEvent::SerpUpDelivery(amount, c)).push(
                        SerpEvent::SerpUpDelivery(amount, c),
                    ).push(SerpEvent::SerpUp(amount, c)).push(SerpEvent::SerpTes(c))
                } else if m < p {
                    let amount = spec_supply_change(
                        p as int,
                        m as int,
                        l0.issuance_of(c),
                    ) as Balance;
                    &&& self.spec_serpdown_effects(l0, l1, dex, c, amount)
                    &&& s1.events@ == self.events@.push(SerpEvent::SerpDown(amount, c)).push(
                        SerpEvent::SerpTes(c),
                    )
                } else {
                    &&& l1 == l0
                    &&& s1.events@ == self.events@.push(SerpEvent::SerpTes(c))
                }
            },
            _ => false,
        }
    }

    /// One elasticity pass for one currency: read the market and peg
    /// prices, compute the supply change from their ratio, and dispatch
    /// expansion or contraction; a zero or missing price skips the pass.
    pub fn serp_tes(
        &mut self,
        ledger: &mut Ledger,
        dex: &Dex,
        oracle: &PriceFeed,
        currency_id: CurrencyId,
    ) -> (r: Result<(), Error>)
        requires
            old(ledger).wf(),
            old(self).spec_config_ok(*dex),
        ensures
            final(ledger).wf(),
            spec_same_config(*old(self), *final(self)),
            match r {
                Ok(()) => {
                    &&& old(self).spec_serp_tes_error(*old(ledger), *dex, *oracle, currency_id)
                        is None
                    &&& old(self).spec_serp_tes_outcome(
                        *final(self),
                        *old(ledger),
                        *final(ledger),
                        *dex,
                        *oracle,
                        currency_id,
                    )
                },
                Err(e) => {
                    &&& Some(e) == old(self).spec_serp_tes_error(
                        *old(ledger),
                        *dex,
                        *oracle,
                        currency_id,
                    )
                    &&& *final(self) == *old(self)
                    &&& *final(ledger) == *old(ledger)
                },
            },
    {
        let market_price = match oracle.get_market_price(currency_id) {
            Some(p) => p,
            None => {
                return Err(Error::InvalidFeedPrice);
            },
        };
        let peg_price = match oracle.get_peg_price(currency_id) {
            Some(p) => p,
            None => {
                return Err(Error::InvalidFeedPrice);
            },
        };
        if market_price == 0 || peg_price == 0 {
            return Err(Error::InvalidFeedPrice);
        }
        let total_supply = ledger.total_issuance(currency_id);
        if market_price > peg_price {
            let expand_by = get_supply_change(market_price, peg_price, total_supply);
            match self.on_serpup(ledger, dex, oracle, currency_id, expand_by) {
                Ok(()) => {},
                Err(e) => {
                    return Err(e);
                },
            }
        } else if market_price < peg_price {
            let contract_by = get_supply_change(peg_price, market_price, total_supply);
            match self.on_serpdown(ledger, dex, currency_id, contract_by) {
                Ok(()) => {},
                Err(e) => {
                    return Err(e);
                },
            }
        }
        self.events.push(SerpEvent::SerpTes(currency_id));
        Ok(())
    }

    /// The elasticity pass for the settlement currency.
    pub fn setter_on_tes(&mut self, ledger: &mut Ledger, dex: &Dex, oracle: &PriceFeed) -> (r:
        Result<(), Error>)
        requires
            old(ledger).wf(),
            old(self).spec_config_ok(*dex),
        ensures
            final(ledger).wf(),
            spec_same_config(*old(self), *final(self)),
            spec_tes_pass(
                *old(self),
                *final(self),
                *old(ledger),
                *final(ledger),
                *dex,
                *oracle,
                old(self).setter_currency_id,
            ),
            r is Err ==> Some(r->Err_0) == old(self).spec_serp_tes_error(
                *old(ledger),
                *dex,
                *oracle,
                old(self).setter_currency_id,
            ),
            r is Ok ==> old(self).spec_serp_tes_error(
                *old(ledger),
                *dex,
                *oracle,
                old(self).setter_currency_id,
            ) is None,
    {
        let c = self.setter_currency_id;
        self.serp_tes(ledger, dex, oracle, c)
    }

    /// The elasticity pass for the dollar-pegged currency.
    pub fn usdj_on_tes(&mut self, ledger: &mut Ledger, dex: &Dex, oracle: &PriceFeed) -> (r: Result<
        (),
        Error,
    >)
        requires
            old(ledger).wf(),
            old(self).spec_config_ok(*dex),
        ensures
            final(ledger).wf(),
            spec_same_config(*old(self), *final(self)),
            spec_tes_pass(
                *old(self),
                *final(self),
                *old(ledger),
                *final(ledger),
                *dex,
                *oracle,
                old(self).settusd_currency_id,
            ),
            r is Err ==> Some(r->Err_0) == old(self).spec_serp_tes_error(
                *old(ledger),
                *dex,
                *oracle,
                old(self).settusd_currency_id,
            ),
            r is Ok ==> old(self).spec_serp_tes_error(
                *old(ledger),
                *dex,
                *oracle,
                old(self).settusd_currency_id,
            ) is None,
    {
        let c = self.settusd_currency_id;
        self.serp_tes(ledger, dex, oracle, c)
    }

    /// The per-cycle trigger: on the configured cadence, run the
    /// settlement-currency pass and then the dollar-pegged pass, each
    /// ignoring its own failure so that a missing feed for one currency
    /// never blocks the other; off cadence, do nothing. Returns how many
    /// passes ran.
    pub fn on_initialize(
        &mut self,
        ledger: &mut Ledger,
        dex: &Dex,
        oracle: &PriceFeed,
        now: u64,
    ) -> (r: u32)
        requires
            old(ledger).wf(),
            old(self).spec_config_ok(*dex),
            old(self).serp_tes_schedule >= 1,
        ensures
            final(ledger).wf(),
            spec_same_config(*old(self), *final(self)),
            r == if now % old(self).serp_tes_schedule == 0 {
                2u32
            } else {
                0u32
            },
            now % old(self).serp_tes_schedule != 0 ==> *final(self) == *old(self) && *final(ledger)
                == *old(ledger),
            now % old(self).serp_tes_schedule == 0 ==> exists|mid_s: SerpTes, mid_l: Ledger|
                #[trigger] spec_tes_pass(
                    *old(self),
                    mid_s,
                    *old(ledger),
                    mid_l,
                    *dex,
                    *oracle,
                    old(self).setter_currency_id,
                ) && spec_tes_pass(
                    mid_s,
                    *final(self),
                    mid_l,
                    *final(ledger),
                    *dex,
                    *oracle,
                    old(self).settusd_currency_id,
                ),
    {
        if now % self.serp_tes_schedule == 0 {
            match self.setter_on_tes(ledger, dex, oracle) {
                Ok(()) => {},
                Err(_) => {},
            }
            let ghost mid_s = *self;
            let ghost mid_l = *ledger;
            match self.usdj_on_tes(ledger, dex, oracle) {
                Ok(()) => {},
                Err(_) => {},
            }
            proof {
                assert(spec_tes_pass(
                    *old(self),
                    mid_s,
                    *old(ledger),
                    mid_l,
                    *dex,
                    *oracle,
                    old(self).setter_currency_id,
                ));
                assert(spec_tes_pass(
                    mid_s,
                    *self,
                    mid_l,
                    *ledger,
                    *dex,
                    *oracle,
                    old(self).settusd_currency_id,
                ));
            }
            2
        } else {
            0
        }
    }
}

/// Both engines carry the same configuration; only the event log may
/// differ.
pub open spec fn spec_same_config(s0: SerpTes, s1: SerpTes) -> bool {
    &&& s1.stable_currency_ids@ == s0.stable_currency_ids@
    &&& s1.native_currency_id == s0.native_currency_id
    &&& s1.setter_currency_id == s0.setter_currency_id
    &&& s1.settusd_currency_id == s0.settusd_currency_id
    &&& s1.dirham_currency_id == s0.dirham_currency_id
    &&& s1.settpay_account == s0.settpay_account
    &&& s1.charity_fund_account == s0.charity_fund_account
    &&& s1.account == s0.account
    &&& s1.serp_tes_schedule == s0.serp_tes_schedule
    &&& s1.max_slippage == s0.max_slippage
    &&& s1.minimum_supply@ == s0.minimum_supply@
}

/// One elasticity pass either succeeded with its documented outcome or
/// declined with its documented error and changed nothing.
pub open spec fn spec_tes_pass(
    s0: SerpTes,
    s1: SerpTes,
    l0: Ledger,
    l1: Ledger,
    dex: Dex,
    oracle: PriceFeed,
    c: CurrencyId,
) -> bool {
    if s0.spec_serp_tes_error(l0, dex, oracle, c) is None {
        s0.spec_serp_tes_outcome(s1, l0, l1, dex, oracle, c) && spec_same_config(s0, s1)
    } else {
        s1 == s0 && l1 == l0
    }
}

/// Whether a custom path starts and ends where the operation demands; a
/// missing path always does, since the default is used.
pub open spec fn spec_path_ok(
    maybe_path: Option<Seq<CurrencyId>>,
    first: CurrencyId,
    last: CurrencyId,
) -> bool {
    match maybe_path {
        None => true,
        Some(p) => p.len() >= 2 && p[0] == first && p[p.len() - 1] == last,
    }
}

/// The path a swap runs along: the caller's, or the two endpoints.
pub open spec fn spec_resolved_path(
    maybe_path: Option<Seq<CurrencyId>>,
    first: CurrencyId,
    last: CurrencyId,
) -> Seq<CurrencyId> {
    match maybe_path {
        None => seq![first, last],
        Some(p) => p,
    }
}

} // verus!
