//! The swap venue, modelled as explicit injected state: a table of
//! constant exchange rates and an account on the balance ledger holding
//! the venue's inventory. A swap moves the supplied amount from the caller
//! to the venue and the quoted target from the venue to the caller, so
//! every swap conserves issuance.
//!
//! A constant-rate venue has no price impact, so the maximum-slippage
//! bound the callers carry never binds here; the quotes depend on the
//! rate table alone.

use vstd::prelude::*;

use crate::lookup::{
    first_match, lemma_first_match_found, lemma_first_match_skip,
};
use crate::currency::CurrencyId;
use crate::ledger::Ledger;
use crate::{AccountId, Balance, Error, Ratio};

verus! {

/// One constant rate: `den` units of the supply currency buy `num` units
/// of the target currency.
#[derive(Clone, Copy, Debug, PartialEq, Eq, Structural)]
pub struct DexRate {
    pub supply_currency: CurrencyId,
    pub target_currency: CurrencyId,
    pub num: Balance,
    pub den: Balance,
}

/// Whether a rate entry quotes the given ordered pair.
pub open spec fn rate_key(sc: CurrencyId, tc: CurrencyId) -> spec_fn(DexRate) -> bool {
    |e: DexRate| e.supply_currency == sc && e.target_currency == tc
}

/// The swap venue.
pub struct Dex {
    pub account: AccountId,
    pub rates: Vec<DexRate>,
}

/// The rate quoted for an ordered pair, if any.
pub open spec fn spec_rate_in(s: Seq<DexRate>, sc: CurrencyId, tc: CurrencyId) -> Option<
    (Balance, Balance),
> {
    match first_match(s, rate_key(sc, tc)) {
        Some(e) => Some((e.num, e.den)),
        None => None,
    }
}

/// The target bought along `path` by supplying `supply`, each hop rounded
/// down; nothing when a hop has no rate, a zero denominator, or the
/// intermediate product leaves the balance range.
pub open spec fn spec_quote_target(
    rates: Seq<DexRate>,
    path: Seq<CurrencyId>,
    supply: Balance,
) -> Option<Balance>
    decreases path.len(),
{
    if path.len() < 2 {
        None
    } else {
        match spec_rate_in(rates, path[0], path[1]) {
            None => None,
            Some((n, d)) => if d == 0 || supply * n > Balance::MAX {
                None
            } else {
                let t = ((supply * n) / d as int) as Balance;
                if path.len() == 2 {
                    Some(t)
                } else {
                    spec_quote_target(rates, path.drop_first(), t)
                }
            },
        }
    }
}

/// The supply needed along `path` to buy exactly `target`, each hop
/// rounded up; nothing when a hop has no rate, a zero numerator, or the
/// intermediate product leaves the balance range.
pub open spec fn spec_quote_supply(
    rates: Seq<DexRate>,
    path: Seq<CurrencyId>,
    target: Balance,
) -> Option<Balance>
    decreases path.len(),
{
    if path.len() < 2 {
        None
    } else {
        let k = path.len() - 1;
        match spec_rate_in(rates, path[k - 1], path[k]) {
            None => None,
            Some((n, d)) => if n == 0 || target * d + n - 1 > Balance::MAX {
                None
            } else {
                let s = ((target * d + n - 1) / n as int) as Balance;
                if path.len() == 2 {
                    Some(s)
                } else {
                    spec_quote_supply(rates, path.drop_last(), s)
                }
            },
        }
    }
}

impl Dex {
    /// A venue trading from the given ledger account at the given rates.
    pub fn new(account: AccountId, rates: Vec<DexRate>) -> (r: Dex)
        ensures
            r.account == account,
            r.rates@ == rates@,
    {
        Dex { account, rates }
    }

    fn find_rate(&self, sc: CurrencyId, tc: CurrencyId) -> (r: Option<(Balance, Balance)>)
        ensures
            r == spec_rate_in(self.rates@, sc, tc),
    {
        let n = self.rates.len();
        let mut i: usize = 0;
        proof {
            assert(self.rates@.subrange(0, n as int) =~= self.rates@);
        }
        while i < n
            invariant
                i <= n,
                n == self.rates@.len(),
                first_match(self.rates@, rate_key(sc, tc)) == first_match(
                    self.rates@.subrange(i as int, n as int),
                    rate_key(sc, tc),
                ),
            decreases n - i,
        {
            if self.rates[i].supply_currency == sc && self.rates[i].target_currency == tc {
                proof {
                    lemma_first_match_found(self.rates@, rate_key(sc, tc), i as int);
                }
                return Some((self.rates[i].num, self.rates[i].den));
            }
            proof {
                lemma_first_match_skip(self.rates@, rate_key(sc, tc), i as int);
            }
            i = i + 1;
        }
        proof {
            assert(self.rates@.subrange(n as int, n as int).len() == 0);
        }
        None
    }

    /// The target amount bought by supplying `supply_amount` along `path`.
    /// The venue's rates are constant, so the slippage bound never binds.
    pub fn get_swap_target_amount(
        &self,
        path: &Vec<CurrencyId>,
        supply_amount: Balance,
        _price_impact_limit: Option<Ratio>,
    ) -> (r: Option<Balance>)
        ensures
            r == spec_quote_target(self.rates@, path@, supply_amount),
    {
        let n = path.len();
        if n < 2 {
            return None;
        }
        let mut amt = supply_amount;
        let mut i: usize = 0;
        proof {
            assert(path@.subrange(0, n as int) =~= path@);
        }
        while i < n - 1
            invariant
                i <= n - 1,
                n == path@.len(),
                n >= 2,
                spec_quote_target(self.rates@, path@, supply_amount) == spec_quote_target(
                    self.rates@,
                    path@.subrange(i as int, n as int),
                    amt,
                ) || (i == n - 1),
                i == n - 1 ==> spec_quote_target(self.rates@, path@, supply_amount) == Some(amt),
                i < n - 1 ==> spec_quote_target(self.rates@, path@, supply_amount)
                    == spec_quote_target(self.rates@, path@.subrange(i as int, n as int), amt),
            decreases n - 1 - i,
        {
            let ghost sub = path@.subrange(i as int, n as int);
            proof {
                assert(sub[0] == path@[i as int]);
                assert(sub[1] == path@[i as int + 1]);
            }
            let (num, den) = match self.find_rate(path[i], path[i + 1]) {
                Some(r) => r,
                None => {
                    return None;
                },
            };
            if den == 0 {
                return None;
            }
            let scaled = match amt.checked_mul(num) {
                Some(x) => x,
                None => {
                    return None;
                },
            };
            let next = scaled / den;
            proof {
                if i as int + 1 < n - 1 {
                    assert(sub.drop_first() =~= path@.subrange(i as int + 1, n as int));
                }
            }
            amt = next;
            i = i + 1;
        }
        Some(amt)
    }

    /// The supply needed to buy exactly `target_amount` along `path`.
    pub fn get_swap_supply_amount(
        &self,
        path: &Vec<CurrencyId>,
        target_amount: Balance,
        _price_impact_limit: Option<Ratio>,
    ) -> (r: Option<Balance>)
        ensures
            r == spec_quote_supply(self.rates@, path@, target_amount),
    {
        let n = path.len();
        if n < 2 {
            return None;
        }
        let mut amt = target_amount;
        let mut j: usize = n - 1;
        proof {
            assert(path@.subrange(0, n as int) =~= path@);
        }
        while j > 1
            invariant
                1 <= j <= n - 1,
                n == path@.len(),
                n >= 2,
                spec_quote_supply(self.rates@, path@, target_amount) == spec_quote_supply(
                    self.rates@,
                    path@.subrange(0, j as int + 1),
                    amt,
                ),
            decreases j,
        {
            let ghost sub = path@.subrange(0, j as int + 1);
            proof {
                assert(sub.len() == j as int + 1);
                assert(sub[j as int - 1] == path@[j as int - 1]);
                assert(sub[j as int] == path@[j as int]);
            }
            let (num, den) = match self.find_rate(path[j - 1], path[j]) {
                Some(r) => r,
                None => {
                    return None;
                },
            };
            if num == 0 {
                return None;
            }
            let scaled = match amt.checked_mul(den) {
                Some(x) => x,
                None => {
                    return None;
                },
            };
            let rounded = match scaled.checked_add(num - 1) {
                Some(x) => x,
                None => {
                    return None;
                },
            };
            let next = rounded / num;
            proof {
                assert(sub.drop_last() =~= path@.subrange(0, j as int));
            }
            amt = next;
            j = j - 1;
        }
        // One hop left: path[0] -> path[1].
        let ghost sub = path@.subrange(0, 2);
        proof {
            assert(sub[0] == path@[0]);
            assert(sub[1] == path@[1]);
        }
        let (num, den) = match self.find_rate(path[0], path[1]) {
            Some(r) => r,
            None => {
                return None;
            },
        };
        if num == 0 {
            return None;
        }
        let scaled = match amt.checked_mul(den) {
            Some(x) => x,
            None => {
                return None;
            },
        };
        let rounded = match scaled.checked_add(num - 1) {
            Some(x) => x,
            None => {
                return None;
            },
        };
        Some(rounded / num)
    }

    /// The error, if any, with which a swap of exact supply declines.
    pub open spec fn spec_swap_exact_supply_error(
        self,
        ledger: Ledger,
        who: AccountId,
        path: Seq<CurrencyId>,
        supply_amount: Balance,
        min_target_amount: Balance,
    ) -> Option<Error> {
        match spec_quote_target(self.rates@, path, supply_amount) {
            None => Some(Error::CannotSwap),
            Some(t) => if t < min_target_amount {
                Some(Error::CannotSwap)
            } else if ledger.balance_of(path[0], who) < supply_amount {
                Some(Error::InsufficientBalance)
            } else if ledger.balance_of(path.last(), self.account) + (if path.last() == path[0] {
                supply_amount as int
            } else {
                0
            }) < t {
                Some(Error::InsufficientBalance)
            } else {
                None
            },
        }
    }

    /// Swap exactly `supply_amount` of the path's first currency for its
    /// last: the supplied amount moves to the venue, the quoted target to
    /// the caller. Declines when there is no quote, the quote is under
    /// `min_target_amount`, or either side lacks the funds.
    pub fn swap_with_exact_supply(
        &self,
        ledger: &mut Ledger,
        who: AccountId,
        path: &Vec<CurrencyId>,
        supply_amount: Balance,
        min_target_amount: Balance,
        price_impact_limit: Option<Ratio>,
    ) -> (r: Result<Balance, Error>)
        requires
            old(ledger).wf(),
            who != self.account,
        ensures
            final(ledger).wf(),
            match r {
                Ok(t) => {
                    &&& Some(t) == spec_quote_target(self.rates@, path@, supply_amount)
                    &&& self.spec_swap_exact_supply_error(
                        *old(ledger),
                        who,
                        path@,
                        supply_amount,
                        min_target_amount,
                    ) is None
                    &&& forall|c2: CurrencyId, a2: AccountId|
                        #[trigger] final(ledger).balance_of(c2, a2) == old(ledger).balance_of(
                            c2,
                            a2,
                        ) - (if c2 == path@[0] && a2 == who {
                            supply_amount as int
                        } else {
                            0
                        }) + (if c2 == path@[0] && a2 == self.account {
                            supply_amount as int
                        } else {
                            0
                        }) - (if c2 == path@.last() && a2 == self.account {
                            t as int
                        } else {
                            0
                        }) + (if c2 == path@.last() && a2 == who {
                            t as int
                        } else {
                            0
                        })
                    &&& forall|c2: CurrencyId|
                        #[trigger] final(ledger).issuance_of(c2) == old(ledger).issuance_of(c2)
                },
                Err(e) => {
                    &&& Some(e) == self.spec_swap_exact_supply_error(
                        *old(ledger),
                        who,
                        path@,
                        supply_amount,
                        min_target_amount,
                    )
                    &&& *final(ledger) == *old(ledger)
                },
            },
    {
        let ghost l0 = *ledger;
        let t = match self.get_swap_target_amount(path, supply_amount, price_impact_limit) {
            Some(t) => t,
            None => {
                return Err(Error::CannotSwap);
            },
        };
        if t < min_target_amount {
            return Err(Error::CannotSwap);
        }
        let first = path[0];
        let last = path[path.len() - 1];
        if ledger.free_balance(first, who) < supply_amount {
            return Err(Error::InsufficientBalance);
        }
        let dex_bal = ledger.free_balance(last, self.account);
        let enough: bool = if last == first {
            if t <= dex_bal {
                true
            } else {
                t - dex_bal <= supply_amount
            }
        } else {
            t <= dex_bal
        };
        if !enough {
            return Err(Error::InsufficientBalance);
        }
        match ledger.transfer(first, who, self.account, supply_amount) {
            Ok(()) => {},
            Err(e) => {
                assert(false);
                return Err(e);
            },
        }
        let ghost l1 = *ledger;
        match ledger.transfer(last, self.account, who, t) {
            Ok(()) => {},
            Err(e) => {
                proof {
                    assert(l1.balance_of(last, self.account) == l0.balance_of(last, self.account)
                        + (if last == first {
                        supply_amount as int
                    } else {
                        0
                    }));
                }
                assert(false);
                return Err(e);
            },
        }
        proof {
            assert forall|c2: CurrencyId, a2: AccountId| #[trigger] ledger.balance_of(c2, a2)
                == l0.balance_of(c2, a2) - (if c2 == path@[0] && a2 == who {
                supply_amount as int
            } else {
                0
            }) + (if c2 == path@[0] && a2 == self.account {
                supply_amount as int
            } else {
                0
            }) - (if c2 == path@.last() && a2 == self.account {
                t as int
            } else {
                0
            }) + (if c2 == path@.last() && a2 == who {
                t as int
            } else {
                0
            }) by {
                assert(l1.balance_of(c2, a2) == l0.balance_of(c2, a2) - (
                if c2 == first && a2 == who {
                    supply_amount as int
                } else {
                    0
                }) + (if c2 == first && a2 == self.account {
                    supply_amount as int
                } else {
                    0
                }));
                assert(ledger.balance_of(c2, a2) == l1.balance_of(c2, a2) - (
                if c2 == last && a2 == self.account {
                    t as int
                } else {
                    0
                }) + (if c2 == last && a2 == who {
                    t as int
                } else {
                    0
                }));
            }
            assert forall|c2: CurrencyId| #[trigger] ledger.issuance_of(c2) == l0.issuance_of(
                c2,
            ) by {
                assert(l1.issuance_of(c2) == l0.issuance_of(c2));
                assert(ledger.issuance_of(c2) == l1.issuance_of(c2));
            }
        }
        Ok(t)
    }

    /// The error, if any, with which a swap for an exact target declines.
    pub open spec fn spec_swap_exact_target_error(
        self,
        ledger: Ledger,
        who: AccountId,
        path: Seq<CurrencyId>,
        target_amount: Balance,
        max_supply_amount: Balance,
    ) -> Option<Error> {
        match spec_quote_supply(self.rates@, path, target_amount) {
            None => Some(Error::CannotSwap),
            Some(s) => if s > max_supply_amount {
                Some(Error::CannotSwap)
            } else if ledger.balance_of(path[0], who) < s {
                Some(Error::InsufficientBalance)
            } else if ledger.balance_of(path.last(), self.account) + (if path.last() == path[0] {
                s as int
            } else {
                0
            }) < target_amount {
                Some(Error::InsufficientBalance)
            } else {
                None
            },
        }
    }

    /// Swap for exactly `target_amount` of the path's last currency: the
    /// quoted supply moves to the venue, the target to the caller.
    /// Declines when there is no quote, the quote exceeds
    /// `max_supply_amount`, or either side lacks the funds.
    pub fn swap_with_exact_target(
        &self,
        ledger: &mut Ledger,
        who: AccountId,
        path: &Vec<CurrencyId>,
        target_amount: Balance,
        max_supply_amount: Balance,
        price_impact_limit: Option<Ratio>,
    ) -> (r: Result<Balance, Error>)
        requires
            old(ledger).wf(),
            who != self.account,
        ensures
            final(ledger).wf(),
            match r {
                Ok(s) => {
                    &&& Some(s) == spec_quote_supply(self.rates@, path@, target_amount)
                    &&& self.spec_swap_exact_target_error(
                        *old(ledger),
                        who,
                        path@,
                        target_amount,
                        max_supply_amount,
                    ) is None
                    &&& forall|c2: CurrencyId, a2: AccountId|
                        #[trigger] final(ledger).balance_of(c2, a2) == old(ledger).balance_of(
                            c2,
                            a2,
                        ) - (if c2 == path@[0] && a2 == who {
                            s as int
                        } else {
                            0
                        }) + (if c2 == path@[0] && a2 == self.account {
                            s as int
                        } else {
                            0
                        }) - (if c2 == path@.last() && a2 == self.account {
                            target_amount as int
                        } else {
                            0
                        }) + (if c2 == path@.last() && a2 == who {
                            target_amount as int
                        } else {
                            0
                        })
                    &&& forall|c2: CurrencyId|
                        #[trigger] final(ledger).issuance_of(c2) == old(ledger).issuance_of(c2)
                },
                Err(e) => {
                    &&& Some(e) == self.spec_swap_exact_target_error(
                        *old(ledger),
                        who,
                        path@,
                        target_amount,
                        max_supply_amount,
                    )
                    &&& *final(ledger) == *old(ledger)
                },
            },
    {
        let ghost l0 = *ledger;
        let s = match self.get_swap_supply_amount(path, target_amount, price_impact_limit) {
            Some(s) => s,
            None => {
                return Err(Error::CannotSwap);
            },
        };
        if s > max_supply_amount {
            return Err(Error::CannotSwap);
        }
        let first = path[0];
        let last = path[path.len() - 1];
        if ledger.free_balance(first, who) < s {
            return Err(Error::InsufficientBalance);
        }
        let dex_bal = ledger.free_balance(last, self.account);
        let enough: bool = if last == first {
            if target_amount <= dex_bal {
                true
            } else {
                target_amount - dex_bal <= s
            }
        } else {
            target_amount <= dex_bal
        };
        if !enough {
            return Err(Error::InsufficientBalance);
        }
        match ledger.transfer(first, who, self.account, s) {
            Ok(()) => {},
            Err(e) => {
                assert(false);
                return Err(e);
            },
        }
        let ghost l1 = *ledger;
        match ledger.transfer(last, self.account, who, target_amount) {
            Ok(()) => {},
            Err(e) => {
                proof {
                    assert(l1.balance_of(last, self.account) == l0.balance_of(last, self.account)
                        + (if last == first {
                        s as int
                    } else {
                        0
                    }));
                }
                assert(false);
                return Err(e);
            },
        }
        proof {
            assert forall|c2: CurrencyId, a2: AccountId| #[trigger] ledger.balance_of(c2, a2)
                == l0.balance_of(c2, a2) - (if c2 == path@[0] && a2 == who {
                s as int
            } else {
                0
            }) + (if c2 == path@[0] && a2 == self.account {
                s as int
            } else {
                0
            }) - (if c2 == path@.last() && a2 == self.account {
                target_amount as int
            } else {
                0
            }) + (if c2 == path@.last() && a2 == who {
                target_amount as int
            } else {
                0
            }) by {
                assert(l1.balance_of(c2, a2) == l0.balance_of(c2, a2) - (
                if c2 == first && a2 == who {
                    s as int
                } else {
                    0
                }) + (if c2 == first && a2 == self.account {
                    s as int
                } else {
                    0
                }));
                assert(ledger.balance_of(c2, a2) == l1.balance_of(c2, a2) - (
                if c2 == last && a2 == self.account {
                    target_amount as int
                } else {
                    0
                }) + (if c2 == last && a2 == who {
                    target_amount as int
                } else {
                    0
                }));
            }
            assert forall|c2: CurrencyId| #[trigger] ledger.issuance_of(c2) == l0.issuance_of(
                c2,
            ) by {
                assert(l1.issuance_of(c2) == l0.issuance_of(c2));
                assert(ledger.issuance_of(c2) == l1.issuance_of(c2));
            }
        }
        Ok(s)
    }
}

} // verus!
