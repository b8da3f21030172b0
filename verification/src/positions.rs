//! The collateralised position ledger.
//!
//! One position per (currency, account) records the collateral deposited
//! (`reserve`) and the debt issued against it (`standard`). A parallel
//! totals store aggregates both fields per currency, and a consumer count
//! per account gates account reaping. The well-formedness invariant keeps
//! three facts at all times: keys are unique, no all-zero record persists,
//! and every currency's totals equal the sum of its positions.

use vstd::prelude::*;

use crate::sums::{
    lemma_sum_by_nonneg, lemma_sum_by_only, lemma_sum_by_push, lemma_sum_by_remove,
    lemma_sum_by_single_le, lemma_sum_by_update, lemma_sum_by_zero, sum_by,
};
use crate::currency::CurrencyId;
use crate::ledger::Ledger;
use crate::{AccountId, Amount, Balance, Error};

verus! {

/// A collateralised debt record: collateral deposited and debt issued.
#[derive(Clone, Copy, Debug, PartialEq, Eq, Structural)]
pub struct Position {
    pub reserve: Balance,
    pub standard: Balance,
}

/// One account's position in one currency.
#[derive(Clone, Copy, Debug, PartialEq, Eq, Structural)]
pub struct PositionEntry {
    pub currency: CurrencyId,
    pub account: AccountId,
    pub reserve: Balance,
    pub standard: Balance,
}

/// The aggregate of all positions of one currency.
#[derive(Clone, Copy, Debug, PartialEq, Eq, Structural)]
pub struct TotalsEntry {
    pub currency: CurrencyId,
    pub reserve: Balance,
    pub standard: Balance,
}

/// The number of live position records of one account.
#[derive(Clone, Copy, Debug, PartialEq, Eq, Structural)]
pub struct ConsumerEntry {
    pub account: AccountId,
    pub count: u32,
}

/// What the position ledger announces.
#[derive(Clone, Copy, Debug, PartialEq, Eq, Structural)]
pub enum SettmintEvent {
    /// A position was adjusted: account, currency, reserve delta, standard delta.
    PositionUpdated(AccountId, CurrencyId, Amount, Amount),
    /// A whole position moved from the first account to the second.
    TransferPosition(AccountId, AccountId, CurrencyId),
}

/// Contribution of a position entry to one key's reserve.
pub open spec fn reserve_contrib(c: CurrencyId, a: AccountId) -> spec_fn(PositionEntry) -> int {
    |e: PositionEntry| if e.currency == c && e.account == a {
        e.reserve as int
    } else {
        0
    }
}

/// Contribution of a position entry to one key's standard.
pub open spec fn standard_contrib(c: CurrencyId, a: AccountId) -> spec_fn(PositionEntry) -> int {
    |e: PositionEntry| if e.currency == c && e.account == a {
        e.standard as int
    } else {
        0
    }
}

/// Contribution of a position entry to its currency's reserve sum.
pub open spec fn currency_reserve_contrib(c: CurrencyId) -> spec_fn(PositionEntry) -> int {
    |e: PositionEntry| if e.currency == c {
        e.reserve as int
    } else {
        0
    }
}

/// Contribution of a position entry to its currency's standard sum.
pub open spec fn currency_standard_contrib(c: CurrencyId) -> spec_fn(PositionEntry) -> int {
    |e: PositionEntry| if e.currency == c {
        e.standard as int
    } else {
        0
    }
}

/// Contribution of a totals entry to one currency's reserve total.
pub open spec fn totals_reserve_contrib(c: CurrencyId) -> spec_fn(TotalsEntry) -> int {
    |e: TotalsEntry| if e.currency == c {
        e.reserve as int
    } else {
        0
    }
}

/// Contribution of a totals entry to one currency's standard total.
pub open spec fn totals_standard_contrib(c: CurrencyId) -> spec_fn(TotalsEntry) -> int {
    |e: TotalsEntry| if e.currency == c {
        e.standard as int
    } else {
        0
    }
}

/// Contribution of a consumer entry to one account's consumer count.
pub open spec fn consumer_contrib(a: AccountId) -> spec_fn(ConsumerEntry) -> int {
    |e: ConsumerEntry| if e.account == a {
        e.count as int
    } else {
        0
    }
}

/// No two position entries carry the same (currency, account) key.
pub open spec fn unique_position_keys(s: Seq<PositionEntry>) -> bool {
    forall|i: int, j: int| #![trigger s[i], s[j]]
        0 <= i < s.len() && 0 <= j < s.len() && i != j ==> !(s[i].currency == s[j].currency
            && s[i].account == s[j].account)
}

/// No two totals entries carry the same currency.
pub open spec fn unique_totals_keys(s: Seq<TotalsEntry>) -> bool {
    forall|i: int, j: int| #![trigger s[i], s[j]]
        0 <= i < s.len() && 0 <= j < s.len() && i != j ==> s[i].currency != s[j].currency
}

/// No two consumer entries carry the same account.
pub open spec fn unique_consumer_keys(s: Seq<ConsumerEntry>) -> bool {
    forall|i: int, j: int| #![trigger s[i], s[j]]
        0 <= i < s.len() && 0 <= j < s.len() && i != j ==> s[i].account != s[j].account
}

/// No stored position record is all zero.
pub open spec fn no_zero_positions(s: Seq<PositionEntry>) -> bool {
    forall|i: int|
        0 <= i < s.len() ==> (#[trigger] s[i]).reserve > 0 || s[i].standard > 0
}

/// The position ledger with its totals, consumer counts and event log.
pub struct SettmintManager {
    pub positions: Vec<PositionEntry>,
    pub totals: Vec<TotalsEntry>,
    pub consumers: Vec<ConsumerEntry>,
    pub events: Vec<SettmintEvent>,
    /// The module's own ledger account, holding the moved collateral.
    pub account: AccountId,
    /// The currency collateral is moved in.
    pub reserve_currency: CurrencyId,
    /// Ledger movements are the position deltas scaled by this ratio.
    pub convert_num: Balance,
    pub convert_den: Balance,
}

impl SettmintManager {
    /// The reserve recorded for one (currency, account).
    pub open spec fn reserve_of(self, c: CurrencyId, a: AccountId) -> int {
        sum_by(self.positions@, reserve_contrib(c, a))
    }

    /// The standard recorded for one (currency, account).
    pub open spec fn standard_of(self, c: CurrencyId, a: AccountId) -> int {
        sum_by(self.positions@, standard_contrib(c, a))
    }

    /// Whether a record exists for the key.
    pub open spec fn has_position(self, c: CurrencyId, a: AccountId) -> bool {
        exists|k: int|
            0 <= k < self.positions@.len() && (#[trigger] self.positions@[k]).currency == c
                && self.positions@[k].account == a
    }

    /// The sum of all accounts' reserve in one currency.
    pub open spec fn sum_reserve(self, c: CurrencyId) -> int {
        sum_by(self.positions@, currency_reserve_contrib(c))
    }

    /// The sum of all accounts' standard in one currency.
    pub open spec fn sum_standard(self, c: CurrencyId) -> int {
        sum_by(self.positions@, currency_standard_contrib(c))
    }

    /// The recorded reserve total of one currency.
    pub open spec fn total_reserve_of(self, c: CurrencyId) -> int {
        sum_by(self.totals@, totals_reserve_contrib(c))
    }

    /// The recorded standard total of one currency.
    pub open spec fn total_standard_of(self, c: CurrencyId) -> int {
        sum_by(self.totals@, totals_standard_contrib(c))
    }

    /// The consumer count of one account.
    pub open spec fn consumers_of(self, a: AccountId) -> int {
        sum_by(self.consumers@, consumer_contrib(a))
    }

    /// A ledger movement scaled by the configured conversion ratio.
    pub open spec fn spec_convert(self, x: int) -> int {
        (x * self.convert_num) / self.convert_den as int
    }

    /// Well-formedness of the position ledger.
    pub open spec fn wf(self) -> bool {
        &&& unique_position_keys(self.positions@)
        &&& unique_totals_keys(self.totals@)
        &&& unique_consumer_keys(self.consumers@)
        &&& no_zero_positions(self.positions@)
        &&& forall|c: CurrencyId| #[trigger] self.total_reserve_of(c) == self.sum_reserve(c)
        &&& forall|c: CurrencyId| #[trigger] self.total_standard_of(c) == self.sum_standard(c)
        &&& self.convert_den >= 1
    }

    /// An empty position ledger over the given module account, collateral
    /// currency and conversion ratio.
    pub fn new(
        account: AccountId,
        reserve_currency: CurrencyId,
        convert_num: Balance,
        convert_den: Balance,
    ) -> (r: SettmintManager)
        requires
            convert_den >= 1,
        ensures
            r.wf(),
            r.account == account,
            r.reserve_currency == reserve_currency,
            r.convert_num == convert_num,
            r.convert_den == convert_den,
            forall|c: CurrencyId, a: AccountId|
                #[trigger] r.reserve_of(c, a) == 0 && #[trigger] r.standard_of(c, a) == 0,
            forall|c: CurrencyId, a: AccountId| !#[trigger] r.has_position(c, a),
            forall|c: CurrencyId|
                #[trigger] r.total_reserve_of(c) == 0 && #[trigger] r.total_standard_of(c) == 0,
            forall|a: AccountId| #[trigger] r.consumers_of(a) == 0,
            r.events@.len() == 0,
    {
        SettmintManager {
            positions: Vec::new(),
            totals: Vec::new(),
            consumers: Vec::new(),
            events: Vec::new(),
            account,
            reserve_currency,
            convert_num,
            convert_den,
        }
    }

    /// The module's own ledger account.
    pub fn account_id(&self) -> (r: AccountId)
        ensures
            r == self.account,
    {
        self.account
    }

    fn find_position(&self, c: CurrencyId, a: AccountId) -> (r: Option<usize>)
        ensures
            match r {
                Some(i) => i < self.positions@.len() && self.positions@[i as int].currency == c
                    && self.positions@[i as int].account == a,
                None => forall|k: int|
                    0 <= k < self.positions@.len() ==> !((#[trigger] self.positions@[k]).currency
                        == c && self.positions@[k].account == a),
            },
    {
        let n = self.positions.len();
        let mut i: usize = 0;
        while i < n
            invariant
                n == self.positions@.len(),
                i <= n,
                forall|k: int|
                    0 <= k < i ==> !((#[trigger] self.positions@[k]).currency == c
                        && self.positions@[k].account == a),
            decreases n - i,
        {
            let e = &self.positions[i];
            if e.currency == c && e.account == a {
                return Some(i);
            }
            i = i + 1;
        }
        None
    }

    fn find_totals(&self, c: CurrencyId) -> (r: Option<usize>)
        ensures
            match r {
                Some(i) => i < self.totals@.len() && self.totals@[i as int].currency == c,
                None => forall|k: int|
                    0 <= k < self.totals@.len() ==> (#[trigger] self.totals@[k]).currency != c,
            },
    {
        let n = self.totals.len();
        let mut i: usize = 0;
        while i < n
            invariant
                n == self.totals@.len(),
                i <= n,
                forall|k: int| 0 <= k < i ==> (#[trigger] self.totals@[k]).currency != c,
            decreases n - i,
        {
            if self.totals[i].currency == c {
                return Some(i);
            }
            i = i + 1;
        }
        None
    }

    fn find_consumer(&self, a: AccountId) -> (r: Option<usize>)
        ensures
            match r {
                Some(i) => i < self.consumers@.len() && self.consumers@[i as int].account == a,
                None => forall|k: int|
                    0 <= k < self.consumers@.len() ==> (#[trigger] self.consumers@[k]).account
                        != a,
            },
    {
        let n = self.consumers.len();
        let mut i: usize = 0;
        while i < n
            invariant
                n == self.consumers@.len(),
                i <= n,
                forall|k: int| 0 <= k < i ==> (#[trigger] self.consumers@[k]).account != a,
            decreases n - i,
        {
            if self.consumers[i].account == a {
                return Some(i);
            }
            i = i + 1;
        }
        None
    }

    /// The position recorded for (currency, account); all zero when no
    /// record exists.
    pub fn positions(&self, c: CurrencyId, a: AccountId) -> (r: Position)
        requires
            self.wf(),
        ensures
            r.reserve as int == self.reserve_of(c, a),
            r.standard as int == self.standard_of(c, a),
    {
        match self.find_position(c, a) {
            Some(i) => {
                proof {
                    lemma_position_at(self.positions@, i as int, c, a);
                }
                Position { reserve: self.positions[i].reserve, standard: self.positions[i].standard }
            },
            None => {
                proof {
                    lemma_position_absent(self.positions@, c, a);
                }
                Position { reserve: 0, standard: 0 }
            },
        }
    }

    /// Whether a record exists for (currency, account).
    pub fn contains_position(&self, c: CurrencyId, a: AccountId) -> (r: bool)
        ensures
            r == self.has_position(c, a),
    {
        self.find_position(c, a).is_some()
    }

    /// The aggregate position of one currency.
    pub fn total_positions(&self, c: CurrencyId) -> (r: Position)
        requires
            self.wf(),
        ensures
            r.reserve as int == self.total_reserve_of(c),
            r.standard as int == self.total_standard_of(c),
    {
        match self.find_totals(c) {
            Some(i) => {
                proof {
                    lemma_totals_at(self.totals@, i as int, c);
                }
                Position { reserve: self.totals[i].reserve, standard: self.totals[i].standard }
            },
            None => {
                proof {
                    lemma_totals_absent(self.totals@, c);
                }
                Position { reserve: 0, standard: 0 }
            },
        }
    }

    /// The consumer count of one account.
    pub fn consumers(&self, a: AccountId) -> (r: u32)
        requires
            self.wf(),
        ensures
            r as int == self.consumers_of(a),
    {
        match self.find_consumer(a) {
            Some(i) => {
                proof {
                    lemma_consumer_at(self.consumers@, i as int, a);
                }
                self.consumers[i].count
            },
            None => {
                proof {
                    lemma_consumer_absent(self.consumers@, a);
                }
                0
            },
        }
    }

    /// The most recent event, if any.
    pub fn last_event(&self) -> (r: Option<SettmintEvent>)
        ensures
            r == if self.events@.len() == 0 {
                None::<SettmintEvent>
            } else {
                Some(self.events@.last())
            },
    {
        let n = self.events.len();
        if n == 0 {
            None
        } else {
            Some(self.events[n - 1])
        }
    }

    /// The error, if any, with which a record update of the given deltas
    /// declines: `Underflow` whenever either field would fall below zero,
    /// otherwise `Overflow` whenever a field or a currency total would
    /// exceed the balance range.
    pub open spec fn spec_update_error(
        self,
        who: AccountId,
        c: CurrencyId,
        radj: int,
        sadj: int,
    ) -> Option<Error> {
        if self.reserve_of(c, who) + radj < 0 || self.standard_of(c, who) + sadj < 0 {
            Some(Error::Underflow)
        } else if self.reserve_of(c, who) + radj > Balance::MAX || self.standard_of(c, who) + sadj
            > Balance::MAX || self.total_reserve_of(c) + radj > Balance::MAX
            || self.total_standard_of(c) + sadj > Balance::MAX {
            Some(Error::Overflow)
        } else {
            None
        }
    }

    /// Apply signed deltas to the record of (who, c) and to the currency's
    /// totals; no ledger balance moves. A record that becomes all zero is
    /// deleted and the account's consumer count drops; a record created by
    /// the update raises it.
    pub fn update_position(
        &mut self,
        who: AccountId,
        c: CurrencyId,
        reserve_adjustment: Amount,
        standard_adjustment: Amount,
    ) -> (r: Result<(), Error>)
        requires
            old(self).wf(),
        ensures
            final(self).wf(),
            final(self).account == old(self).account,
            final(self).reserve_currency == old(self).reserve_currency,
            final(self).convert_num == old(self).convert_num,
            final(self).convert_den == old(self).convert_den,
            final(self).events@ == old(self).events@,
            match r {
                Ok(()) => {
                    &&& old(self).spec_update_error(
                        who,
                        c,
                        reserve_adjustment as int,
                        standard_adjustment as int,
                    ) is None
                    &&& forall|c2: CurrencyId, a2: AccountId|
                        #[trigger] final(self).reserve_of(c2, a2) == old(self).reserve_of(c2, a2)
                            + (if c2 == c && a2 == who {
                            reserve_adjustment as int
                        } else {
                            0
                        })
                    &&& forall|c2: CurrencyId, a2: AccountId|
                        #[trigger] final(self).standard_of(c2, a2) == old(self).standard_of(
                            c2,
                            a2,
                        ) + (if c2 == c && a2 == who {
                            standard_adjustment as int
                        } else {
                            0
                        })
                    &&& forall|c2: CurrencyId|
                        #[trigger] final(self).total_reserve_of(c2) == old(self).total_reserve_of(
                            c2,
                        ) + (if c2 == c {
                            reserve_adjustment as int
                        } else {
                            0
                        })
                    &&& forall|c2: CurrencyId|
                        #[trigger] final(self).total_standard_of(c2) == old(
                            self,
                        ).total_standard_of(c2) + (if c2 == c {
                            standard_adjustment as int
                        } else {
                            0
                        })
                    &&& forall|a2: AccountId|
                        a2 != who ==> #[trigger] final(self).consumers_of(a2) == old(
                            self,
                        ).consumers_of(a2)
                    &&& final(self).consumers_of(who) == spec_consumer_step(
                        old(self).consumers_of(who),
                        old(self).has_position(c, who),
                        old(self).reserve_of(c, who) + reserve_adjustment != 0 || old(
                            self,
                        ).standard_of(c, who) + standard_adjustment != 0,
                    )
                },
                Err(e) => {
                    &&& Some(e) == old(self).spec_update_error(
                        who,
                        c,
                        reserve_adjustment as int,
                        standard_adjustment as int,
                    )
                    &&& *final(self) == *old(self)
                },
            },
    {
        let ghost s0 = *self;
        let pos = self.positions(c, who);
        let new_reserve = match apply_delta_checked(pos.reserve, reserve_adjustment) {
            Some(v) => v,
            None => {
                if reserve_adjustment < 0 {
                    return Err(Error::Underflow);
                }
                // A positive overflow on the reserve can coincide with an
                // underflow on the standard; the underflow takes priority.
                if standard_adjustment < 0 {
                    let s_probe = apply_delta_checked(pos.standard, standard_adjustment);
                    if s_probe.is_none() {
                        return Err(Error::Underflow);
                    }
                }
                return Err(Error::Overflow);
            },
        };
        let new_standard = match apply_delta_checked(pos.standard, standard_adjustment) {
            Some(v) => v,
            None => {
                if standard_adjustment < 0 {
                    return Err(Error::Underflow);
                }
                return Err(Error::Overflow);
            },
        };
        // Totals can only overflow upward: each total carries at least the
        // one record being shrunk, so it never underflows.
        let tot = self.total_positions(c);
        proof {
            lemma_position_le_sum_reserve(s0, c, who);
            lemma_position_le_sum_standard(s0, c, who);
        }
        let new_tot_reserve = match apply_delta_checked(tot.reserve, reserve_adjustment) {
            Some(v) => v,
            None => {
                return Err(Error::Overflow);
            },
        };
        let new_tot_standard = match apply_delta_checked(tot.standard, standard_adjustment) {
            Some(v) => v,
            None => {
                return Err(Error::Overflow);
            },
        };
        // All checks passed; mutate the stores.
        self.set_position(who, c, new_reserve, new_standard);
        let ghost s1 = *self;
        self.set_totals(c, new_tot_reserve, new_tot_standard);
        proof {
            assert forall|c2: CurrencyId| #[trigger] self.total_reserve_of(c2) == self.sum_reserve(
                c2,
            ) by {
                assert(s0.total_reserve_of(c2) == s0.sum_reserve(c2));
                assert(s1.sum_reserve(c2) == s0.sum_reserve(c2) + (if c2 == c {
                    new_reserve - s0.reserve_of(c, who)
                } else {
                    0
                }));
                assert(s1.total_reserve_of(c2) == s0.total_reserve_of(c2));
                assert(self.total_reserve_of(c2) == s1.total_reserve_of(c2) + (if c2 == c {
                    new_tot_reserve - s1.total_reserve_of(c)
                } else {
                    0
                }));
                assert(self.sum_reserve(c2) == s1.sum_reserve(c2));
            }
            assert forall|c2: CurrencyId| #[trigger] self.total_standard_of(c2)
                == self.sum_standard(c2) by {
                assert(s0.total_standard_of(c2) == s0.sum_standard(c2));
                assert(s1.sum_standard(c2) == s0.sum_standard(c2) + (if c2 == c {
                    new_standard - s0.standard_of(c, who)
                } else {
                    0
                }));
                assert(s1.total_standard_of(c2) == s0.total_standard_of(c2));
                assert(self.total_standard_of(c2) == s1.total_standard_of(c2) + (if c2 == c {
                    new_tot_standard - s1.total_standard_of(c)
                } else {
                    0
                }));
                assert(self.sum_standard(c2) == s1.sum_standard(c2));
            }
            assert forall|c2: CurrencyId, a2: AccountId| #[trigger] self.reserve_of(c2, a2)
                == s0.reserve_of(c2, a2) + (if c2 == c && a2 == who {
                reserve_adjustment as int
            } else {
                0
            }) by {
                assert(s1.reserve_of(c2, a2) == s0.reserve_of(c2, a2) + (if c2 == c && a2 == who {
                    new_reserve - s0.reserve_of(c, who)
                } else {
                    0
                }));
                assert(self.reserve_of(c2, a2) == s1.reserve_of(c2, a2));
            }
            assert forall|c2: CurrencyId, a2: AccountId| #[trigger] self.standard_of(c2, a2)
                == s0.standard_of(c2, a2) + (if c2 == c && a2 == who {
                standard_adjustment as int
            } else {
                0
            }) by {
                assert(s1.standard_of(c2, a2) == s0.standard_of(c2, a2) + (
                if c2 == c && a2 == who {
                    new_standard - s0.standard_of(c, who)
                } else {
                    0
                }));
                assert(self.standard_of(c2, a2) == s1.standard_of(c2, a2));
            }
            assert forall|c2: CurrencyId| #[trigger] self.total_reserve_of(c2)
                == s0.total_reserve_of(c2) + (if c2 == c {
                reserve_adjustment as int
            } else {
                0
            }) by {
                assert(s1.total_reserve_of(c2) == s0.total_reserve_of(c2));
                assert(self.total_reserve_of(c2) == s1.total_reserve_of(c2) + (if c2 == c {
                    new_tot_reserve - s1.total_reserve_of(c)
                } else {
                    0
                }));
            }
            assert forall|c2: CurrencyId| #[trigger] self.total_standard_of(c2)
                == s0.total_standard_of(c2) + (if c2 == c {
                standard_adjustment as int
            } else {
                0
            }) by {
                assert(s1.total_standard_of(c2) == s0.total_standard_of(c2));
                assert(self.total_standard_of(c2) == s1.total_standard_of(c2) + (if c2 == c {
                    new_tot_standard - s1.total_standard_of(c)
                } else {
                    0
                }));
            }
            assert forall|a2: AccountId| a2 != who implies #[trigger] self.consumers_of(a2)
                == s0.consumers_of(a2) by {
                assert(s1.consumers_of(a2) == s0.consumers_of(a2));
                assert(self.consumers_of(a2) == s1.consumers_of(a2));
            }
            assert(self.consumers_of(who) == s1.consumers_of(who));
        }
        Ok(())
    }

    /// The error, if any, with which `adjust_position` declines: first the
    /// record update's own error, then an overflow scaling the deltas by
    /// the conversion ratio, then the collateral movement, then the debt
    /// issue or repayment.
    pub open spec fn spec_adjust_error(
        self,
        ledger: Ledger,
        who: AccountId,
        c: CurrencyId,
        radj: int,
        sadj: int,
    ) -> Option<Error> {
        if self.spec_update_error(who, c, radj, sadj) is Some {
            self.spec_update_error(who, c, radj, sadj)
        } else if abs_of(radj) * self.convert_num > Balance::MAX || abs_of(sadj)
            * self.convert_num > Balance::MAX {
            Some(Error::Overflow)
        } else {
            let cr = self.spec_convert(abs_of(radj));
            let cs = self.spec_convert(abs_of(sadj));
            let r_from = if radj >= 0 {
                who
            } else {
                self.account
            };
            let r_to = if radj >= 0 {
                self.account
            } else {
                who
            };
            if ledger.balance_of(self.reserve_currency, r_from) < cr {
                Some(Error::InsufficientBalance)
            } else {
                // The collateral leg runs first; the debt leg sees the
                // balance it leaves behind.
                let mid = ledger.balance_of(c, who) - (if c == self.reserve_currency && who
                    == r_from {
                    cr
                } else {
                    0
                }) + (if c == self.reserve_currency && who == r_to {
                    cr
                } else {
                    0
                });
                if sadj >= 0 && ledger.issuance_of(c) + cs > Balance::MAX {
                    Some(Error::Overflow)
                } else if sadj < 0 && mid < cs {
                    Some(Error::InsufficientBalance)
                } else {
                    None
                }
            }
        }
    }

    /// The record update's error, decided without mutating anything.
    fn check_update(
        &self,
        who: AccountId,
        c: CurrencyId,
        reserve_adjustment: Amount,
        standard_adjustment: Amount,
    ) -> (r: Option<Error>)
        requires
            self.wf(),
        ensures
            r == self.spec_update_error(
                who,
                c,
                reserve_adjustment as int,
                standard_adjustment as int,
            ),
    {
        let pos = self.positions(c, who);
        let tot = self.total_positions(c);
        let r_new = apply_delta_checked(pos.reserve, reserve_adjustment);
        let s_new = apply_delta_checked(pos.standard, standard_adjustment);
        if (reserve_adjustment < 0 && r_new.is_none()) || (standard_adjustment < 0
            && s_new.is_none()) {
            return Some(Error::Underflow);
        }
        if r_new.is_none() || s_new.is_none() {
            return Some(Error::Overflow);
        }
        proof {
            lemma_position_le_sum_reserve(*self, c, who);
            lemma_position_le_sum_standard(*self, c, who);
        }
        let t_r = apply_delta_checked(tot.reserve, reserve_adjustment);
        let t_s = apply_delta_checked(tot.standard, standard_adjustment);
        if t_r.is_none() || t_s.is_none() {
            return Some(Error::Overflow);
        }
        None
    }

    /// Adjust the position of `who` in `c` and move the matching funds on
    /// the balance ledger, all or nothing: collateral moves in the reserve
    /// currency between `who` and the module account (direction given by
    /// the sign), debt is minted to or burned from `who` in `c` itself,
    /// both scaled by the configured conversion ratio.
    pub fn adjust_position(
        &mut self,
        ledger: &mut Ledger,
        who: AccountId,
        c: CurrencyId,
        reserve_adjustment: Amount,
        standard_adjustment: Amount,
    ) -> (r: Result<(), Error>)
        requires
            old(self).wf(),
            old(ledger).wf(),
        ensures
            final(self).wf(),
            final(ledger).wf(),
            final(self).account == old(self).account,
            final(self).reserve_currency == old(self).reserve_currency,
            final(self).convert_num == old(self).convert_num,
            final(self).convert_den == old(self).convert_den,
            match r {
                Ok(()) => ({
                    let cr = old(self).spec_convert(abs_of(reserve_adjustment as int));
                    let cs = old(self).spec_convert(abs_of(standard_adjustment as int));
                    let rc = old(self).reserve_currency;
                    let r_from = if reserve_adjustment >= 0 {
                        who
                    } else {
                        old(self).account
                    };
                    let r_to = if reserve_adjustment >= 0 {
                        old(self).account
                    } else {
                        who
                    };
                    let s_delta = if standard_adjustment >= 0 {
                        cs
                    } else {
                        -cs
                    };
                    &&& old(self).spec_adjust_error(
                        *old(ledger),
                        who,
                        c,
                        reserve_adjustment as int,
                        standard_adjustment as int,
                    ) is None
                    &&& forall|c2: CurrencyId, a2: AccountId|
                        #[trigger] final(ledger).balance_of(c2, a2) == old(ledger).balance_of(
                            c2,
                            a2,
                        ) - (if c2 == rc && a2 == r_from {
                            cr
                        } else {
                            0
                        }) + (if c2 == rc && a2 == r_to {
                            cr
                        } else {
                            0
                        }) + (if c2 == c && a2 == who {
                            s_delta
                        } else {
                            0
                        })
                    &&& forall|c2: CurrencyId|
                        #[trigger] final(ledger).issuance_of(c2) == old(ledger).issuance_of(c2)
                            + (if c2 == c {
                            s_delta
                        } else {
                            0
                        })
                    &&& forall|c2: CurrencyId, a2: AccountId|
                        #[trigger] final(self).reserve_of(c2, a2) == old(self).reserve_of(c2, a2)
                            + (if c2 == c && a2 == who {
                            reserve_adjustment as int
                        } else {
                            0
                        })
                    &&& forall|c2: CurrencyId, a2: AccountId|
                        #[trigger] final(self).standard_of(c2, a2) == old(self).standard_of(
                            c2,
                            a2,
                        ) + (if c2 == c && a2 == who {
                            standard_adjustment as int
                        } else {
                            0
                        })
                    &&& forall|c2: CurrencyId|
                        #[trigger] final(self).total_reserve_of(c2) == old(self).total_reserve_of(
                            c2,
                        ) + (if c2 == c {
                            reserve_adjustment as int
                        } else {
                            0
                        })
                    &&& forall|c2: CurrencyId|
                        #[trigger] final(self).total_standard_of(c2) == old(
                            self,
                        ).total_standard_of(c2) + (if c2 == c {
                            standard_adjustment as int
                        } else {
                            0
                        })
                    &&& final(self).events@ == old(self).events@.push(
                        SettmintEvent::PositionUpdated(
                            who,
                            c,
                            reserve_adjustment,
                            standard_adjustment,
                        ),
                    )
                }),
                Err(e) => {
                    &&& Some(e) == old(self).spec_adjust_error(
                        *old(ledger),
                        who,
                        c,
                        reserve_adjustment as int,
                        standard_adjustment as int,
                    )
                    &&& *final(self) == *old(self)
                    &&& *final(ledger) == *old(ledger)
                },
            },
    {
        let ghost s0 = *self;
        let ghost l0 = *ledger;
        // Decide every failure before touching any store.
        match self.check_update(who, c, reserve_adjustment, standard_adjustment) {
            Some(e) => {
                return Err(e);
            },
            None => {},
        }
        let rabs = amount_abs(reserve_adjustment);
        let sabs = amount_abs(standard_adjustment);
        let cr = match rabs.checked_mul(self.convert_num) {
            Some(x) => x / self.convert_den,
            None => {
                return Err(Error::Overflow);
            },
        };
        let cs = match sabs.checked_mul(self.convert_num) {
            Some(x) => x / self.convert_den,
            None => {
                return Err(Error::Overflow);
            },
        };
        let r_from = if reserve_adjustment >= 0 {
            who
        } else {
            self.account
        };
        let r_to = if reserve_adjustment >= 0 {
            self.account
        } else {
            who
        };
        let bal_from = ledger.free_balance(self.reserve_currency, r_from);
        if bal_from < cr {
            return Err(Error::InsufficientBalance);
        }
        if standard_adjustment >= 0 {
            let iss = ledger.total_issuance(c);
            if cs > Balance::MAX - iss {
                return Err(Error::Overflow);
            }
        } else {
            // Compare against the balance the collateral leg leaves.
            let bal = ledger.free_balance(c, who);
            let insufficient: bool = if c == self.reserve_currency && who == r_from && who != r_to {
                // `who` pays the collateral first; `bal >= cr` held above.
                bal - cr < cs
            } else if c == self.reserve_currency && who == r_to && who != r_from {
                // `who` receives the collateral first.
                if cs <= bal {
                    false
                } else {
                    cs - bal > cr
                }
            } else {
                bal < cs
            };
            if insufficient {
                return Err(Error::InsufficientBalance);
            }
        }
        // Every check passed; the mutations below cannot fail.
        match self.update_position(who, c, reserve_adjustment, standard_adjustment) {
            Ok(()) => {},
            Err(e) => {
                assert(false);
                return Err(e);
            },
        }
        let ghost s1 = *self;
        let reserve_move = if reserve_adjustment >= 0 {
            ledger.transfer(self.reserve_currency, who, self.account, cr)
        } else {
            ledger.transfer(self.reserve_currency, self.account, who, cr)
        };
        match reserve_move {
            Ok(()) => {},
            Err(e) => {
                assert(false);
                return Err(e);
            },
        }
        let ghost l1 = *ledger;
        let standard_move = if standard_adjustment >= 0 {
            ledger.deposit(c, who, cs)
        } else {
            ledger.withdraw(c, who, cs)
        };
        match standard_move {
            Ok(()) => {},
            Err(e) => {
                proof {
                    assert(l1.issuance_of(c) == l0.issuance_of(c));
                    assert(l1.balance_of(c, who) == l0.balance_of(c, who) - (
                    if c == s0.reserve_currency && who == r_from {
                        cr as int
                    } else {
                        0
                    }) + (if c == s0.reserve_currency && who == r_to {
                        cr as int
                    } else {
                        0
                    }));
                }
                assert(false);
                return Err(e);
            },
        }
        self.events.push(
            SettmintEvent::PositionUpdated(who, c, reserve_adjustment, standard_adjustment),
        );
        proof {
            let ghost cr_s = s0.spec_convert(abs_of(reserve_adjustment as int));
            let ghost cs_s = s0.spec_convert(abs_of(standard_adjustment as int));
            assert(cr as int == cr_s);
            assert(cs as int == cs_s);
            let rc = s0.reserve_currency;
            let r_from = if reserve_adjustment >= 0 {
                who
            } else {
                s0.account
            };
            let r_to = if reserve_adjustment >= 0 {
                s0.account
            } else {
                who
            };
            let s_delta: int = if standard_adjustment >= 0 {
                cs_s
            } else {
                -cs_s
            };
            assert forall|c2: CurrencyId, a2: AccountId| #[trigger] ledger.balance_of(c2, a2)
                == l0.balance_of(c2, a2) - (if c2 == rc && a2 == r_from {
                cr_s
            } else {
                0
            }) + (if c2 == rc && a2 == r_to {
                cr_s
            } else {
                0
            }) + (if c2 == c && a2 == who {
                s_delta
            } else {
                0
            }) by {
                assert(l1.balance_of(c2, a2) == l0.balance_of(c2, a2) - (
                if c2 == rc && a2 == r_from {
                    cr_s
                } else {
                    0
                }) + (if c2 == rc && a2 == r_to {
                    cr_s
                } else {
                    0
                }));
                assert(ledger.balance_of(c2, a2) == l1.balance_of(c2, a2) + (
                if c2 == c && a2 == who {
                    s_delta
                } else {
                    0
                }));
            }
            assert forall|c2: CurrencyId| #[trigger] ledger.issuance_of(c2) == l0.issuance_of(c2)
                + (if c2 == c {
                s_delta
            } else {
                0
            }) by {
                assert(l1.issuance_of(c2) == l0.issuance_of(c2));
                assert(ledger.issuance_of(c2) == l1.issuance_of(c2) + (if c2 == c {
                    s_delta
                } else {
                    0
                }));
            }
            assert(self.positions@ == s1.positions@);
            assert(self.totals@ == s1.totals@);
            assert forall|c2: CurrencyId, a2: AccountId| #[trigger] self.reserve_of(c2, a2)
                == s0.reserve_of(c2, a2) + (if c2 == c && a2 == who {
                reserve_adjustment as int
            } else {
                0
            }) by {
                assert(self.reserve_of(c2, a2) == s1.reserve_of(c2, a2));
            }
            assert forall|c2: CurrencyId, a2: AccountId| #[trigger] self.standard_of(c2, a2)
                == s0.standard_of(c2, a2) + (if c2 == c && a2 == who {
                standard_adjustment as int
            } else {
                0
            }) by {
                assert(self.standard_of(c2, a2) == s1.standard_of(c2, a2));
            }
            assert forall|c2: CurrencyId| #[trigger] self.total_reserve_of(c2)
                == s0.total_reserve_of(c2) + (if c2 == c {
                reserve_adjustment as int
            } else {
                0
            }) by {
                assert(self.total_reserve_of(c2) == s1.total_reserve_of(c2));
            }
            assert forall|c2: CurrencyId| #[trigger] self.total_standard_of(c2)
                == s0.total_standard_of(c2) + (if c2 == c {
                standard_adjustment as int
            } else {
                0
            }) by {
                assert(self.total_standard_of(c2) == s1.total_standard_of(c2));
            }
            assert forall|c2: CurrencyId| #[trigger] self.total_reserve_of(c2) == self.sum_reserve(
                c2,
            ) by {
                assert(s1.total_reserve_of(c2) == s1.sum_reserve(c2));
                assert(self.sum_reserve(c2) == s1.sum_reserve(c2));
            }
            assert forall|c2: CurrencyId| #[trigger] self.total_standard_of(c2)
                == self.sum_standard(c2) by {
                assert(s1.total_standard_of(c2) == s1.sum_standard(c2));
                assert(self.sum_standard(c2) == s1.sum_standard(c2));
            }
        }
        Ok(())
    }

    /// Move the entirety of `from`'s position in `c` onto `to`'s position,
    /// field-wise, and delete `from`'s record; the currency totals stay as
    /// they are. Declines with `InvalidAmount` when `from` has no record,
    /// with `Overflow` when a summed field would not fit.
    pub fn transfer_position(&mut self, from: AccountId, to: AccountId, c: CurrencyId) -> (r:
        Result<(), Error>)
        requires
            old(self).wf(),
        ensures
            final(self).wf(),
            final(self).account == old(self).account,
            final(self).reserve_currency == old(self).reserve_currency,
            final(self).convert_num == old(self).convert_num,
            final(self).convert_den == old(self).convert_den,
            match r {
                Ok(()) => {
                    &&& old(self).spec_transfer_error(from, to, c) is None
                    &&& final(self).events@ == old(self).events@.push(
                        SettmintEvent::TransferPosition(from, to, c),
                    )
                    &&& if from == to {
                        final(self).positions@ == old(self).positions@ && final(self).totals@
                            == old(self).totals@ && final(self).consumers@ == old(self).consumers@
                    } else {
                        ({
                            &&& !final(self).has_position(c, from)
                            &&& forall|c2: CurrencyId, a2: AccountId|
                                #[trigger] final(self).reserve_of(c2, a2) == (
                                if c2 == c && a2 == from {
                                    0
                                } else if c2 == c && a2 == to {
                                    old(self).reserve_of(c, from) + old(self).reserve_of(c, to)
                                } else {
                                    old(self).reserve_of(c2, a2)
                                })
                            &&& forall|c2: CurrencyId, a2: AccountId|
                                #[trigger] final(self).standard_of(c2, a2) == (
                                if c2 == c && a2 == from {
                                    0
                                } else if c2 == c && a2 == to {
                                    old(self).standard_of(c, from) + old(self).standard_of(c, to)
                                } else {
                                    old(self).standard_of(c2, a2)
                                })
                            &&& forall|c2: CurrencyId|
                                #[trigger] final(self).total_reserve_of(c2) == old(
                                    self,
                                ).total_reserve_of(c2)
                            &&& forall|c2: CurrencyId|
                                #[trigger] final(self).total_standard_of(c2) == old(
                                    self,
                                ).total_standard_of(c2)
                        })
                    }
                },
                Err(e) => {
                    &&& Some(e) == old(self).spec_transfer_error(from, to, c)
                    &&& *final(self) == *old(self)
                },
            },
    {
        let ghost s0 = *self;
        if !self.contains_position(c, from) {
            return Err(Error::InvalidAmount);
        }
        let pos_from = self.positions(c, from);
        if from == to {
            self.events.push(SettmintEvent::TransferPosition(from, to, c));
            proof {
                assert(self.positions@ == s0.positions@);
                assert(self.totals@ == s0.totals@);
                assert forall|c2: CurrencyId| #[trigger] self.total_reserve_of(c2)
                    == self.sum_reserve(c2) by {
                    assert(s0.total_reserve_of(c2) == s0.sum_reserve(c2));
                }
                assert forall|c2: CurrencyId| #[trigger] self.total_standard_of(c2)
                    == self.sum_standard(c2) by {
                    assert(s0.total_standard_of(c2) == s0.sum_standard(c2));
                }
            }
            return Ok(());
        }
        let pos_to = self.positions(c, to);
        let new_reserve = match pos_from.reserve.checked_add(pos_to.reserve) {
            Some(v) => v,
            None => {
                return Err(Error::Overflow);
            },
        };
        let new_standard = match pos_from.standard.checked_add(pos_to.standard) {
            Some(v) => v,
            None => {
                return Err(Error::Overflow);
            },
        };
        proof {
            lemma_record_iff_nonzero(s0, c, from);
        }
        self.set_position(from, c, 0, 0);
        let ghost s1 = *self;
        proof {
            assert(s1.reserve_of(c, to) == s0.reserve_of(c, to));
            assert(s1.standard_of(c, to) == s0.standard_of(c, to));
        }
        self.set_position(to, c, new_reserve, new_standard);
        let ghost s2 = *self;
        self.events.push(SettmintEvent::TransferPosition(from, to, c));
        proof {
            assert(self.positions@ == s2.positions@);
            assert(self.totals@ == s2.totals@);
            assert forall|c2: CurrencyId, a2: AccountId| #[trigger] self.reserve_of(c2, a2) == (
            if c2 == c && a2 == from {
                0
            } else if c2 == c && a2 == to {
                s0.reserve_of(c, from) + s0.reserve_of(c, to)
            } else {
                s0.reserve_of(c2, a2)
            }) by {
                assert(s1.reserve_of(c2, a2) == s0.reserve_of(c2, a2) + (
                if c2 == c && a2 == from {
                    0 - s0.reserve_of(c, from)
                } else {
                    0
                }));
                assert(s2.reserve_of(c2, a2) == s1.reserve_of(c2, a2) + (if c2 == c && a2 == to {
                    new_reserve - s1.reserve_of(c, to)
                } else {
                    0
                }));
                assert(self.reserve_of(c2, a2) == s2.reserve_of(c2, a2));
            }
            assert forall|c2: CurrencyId, a2: AccountId| #[trigger] self.standard_of(c2, a2) == (
            if c2 == c && a2 == from {
                0
            } else if c2 == c && a2 == to {
                s0.standard_of(c, from) + s0.standard_of(c, to)
            } else {
                s0.standard_of(c2, a2)
            }) by {
                assert(s1.standard_of(c2, a2) == s0.standard_of(c2, a2) + (
                if c2 == c && a2 == from {
                    0 - s0.standard_of(c, from)
                } else {
                    0
                }));
                assert(s2.standard_of(c2, a2) == s1.standard_of(c2, a2) + (if c2 == c && a2 == to {
                    new_standard - s1.standard_of(c, to)
                } else {
                    0
                }));
                assert(self.standard_of(c2, a2) == s2.standard_of(c2, a2));
            }
            assert forall|c2: CurrencyId| #[trigger] self.total_reserve_of(c2)
                == s0.total_reserve_of(c2) by {
                assert(s1.total_reserve_of(c2) == s0.total_reserve_of(c2));
                assert(s2.total_reserve_of(c2) == s1.total_reserve_of(c2));
                assert(self.total_reserve_of(c2) == s2.total_reserve_of(c2));
            }
            assert forall|c2: CurrencyId| #[trigger] self.total_standard_of(c2)
                == s0.total_standard_of(c2) by {
                assert(s1.total_standard_of(c2) == s0.total_standard_of(c2));
                assert(s2.total_standard_of(c2) == s1.total_standard_of(c2));
                assert(self.total_standard_of(c2) == s2.total_standard_of(c2));
            }
            assert forall|c2: CurrencyId| #[trigger] self.total_reserve_of(c2) == self.sum_reserve(
                c2,
            ) by {
                assert(s0.total_reserve_of(c2) == s0.sum_reserve(c2));
                assert(s1.sum_reserve(c2) == s0.sum_reserve(c2) + (if c2 == c {
                    0 - s0.reserve_of(c, from)
                } else {
                    0
                }));
                assert(s2.sum_reserve(c2) == s1.sum_reserve(c2) + (if c2 == c {
                    new_reserve - s1.reserve_of(c, to)
                } else {
                    0
                }));
                assert(self.sum_reserve(c2) == s2.sum_reserve(c2));
                assert(self.total_reserve_of(c2) == s0.total_reserve_of(c2));
            }
            assert forall|c2: CurrencyId| #[trigger] self.total_standard_of(c2)
                == self.sum_standard(c2) by {
                assert(s0.total_standard_of(c2) == s0.sum_standard(c2));
                assert(s1.sum_standard(c2) == s0.sum_standard(c2) + (if c2 == c {
                    0 - s0.standard_of(c, from)
                } else {
                    0
                }));
                assert(s2.sum_standard(c2) == s1.sum_standard(c2) + (if c2 == c {
                    new_standard - s1.standard_of(c, to)
                } else {
                    0
                }));
                assert(self.sum_standard(c2) == s2.sum_standard(c2));
                assert(self.total_standard_of(c2) == s0.total_standard_of(c2));
            }
            lemma_record_iff_nonzero(*self, c, from);
        }
        Ok(())
    }

    /// The error, if any, with which `transfer_position` declines.
    pub open spec fn spec_transfer_error(
        self,
        from: AccountId,
        to: AccountId,
        c: CurrencyId,
    ) -> Option<Error> {
        if !self.has_position(c, from) {
            Some(Error::InvalidAmount)
        } else if from != to && (self.reserve_of(c, from) + self.reserve_of(c, to) > Balance::MAX
            || self.standard_of(c, from) + self.standard_of(c, to) > Balance::MAX) {
            Some(Error::Overflow)
        } else {
            None
        }
    }

    /// The collateral the module account holds on the balance ledger.
    pub fn total_reserve(&self, ledger: &Ledger) -> (r: Balance)
        requires
            ledger.wf(),
        ensures
            r as int == ledger.balance_of(self.reserve_currency, self.account),
    {
        ledger.free_balance(self.reserve_currency, self.account)
    }

    /// Replace the record of (who, c) by the given values: delete it when
    /// both are zero, create it when absent, and move the consumer count
    /// with the record's existence. Totals are untouched.
    fn set_position(&mut self, who: AccountId, c: CurrencyId, reserve: Balance, standard: Balance)
        requires
            unique_position_keys(old(self).positions@),
            unique_consumer_keys(old(self).consumers@),
            no_zero_positions(old(self).positions@),
        ensures
            final(self).account == old(self).account,
            final(self).reserve_currency == old(self).reserve_currency,
            final(self).convert_num == old(self).convert_num,
            final(self).convert_den == old(self).convert_den,
            final(self).events@ == old(self).events@,
            final(self).totals@ == old(self).totals@,
            unique_position_keys(final(self).positions@),
            unique_consumer_keys(final(self).consumers@),
            no_zero_positions(final(self).positions@),
            forall|c2: CurrencyId, a2: AccountId|
                #[trigger] final(self).reserve_of(c2, a2) == old(self).reserve_of(c2, a2) + (
                if c2 == c && a2 == who {
                    reserve - old(self).reserve_of(c, who)
                } else {
                    0
                }),
            forall|c2: CurrencyId, a2: AccountId|
                #[trigger] final(self).standard_of(c2, a2) == old(self).standard_of(c2, a2) + (
                if c2 == c && a2 == who {
                    standard - old(self).standard_of(c, who)
                } else {
                    0
                }),
            forall|c2: CurrencyId|
                #[trigger] final(self).sum_reserve(c2) == old(self).sum_reserve(c2) + (if c2 == c {
                    reserve - old(self).reserve_of(c, who)
                } else {
                    0
                }),
            forall|c2: CurrencyId|
                #[trigger] final(self).sum_standard(c2) == old(self).sum_standard(c2) + (
                if c2 == c {
                    standard - old(self).standard_of(c, who)
                } else {
                    0
                }),
            forall|a2: AccountId|
                a2 != who ==> #[trigger] final(self).consumers_of(a2) == old(self).consumers_of(
                    a2,
                ),
            final(self).consumers_of(who) == spec_consumer_step(
                old(self).consumers_of(who),
                old(self).has_position(c, who),
                reserve != 0 || standard != 0,
            ),
    {
        let ghost s0 = *self;
        match self.find_position(c, who) {
            Some(i) => {
                proof {
                    lemma_position_at(self.positions@, i as int, c, who);
                }
                if reserve == 0 && standard == 0 {
                    let ghost removed = self.positions@[i as int];
                    self.positions.remove(i);
                    proof {
                        lemma_position_remove_effect(s0.positions@, i as int);
                    }
                    self.dec_consumer(who);
                } else {
                    let e = PositionEntry { currency: c, account: who, reserve, standard };
                    self.positions[i] = e;
                    proof {
                        lemma_position_update_effect(s0.positions@, i as int, e);
                    }
                }
            },
            None => {
                proof {
                    lemma_position_absent(self.positions@, c, who);
                }
                if reserve == 0 && standard == 0 {
                    // Nothing to record and nothing recorded.
                } else {
                    let e = PositionEntry { currency: c, account: who, reserve, standard };
                    self.positions.push(e);
                    proof {
                        lemma_position_push_effect(s0.positions@, e);
                    }
                    self.inc_consumer(who);
                }
            },
        }
    }

    /// Replace the totals record of `c` by the given values.
    fn set_totals(&mut self, c: CurrencyId, reserve: Balance, standard: Balance)
        requires
            unique_totals_keys(old(self).totals@),
        ensures
            final(self).account == old(self).account,
            final(self).reserve_currency == old(self).reserve_currency,
            final(self).convert_num == old(self).convert_num,
            final(self).convert_den == old(self).convert_den,
            final(self).events@ == old(self).events@,
            final(self).positions@ == old(self).positions@,
            final(self).consumers@ == old(self).consumers@,
            unique_totals_keys(final(self).totals@),
            forall|c2: CurrencyId|
                #[trigger] final(self).total_reserve_of(c2) == old(self).total_reserve_of(c2) + (
                if c2 == c {
                    reserve - old(self).total_reserve_of(c)
                } else {
                    0
                }),
            forall|c2: CurrencyId|
                #[trigger] final(self).total_standard_of(c2) == old(self).total_standard_of(c2)
                    + (if c2 == c {
                    standard - old(self).total_standard_of(c)
                } else {
                    0
                }),
    {
        let ghost s0 = *self;
        match self.find_totals(c) {
            Some(i) => {
                proof {
                    lemma_totals_at(self.totals@, i as int, c);
                }
                let e = TotalsEntry { currency: c, reserve, standard };
                self.totals[i] = e;
                proof {
                    lemma_totals_update_effect(s0.totals@, i as int, e);
                }
            },
            None => {
                proof {
                    lemma_totals_absent(self.totals@, c);
                }
                let e = TotalsEntry { currency: c, reserve, standard };
                self.totals.push(e);
                proof {
                    lemma_totals_push_effect(s0.totals@, e);
                }
            },
        }
    }

    /// Raise the consumer count of the account by one, saturating.
    fn inc_consumer(&mut self, a: AccountId)
        requires
            unique_consumer_keys(old(self).consumers@),
        ensures
            final(self).account == old(self).account,
            final(self).reserve_currency == old(self).reserve_currency,
            final(self).convert_num == old(self).convert_num,
            final(self).convert_den == old(self).convert_den,
            final(self).events@ == old(self).events@,
            final(self).positions@ == old(self).positions@,
            final(self).totals@ == old(self).totals@,
            unique_consumer_keys(final(self).consumers@),
            forall|a2: AccountId|
                a2 != a ==> #[trigger] final(self).consumers_of(a2) == old(self).consumers_of(a2),
            final(self).consumers_of(a) == if old(self).consumers_of(a) < u32::MAX {
                old(self).consumers_of(a) + 1
            } else {
                old(self).consumers_of(a)
            },
    {
        let ghost s0 = *self;
        match self.find_consumer(a) {
            Some(i) => {
                proof {
                    lemma_consumer_at(self.consumers@, i as int, a);
                }
                let cur = self.consumers[i].count;
                let new_count = if cur < u32::MAX {
                    cur + 1
                } else {
                    cur
                };
                let e = ConsumerEntry { account: a, count: new_count };
                self.consumers[i] = e;
                proof {
                    lemma_consumer_update_effect(s0.consumers@, i as int, e);
                }
            },
            None => {
                proof {
                    lemma_consumer_absent(self.consumers@, a);
                }
                let e = ConsumerEntry { account: a, count: 1 };
                self.consumers.push(e);
                proof {
                    lemma_consumer_push_effect(s0.consumers@, e);
                }
            },
        }
    }

    /// Lower the consumer count of the account by one, saturating at zero.
    fn dec_consumer(&mut self, a: AccountId)
        requires
            unique_consumer_keys(old(self).consumers@),
        ensures
            final(self).account == old(self).account,
            final(self).reserve_currency == old(self).reserve_currency,
            final(self).convert_num == old(self).convert_num,
            final(self).convert_den == old(self).convert_den,
            final(self).events@ == old(self).events@,
            final(self).positions@ == old(self).positions@,
            final(self).totals@ == old(self).totals@,
            unique_consumer_keys(final(self).consumers@),
            forall|a2: AccountId|
                a2 != a ==> #[trigger] final(self).consumers_of(a2) == old(self).consumers_of(a2),
            final(self).consumers_of(a) == if old(self).consumers_of(a) >= 1 {
                old(self).consumers_of(a) - 1
            } else {
                0
            },
    {
        let ghost s0 = *self;
        match self.find_consumer(a) {
            Some(i) => {
                proof {
                    lemma_consumer_at(self.consumers@, i as int, a);
                }
                let cur = self.consumers[i].count;
                let new_count = if cur >= 1 {
                    cur - 1
                } else {
                    0
                };
                let e = ConsumerEntry { account: a, count: new_count };
                self.consumers[i] = e;
                proof {
                    lemma_consumer_update_effect(s0.consumers@, i as int, e);
                }
            },
            None => {
                proof {
                    lemma_consumer_absent(self.consumers@, a);
                }
            },
        }
    }
}

/// How a consumer count moves when a record update runs: up by one when a
/// record appears, down by one when it disappears, otherwise unchanged.
pub open spec fn spec_consumer_step(count: int, had: bool, now_nonzero: bool) -> int {
    if !had && now_nonzero {
        if count < u32::MAX {
            count + 1
        } else {
            count
        }
    } else if had && !now_nonzero {
        if count >= 1 {
            count - 1
        } else {
            0
        }
    } else {
        count
    }
}

/// The magnitude of a signed quantity.
pub open spec fn abs_of(d: int) -> int {
    if d >= 0 {
        d
    } else {
        -d
    }
}

/// The magnitude of a signed adjustment, as a balance.
pub fn amount_abs(delta: Amount) -> (r: Balance)
    ensures
        r as int == abs_of(delta as int),
{
    if delta >= 0 {
        delta as u128
    } else {
        ((-(delta + 1)) as u128) + 1
    }
}

/// A position record exists exactly while one of its fields is non-zero:
/// no all-zero record persists, and absent records read as all zero.
pub proof fn lemma_record_iff_nonzero(m: SettmintManager, c: CurrencyId, a: AccountId)
    requires
        m.wf(),
    ensures
        m.has_position(c, a) <==> (m.reserve_of(c, a) > 0 || m.standard_of(c, a) > 0),
{
    let s = m.positions@;
    if m.has_position(c, a) {
        let k = choose|k: int|
            0 <= k < s.len() && (#[trigger] s[k]).currency == c && s[k].account == a;
        lemma_position_at(s, k, c, a);
        assert(s[k].reserve > 0 || s[k].standard > 0);
    } else {
        assert forall|k: int|
            0 <= k < s.len() implies !((#[trigger] s[k]).currency == c && s[k].account == a) by {}
        lemma_position_absent(s, c, a);
    }
}

/// The recorded totals of a currency are the sums, over all accounts, of
/// the positions held in it.
pub proof fn lemma_totals_are_sums(m: SettmintManager, c: CurrencyId)
    requires
        m.wf(),
    ensures
        m.total_reserve_of(c) == m.sum_reserve(c),
        m.total_standard_of(c) == m.sum_standard(c),
{
}

/// Apply a signed delta to a balance with full range checking.
pub fn apply_delta_checked(value: Balance, delta: Amount) -> (r: Option<Balance>)
    ensures
        r == if 0 <= value + delta <= Balance::MAX {
            Some((value + delta) as Balance)
        } else {
            None::<Balance>
        },
{
    if delta >= 0 {
        value.checked_add(delta as u128)
    } else {
        let abs: u128 = ((-(delta + 1)) as u128) + 1;
        assert(abs == -(delta as int));
        value.checked_sub(abs)
    }
}

/// With unique keys, the reserve and standard of a key are its one entry's.
pub proof fn lemma_position_at(s: Seq<PositionEntry>, i: int, c: CurrencyId, a: AccountId)
    requires
        unique_position_keys(s),
        0 <= i < s.len(),
        s[i].currency == c,
        s[i].account == a,
    ensures
        sum_by(s, reserve_contrib(c, a)) == s[i].reserve as int,
        sum_by(s, standard_contrib(c, a)) == s[i].standard as int,
{
    let f = reserve_contrib(c, a);
    let g = standard_contrib(c, a);
    assert forall|k: int| 0 <= k < s.len() && k != i implies #[trigger] f(s[k]) == 0 by {
        assert(!(s[k].currency == s[i].currency && s[k].account == s[i].account));
    }
    assert forall|k: int| 0 <= k < s.len() && k != i implies #[trigger] g(s[k]) == 0 by {
        assert(!(s[k].currency == s[i].currency && s[k].account == s[i].account));
    }
    lemma_sum_by_only(s, i, f);
    lemma_sum_by_only(s, i, g);
}

/// Without a matching entry, the reserve and standard of a key are zero.
pub proof fn lemma_position_absent(s: Seq<PositionEntry>, c: CurrencyId, a: AccountId)
    requires
        forall|k: int|
            0 <= k < s.len() ==> !((#[trigger] s[k]).currency == c && s[k].account == a),
    ensures
        sum_by(s, reserve_contrib(c, a)) == 0,
        sum_by(s, standard_contrib(c, a)) == 0,
{
    let f = reserve_contrib(c, a);
    let g = standard_contrib(c, a);
    assert forall|k: int| 0 <= k < s.len() implies #[trigger] f(s[k]) == 0 && #[trigger] g(s[k])
        == 0 by {
        assert(!(s[k].currency == c && s[k].account == a));
    }
    lemma_sum_by_zero(s, f);
    lemma_sum_by_zero(s, g);
}

/// With unique keys, the totals of a currency are its one entry's.
pub proof fn lemma_totals_at(s: Seq<TotalsEntry>, i: int, c: CurrencyId)
    requires
        unique_totals_keys(s),
        0 <= i < s.len(),
        s[i].currency == c,
    ensures
        sum_by(s, totals_reserve_contrib(c)) == s[i].reserve as int,
        sum_by(s, totals_standard_contrib(c)) == s[i].standard as int,
{
    let f = totals_reserve_contrib(c);
    let g = totals_standard_contrib(c);
    assert forall|k: int| 0 <= k < s.len() && k != i implies #[trigger] f(s[k]) == 0 && #[trigger] g(
        s[k],
    ) == 0 by {
        assert(s[k].currency != s[i].currency);
    }
    lemma_sum_by_only(s, i, f);
    lemma_sum_by_only(s, i, g);
}

/// Without a matching entry, the totals of a currency are zero.
pub proof fn lemma_totals_absent(s: Seq<TotalsEntry>, c: CurrencyId)
    requires
        forall|k: int| 0 <= k < s.len() ==> (#[trigger] s[k]).currency != c,
    ensures
        sum_by(s, totals_reserve_contrib(c)) == 0,
        sum_by(s, totals_standard_contrib(c)) == 0,
{
    let f = totals_reserve_contrib(c);
    let g = totals_standard_contrib(c);
    assert forall|k: int| 0 <= k < s.len() implies #[trigger] f(s[k]) == 0 && #[trigger] g(s[k])
        == 0 by {}
    lemma_sum_by_zero(s, f);
    lemma_sum_by_zero(s, g);
}

/// With unique keys, the consumer count of an account is its one entry's.
pub proof fn lemma_consumer_at(s: Seq<ConsumerEntry>, i: int, a: AccountId)
    requires
        unique_consumer_keys(s),
        0 <= i < s.len(),
        s[i].account == a,
    ensures
        sum_by(s, consumer_contrib(a)) == s[i].count as int,
{
    let f = consumer_contrib(a);
    assert forall|k: int| 0 <= k < s.len() && k != i implies #[trigger] f(s[k]) == 0 by {
        assert(s[k].account != s[i].account);
    }
    lemma_sum_by_only(s, i, f);
}

/// Without a matching entry, the consumer count of an account is zero.
pub proof fn lemma_consumer_absent(s: Seq<ConsumerEntry>, a: AccountId)
    requires
        forall|k: int| 0 <= k < s.len() ==> (#[trigger] s[k]).account != a,
    ensures
        sum_by(s, consumer_contrib(a)) == 0,
{
    let f = consumer_contrib(a);
    assert forall|k: int| 0 <= k < s.len() implies #[trigger] f(s[k]) == 0 by {}
    lemma_sum_by_zero(s, f);
}

/// A record's fields never exceed its currency's position sums; in a
/// well-formed store, therefore, never the recorded totals either.
proof fn lemma_position_le_sum_reserve(m: SettmintManager, c: CurrencyId, a: AccountId)
    requires
        m.wf(),
    ensures
        0 <= m.reserve_of(c, a) <= m.total_reserve_of(c),
{
    let s = m.positions@;
    let f = reserve_contrib(c, a);
    let g = currency_reserve_contrib(c);
    assert forall|k: int| 0 <= k < s.len() implies #[trigger] f(s[k]) <= #[trigger] g(s[k]) by {}
    assert forall|k: int| 0 <= k < s.len() implies #[trigger] f(s[k]) >= 0 by {}
    lemma_sum_by_nonneg(s, f);
    crate::sums::lemma_sum_by_le_pointwise(s, f, g);
    assert(m.total_reserve_of(c) == m.sum_reserve(c));
}

/// The standard counterpart of the bound above.
proof fn lemma_position_le_sum_standard(m: SettmintManager, c: CurrencyId, a: AccountId)
    requires
        m.wf(),
    ensures
        0 <= m.standard_of(c, a) <= m.total_standard_of(c),
{
    let s = m.positions@;
    let f = standard_contrib(c, a);
    let g = currency_standard_contrib(c);
    assert forall|k: int| 0 <= k < s.len() implies #[trigger] f(s[k]) <= #[trigger] g(s[k]) by {}
    assert forall|k: int| 0 <= k < s.len() implies #[trigger] f(s[k]) >= 0 by {}
    lemma_sum_by_nonneg(s, f);
    crate::sums::lemma_sum_by_le_pointwise(s, f, g);
    assert(m.total_standard_of(c) == m.sum_standard(c));
}

/// How per-key and per-currency position sums move when one entry is
/// replaced by another with the same key.
proof fn lemma_position_update_effect(s: Seq<PositionEntry>, i: int, e: PositionEntry)
    requires
        0 <= i < s.len(),
        s[i].currency == e.currency,
        s[i].account == e.account,
    ensures
        forall|c2: CurrencyId, a2: AccountId|
            #[trigger] sum_by(s.update(i, e), reserve_contrib(c2, a2)) == sum_by(
                s,
                reserve_contrib(c2, a2),
            ) + (if c2 == e.currency && a2 == e.account {
                e.reserve - s[i].reserve
            } else {
                0
            }),
        forall|c2: CurrencyId, a2: AccountId|
            #[trigger] sum_by(s.update(i, e), standard_contrib(c2, a2)) == sum_by(
                s,
                standard_contrib(c2, a2),
            ) + (if c2 == e.currency && a2 == e.account {
                e.standard - s[i].standard
            } else {
                0
            }),
        forall|c2: CurrencyId|
            #[trigger] sum_by(s.update(i, e), currency_reserve_contrib(c2)) == sum_by(
                s,
                currency_reserve_contrib(c2),
            ) + (if c2 == e.currency {
                e.reserve - s[i].reserve
            } else {
                0
            }),
        forall|c2: CurrencyId|
            #[trigger] sum_by(s.update(i, e), currency_standard_contrib(c2)) == sum_by(
                s,
                currency_standard_contrib(c2),
            ) + (if c2 == e.currency {
                e.standard - s[i].standard
            } else {
                0
            }),
{
    assert forall|c2: CurrencyId, a2: AccountId|
        #[trigger] sum_by(s.update(i, e), reserve_contrib(c2, a2)) == sum_by(
            s,
            reserve_contrib(c2, a2),
        ) + (if c2 == e.currency && a2 == e.account {
            e.reserve - s[i].reserve
        } else {
            0
        }) by {
        lemma_sum_by_update(s, i, e, reserve_contrib(c2, a2));
    }
    assert forall|c2: CurrencyId, a2: AccountId|
        #[trigger] sum_by(s.update(i, e), standard_contrib(c2, a2)) == sum_by(
            s,
            standard_contrib(c2, a2),
        ) + (if c2 == e.currency && a2 == e.account {
            e.standard - s[i].standard
        } else {
            0
        }) by {
        lemma_sum_by_update(s, i, e, standard_contrib(c2, a2));
    }
    assert forall|c2: CurrencyId|
        #[trigger] sum_by(s.update(i, e), currency_reserve_contrib(c2)) == sum_by(
            s,
            currency_reserve_contrib(c2),
        ) + (if c2 == e.currency {
            e.reserve - s[i].reserve
        } else {
            0
        }) by {
        lemma_sum_by_update(s, i, e, currency_reserve_contrib(c2));
    }
    assert forall|c2: CurrencyId|
        #[trigger] sum_by(s.update(i, e), currency_standard_contrib(c2)) == sum_by(
            s,
            currency_standard_contrib(c2),
        ) + (if c2 == e.currency {
            e.standard - s[i].standard
        } else {
            0
        }) by {
        lemma_sum_by_update(s, i, e, currency_standard_contrib(c2));
    }
}

/// How per-key and per-currency position sums move when an entry is
/// appended.
proof fn lemma_position_push_effect(s: Seq<PositionEntry>, e: PositionEntry)
    ensures
        forall|c2: CurrencyId, a2: AccountId|
            #[trigger] sum_by(s.push(e), reserve_contrib(c2, a2)) == sum_by(
                s,
                reserve_contrib(c2, a2),
            ) + (if c2 == e.currency && a2 == e.account {
                e.reserve as int
            } else {
                0
            }),
        forall|c2: CurrencyId, a2: AccountId|
            #[trigger] sum_by(s.push(e), standard_contrib(c2, a2)) == sum_by(
                s,
                standard_contrib(c2, a2),
            ) + (if c2 == e.currency && a2 == e.account {
                e.standard as int
            } else {
                0
            }),
        forall|c2: CurrencyId|
            #[trigger] sum_by(s.push(e), currency_reserve_contrib(c2)) == sum_by(
                s,
                currency_reserve_contrib(c2),
            ) + (if c2 == e.currency {
                e.reserve as int
            } else {
                0
            }),
        forall|c2: CurrencyId|
            #[trigger] sum_by(s.push(e), currency_standard_contrib(c2)) == sum_by(
                s,
                currency_standard_contrib(c2),
            ) + (if c2 == e.currency {
                e.standard as int
            } else {
                0
            }),
{
    assert forall|c2: CurrencyId, a2: AccountId|
        #[trigger] sum_by(s.push(e), reserve_contrib(c2, a2)) == sum_by(s, reserve_contrib(c2, a2))
            + (if c2 == e.currency && a2 == e.account {
            e.reserve as int
        } else {
            0
        }) by {
        lemma_sum_by_push(s, e, reserve_contrib(c2, a2));
    }
    assert forall|c2: CurrencyId, a2: AccountId|
        #[trigger] sum_by(s.push(e), standard_contrib(c2, a2)) == sum_by(
            s,
            standard_contrib(c2, a2),
        ) + (if c2 == e.currency && a2 == e.account {
            e.standard as int
        } else {
            0
        }) by {
        lemma_sum_by_push(s, e, standard_contrib(c2, a2));
    }
    assert forall|c2: CurrencyId|
        #[trigger] sum_by(s.push(e), currency_reserve_contrib(c2)) == sum_by(
            s,
            currency_reserve_contrib(c2),
        ) + (if c2 == e.currency {
            e.reserve as int
        } else {
            0
        }) by {
        lemma_sum_by_push(s, e, currency_reserve_contrib(c2));
    }
    assert forall|c2: CurrencyId|
        #[trigger] sum_by(s.push(e), currency_standard_contrib(c2)) == sum_by(
            s,
            currency_standard_contrib(c2),
        ) + (if c2 == e.currency {
            e.standard as int
        } else {
            0
        }) by {
        lemma_sum_by_push(s, e, currency_standard_contrib(c2));
    }
}

/// How per-key and per-currency position sums move when the entry at `i`
/// is removed.
proof fn lemma_position_remove_effect(s: Seq<PositionEntry>, i: int)
    requires
        0 <= i < s.len(),
    ensures
        forall|c2: CurrencyId, a2: AccountId|
            #[trigger] sum_by(s.remove(i), reserve_contrib(c2, a2)) == sum_by(
                s,
                reserve_contrib(c2, a2),
            ) - (if c2 == s[i].currency && a2 == s[i].account {
                s[i].reserve as int
            } else {
                0
            }),
        forall|c2: CurrencyId, a2: AccountId|
            #[trigger] sum_by(s.remove(i), standard_contrib(c2, a2)) == sum_by(
                s,
                standard_contrib(c2, a2),
            ) - (if c2 == s[i].currency && a2 == s[i].account {
                s[i].standard as int
            } else {
                0
            }),
        forall|c2: CurrencyId|
            #[trigger] sum_by(s.remove(i), currency_reserve_contrib(c2)) == sum_by(
                s,
                currency_reserve_contrib(c2),
            ) - (if c2 == s[i].currency {
                s[i].reserve as int
            } else {
                0
            }),
        forall|c2: CurrencyId|
            #[trigger] sum_by(s.remove(i), currency_standard_contrib(c2)) == sum_by(
                s,
                currency_standard_contrib(c2),
            ) - (if c2 == s[i].currency {
                s[i].standard as int
            } else {
                0
            }),
{
    assert forall|c2: CurrencyId, a2: AccountId|
        #[trigger] sum_by(s.remove(i), reserve_contrib(c2, a2)) == sum_by(
            s,
            reserve_contrib(c2, a2),
        ) - (if c2 == s[i].currency && a2 == s[i].account {
            s[i].reserve as int
        } else {
            0
        }) by {
        lemma_sum_by_remove(s, i, reserve_contrib(c2, a2));
    }
    assert forall|c2: CurrencyId, a2: AccountId|
        #[trigger] sum_by(s.remove(i), standard_contrib(c2, a2)) == sum_by(
            s,
            standard_contrib(c2, a2),
        ) - (if c2 == s[i].currency && a2 == s[i].account {
            s[i].standard as int
        } else {
            0
        }) by {
        lemma_sum_by_remove(s, i, standard_contrib(c2, a2));
    }
    assert forall|c2: CurrencyId|
        #[trigger] sum_by(s.remove(i), currency_reserve_contrib(c2)) == sum_by(
            s,
            currency_reserve_contrib(c2),
        ) - (if c2 == s[i].currency {
            s[i].reserve as int
        } else {
            0
        }) by {
        lemma_sum_by_remove(s, i, currency_reserve_contrib(c2));
    }
    assert forall|c2: CurrencyId|
        #[trigger] sum_by(s.remove(i), currency_standard_contrib(c2)) == sum_by(
            s,
            currency_standard_contrib(c2),
        ) - (if c2 == s[i].currency {
            s[i].standard as int
        } else {
            0
        }) by {
        lemma_sum_by_remove(s, i, currency_standard_contrib(c2));
    }
}

/// How totals sums move when one entry is replaced, keeping its currency.
proof fn lemma_totals_update_effect(s: Seq<TotalsEntry>, i: int, e: TotalsEntry)
    requires
        0 <= i < s.len(),
        s[i].currency == e.currency,
    ensures
        forall|c2: CurrencyId|
            #[trigger] sum_by(s.update(i, e), totals_reserve_contrib(c2)) == sum_by(
                s,
                totals_reserve_contrib(c2),
            ) + (if c2 == e.currency {
                e.reserve - s[i].reserve
            } else {
                0
            }),
        forall|c2: CurrencyId|
            #[trigger] sum_by(s.update(i, e), totals_standard_contrib(c2)) == sum_by(
                s,
                totals_standard_contrib(c2),
            ) + (if c2 == e.currency {
                e.standard - s[i].standard
            } else {
                0
            }),
{
    assert forall|c2: CurrencyId|
        #[trigger] sum_by(s.update(i, e), totals_reserve_contrib(c2)) == sum_by(
            s,
            totals_reserve_contrib(c2),
        ) + (if c2 == e.currency {
            e.reserve - s[i].reserve
        } else {
            0
        }) by {
        lemma_sum_by_update(s, i, e, totals_reserve_contrib(c2));
    }
    assert forall|c2: CurrencyId|
        #[trigger] sum_by(s.update(i, e), totals_standard_contrib(c2)) == sum_by(
            s,
            totals_standard_contrib(c2),
        ) + (if c2 == e.currency {
            e.standard - s[i].standard
        } else {
            0
        }) by {
        lemma_sum_by_update(s, i, e, totals_standard_contrib(c2));
    }
}

/// How totals sums move when an entry is appended.
proof fn lemma_totals_push_effect(s: Seq<TotalsEntry>, e: TotalsEntry)
    ensures
        forall|c2: CurrencyId|
            #[trigger] sum_by(s.push(e), totals_reserve_contrib(c2)) == sum_by(
                s,
                totals_reserve_contrib(c2),
            ) + (if c2 == e.currency {
                e.reserve as int
            } else {
                0
            }),
        forall|c2: CurrencyId|
            #[trigger] sum_by(s.push(e), totals_standard_contrib(c2)) == sum_by(
                s,
                totals_standard_contrib(c2),
            ) + (if c2 == e.currency {
                e.standard as int
            } else {
                0
            }),
{
    assert forall|c2: CurrencyId|
        #[trigger] sum_by(s.push(e), totals_reserve_contrib(c2)) == sum_by(
            s,
            totals_reserve_contrib(c2),
        ) + (if c2 == e.currency {
            e.reserve as int
        } else {
            0
        }) by {
        lemma_sum_by_push(s, e, totals_reserve_contrib(c2));
    }
    assert forall|c2: CurrencyId|
        #[trigger] sum_by(s.push(e), totals_standard_contrib(c2)) == sum_by(
            s,
            totals_standard_contrib(c2),
        ) + (if c2 == e.currency {
            e.standard as int
        } else {
            0
        }) by {
        lemma_sum_by_push(s, e, totals_standard_contrib(c2));
    }
}

/// How consumer counts move when one entry is replaced, keeping its
/// account.
proof fn lemma_consumer_update_effect(s: Seq<ConsumerEntry>, i: int, e: ConsumerEntry)
    requires
        0 <= i < s.len(),
        s[i].account == e.account,
    ensures
        forall|a2: AccountId|
            #[trigger] sum_by(s.update(i, e), consumer_contrib(a2)) == sum_by(
                s,
                consumer_contrib(a2),
            ) + (if a2 == e.account {
                e.count - s[i].count
            } else {
                0
            }),
{
    assert forall|a2: AccountId|
        #[trigger] sum_by(s.update(i, e), consumer_contrib(a2)) == sum_by(s, consumer_contrib(a2))
            + (if a2 == e.account {
            e.count - s[i].count
        } else {
            0
        }) by {
        lemma_sum_by_update(s, i, e, consumer_contrib(a2));
    }
}

/// How consumer counts move when an entry is appended.
proof fn lemma_consumer_push_effect(s: Seq<ConsumerEntry>, e: ConsumerEntry)
    ensures
        forall|a2: AccountId|
            #[trigger] sum_by(s.push(e), consumer_contrib(a2)) == sum_by(s, consumer_contrib(a2))
                + (if a2 == e.account {
                e.count as int
            } else {
                0
            }),
{
    assert forall|a2: AccountId|
        #[trigger] sum_by(s.push(e), consumer_contrib(a2)) == sum_by(s, consumer_contrib(a2)) + (
        if a2 == e.account {
            e.count as int
        } else {
            0
        }) by {
        lemma_sum_by_push(s, e, consumer_contrib(a2));
    }
}

} // verus!
