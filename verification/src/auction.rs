//! The auction book, modelled as explicit injected state: the lots handed
//! to the auction subsystem, and per-kind counters of what is currently in
//! auction. The well-formedness invariant ties each counter to the sum of
//! its recorded lots.

use vstd::prelude::*;

use crate::sums::{lemma_sum_by_only, lemma_sum_by_push, lemma_sum_by_update, lemma_sum_by_zero, sum_by};
use crate::currency::CurrencyId;
use crate::{AccountId, Balance, Error};

verus! {

/// One reserve-collateral auction lot.
#[derive(Clone, Copy, Debug, PartialEq, Eq, Structural)]
pub struct SetterLot {
    pub refund_receiver: AccountId,
    pub currency: CurrencyId,
    pub amount: Balance,
    pub target: Balance,
}

/// One bad-debt auction lot.
#[derive(Clone, Copy, Debug, PartialEq, Eq, Structural)]
pub struct DiamondLot {
    pub initial_price: Balance,
    pub amount: Balance,
}

/// The reserve amount currently in auction for one currency.
#[derive(Clone, Copy, Debug, PartialEq, Eq, Structural)]
pub struct ReserveCounter {
    pub currency: CurrencyId,
    pub amount: Balance,
}

/// Contribution of a setter lot to one currency's in-auction reserve.
pub open spec fn lot_amount_contrib(c: CurrencyId) -> spec_fn(SetterLot) -> int {
    |l: SetterLot| if l.currency == c {
        l.amount as int
    } else {
        0
    }
}

/// Contribution of a counter entry to one currency's in-auction reserve.
pub open spec fn counter_contrib(c: CurrencyId) -> spec_fn(ReserveCounter) -> int {
    |e: ReserveCounter| if e.currency == c {
        e.amount as int
    } else {
        0
    }
}

/// The amount of one surplus lot.
pub open spec fn serplus_contrib() -> spec_fn(Balance) -> int {
    |x: Balance| x as int
}

/// The amount of one bad-debt lot.
pub open spec fn diamond_contrib() -> spec_fn(DiamondLot) -> int {
    |l: DiamondLot| l.amount as int
}

/// No two reserve counters carry the same currency.
pub open spec fn unique_counter_keys(s: Seq<ReserveCounter>) -> bool {
    forall|i: int, j: int| #![trigger s[i], s[j]]
        0 <= i < s.len() && 0 <= j < s.len() && i != j ==> s[i].currency != s[j].currency
}

/// The auction book.
pub struct Auctions {
    pub setter_lots: Vec<SetterLot>,
    pub serplus_lots: Vec<Balance>,
    pub diamond_lots: Vec<DiamondLot>,
    pub reserve_counters: Vec<ReserveCounter>,
    pub serplus_in_auction: Balance,
    pub standard_in_auction: Balance,
}

impl Auctions {
    /// The reserve of one currency currently in auction.
    pub open spec fn reserve_in_auction_of(self, c: CurrencyId) -> int {
        sum_by(self.reserve_counters@, counter_contrib(c))
    }

    /// The sum of the recorded setter lots of one currency.
    pub open spec fn lots_reserve_of(self, c: CurrencyId) -> int {
        sum_by(self.setter_lots@, lot_amount_contrib(c))
    }

    /// Well-formedness: each counter equals the sum of its lots.
    pub open spec fn wf(self) -> bool {
        &&& unique_counter_keys(self.reserve_counters@)
        &&& forall|c: CurrencyId| #[trigger] self.reserve_in_auction_of(c) == self.lots_reserve_of(c)
        &&& self.serplus_in_auction as int == sum_by(self.serplus_lots@, serplus_contrib())
        &&& self.standard_in_auction as int == sum_by(self.diamond_lots@, diamond_contrib())
    }

    /// An empty auction book.
    pub fn new() -> (r: Auctions)
        ensures
            r.wf(),
            r.setter_lots@.len() == 0,
            r.serplus_lots@.len() == 0,
            r.diamond_lots@.len() == 0,
            forall|c: CurrencyId| #[trigger] r.reserve_in_auction_of(c) == 0,
            r.serplus_in_auction == 0,
            r.standard_in_auction == 0,
    {
        let r = Auctions {
            setter_lots: Vec::new(),
            serplus_lots: Vec::new(),
            diamond_lots: Vec::new(),
            reserve_counters: Vec::new(),
            serplus_in_auction: 0,
            standard_in_auction: 0,
        };
        r
    }

    fn find_counter(&self, c: CurrencyId) -> (r: Option<usize>)
        ensures
            match r {
                Some(i) => i < self.reserve_counters@.len()
                    && self.reserve_counters@[i as int].currency == c,
                None => forall|k: int|
                    0 <= k < self.reserve_counters@.len() ==> (#[trigger] self.reserve_counters@[
                        k
                    ]).currency != c,
            },
    {
        let n = self.reserve_counters.len();
        let mut i: usize = 0;
        while i < n
            invariant
                n == self.reserve_counters@.len(),
                i <= n,
                forall|k: int| 0 <= k < i ==> (#[trigger] self.reserve_counters@[k]).currency != c,
            decreases n - i,
        {
            if self.reserve_counters[i].currency == c {
                return Some(i);
            }
            i = i + 1;
        }
        None
    }

    /// The reserve of the currency currently locked in auctions.
    pub fn total_reserve_in_auction(&self, c: CurrencyId) -> (r: Balance)
        requires
            self.wf(),
        ensures
            r as int == self.reserve_in_auction_of(c),
    {
        match self.find_counter(c) {
            Some(i) => {
                proof {
                    lemma_counter_at(self.reserve_counters@, i as int, c);
                }
                self.reserve_counters[i].amount
            },
            None => {
                proof {
                    lemma_counter_absent(self.reserve_counters@, c);
                }
                0
            },
        }
    }

    /// The surplus currently locked in auctions.
    pub fn total_serplus_in_auction(&self) -> (r: Balance)
        ensures
            r == self.serplus_in_auction,
    {
        self.serplus_in_auction
    }

    /// The bad debt currently locked in auctions.
    pub fn total_standard_in_auction(&self) -> (r: Balance)
        ensures
            r == self.standard_in_auction,
    {
        self.standard_in_auction
    }

    /// Record one reserve-collateral lot. Declines with `Overflow` exactly
    /// when the currency's in-auction counter would leave the range.
    pub fn new_setter_auction(
        &mut self,
        refund_receiver: &AccountId,
        c: CurrencyId,
        amount: Balance,
        target: Balance,
    ) -> (r: Result<(), Error>)
        requires
            old(self).wf(),
        ensures
            final(self).wf(),
            final(self).serplus_lots@ == old(self).serplus_lots@,
            final(self).diamond_lots@ == old(self).diamond_lots@,
            final(self).serplus_in_auction == old(self).serplus_in_auction,
            final(self).standard_in_auction == old(self).standard_in_auction,
            match r {
                Ok(()) => {
                    &&& old(self).reserve_in_auction_of(c) + amount <= Balance::MAX
                    &&& final(self).setter_lots@ == old(self).setter_lots@.push(
                        SetterLot { refund_receiver: *refund_receiver, currency: c, amount, target },
                    )
                    &&& forall|c2: CurrencyId|
                        #[trigger] final(self).reserve_in_auction_of(c2) == old(
                            self,
                        ).reserve_in_auction_of(c2) + (if c2 == c {
                            amount as int
                        } else {
                            0
                        })
                },
                Err(e) => {
                    &&& e == Error::Overflow
                    &&& old(self).reserve_in_auction_of(c) + amount > Balance::MAX
                    &&& *final(self) == *old(self)
                },
            },
    {
        let ghost s0 = *self;
        let lot = SetterLot { refund_receiver: *refund_receiver, currency: c, amount, target };
        match self.find_counter(c) {
            Some(i) => {
                proof {
                    lemma_counter_at(self.reserve_counters@, i as int, c);
                }
                let cur = self.reserve_counters[i].amount;
                match cur.checked_add(amount) {
                    Some(new_amount) => {
                        self.reserve_counters[i] = ReserveCounter { currency: c, amount: new_amount };
                        proof {
                            lemma_counter_update_effect(
                                s0.reserve_counters@,
                                i as int,
                                new_amount,
                                c,
                            );
                        }
                    },
                    None => {
                        return Err(Error::Overflow);
                    },
                }
            },
            None => {
                proof {
                    lemma_counter_absent(self.reserve_counters@, c);
                }
                self.reserve_counters.push(ReserveCounter { currency: c, amount });
                proof {
                    lemma_counter_push_effect(
                        s0.reserve_counters@,
                        ReserveCounter { currency: c, amount },
                    );
                }
            },
        }
        self.setter_lots.push(lot);
        proof {
            assert forall|c2: CurrencyId| #[trigger] self.reserve_in_auction_of(c2)
                == self.lots_reserve_of(c2) by {
                assert(s0.reserve_in_auction_of(c2) == s0.lots_reserve_of(c2));
                lemma_sum_by_push(s0.setter_lots@, lot, lot_amount_contrib(c2));
            }
        }
        Ok(())
    }

    /// Record one surplus lot. Declines with `Overflow` exactly when the
    /// in-auction counter would leave the range.
    pub fn new_serplus_auction(&mut self, amount: Balance) -> (r: Result<(), Error>)
        requires
            old(self).wf(),
        ensures
            final(self).wf(),
            final(self).setter_lots@ == old(self).setter_lots@,
            final(self).diamond_lots@ == old(self).diamond_lots@,
            final(self).reserve_counters@ == old(self).reserve_counters@,
            final(self).standard_in_auction == old(self).standard_in_auction,
            match r {
                Ok(()) => {
                    &&& old(self).serplus_in_auction + amount <= Balance::MAX
                    &&& final(self).serplus_lots@ == old(self).serplus_lots@.push(amount)
                    &&& final(self).serplus_in_auction == old(self).serplus_in_auction + amount
                },
                Err(e) => {
                    &&& e == Error::Overflow
                    &&& old(self).serplus_in_auction + amount > Balance::MAX
                    &&& *final(self) == *old(self)
                },
            },
    {
        let new_total = match self.serplus_in_auction.checked_add(amount) {
            Some(v) => v,
            None => {
                return Err(Error::Overflow);
            },
        };
        proof {
            lemma_sum_by_push(self.serplus_lots@, amount, serplus_contrib());
        }
        self.serplus_in_auction = new_total;
        self.serplus_lots.push(amount);
        proof {
            assert forall|c2: CurrencyId| #[trigger] self.reserve_in_auction_of(c2)
                == self.lots_reserve_of(c2) by {
                assert(old(self).reserve_in_auction_of(c2) == old(self).lots_reserve_of(c2));
            }
        }
        Ok(())
    }

    /// Record one bad-debt lot. Declines with `Overflow` exactly when the
    /// in-auction counter would leave the range.
    pub fn new_diamond_auction(&mut self, initial_price: Balance, amount: Balance) -> (r: Result<
        (),
        Error,
    >)
        requires
            old(self).wf(),
        ensures
            final(self).wf(),
            final(self).setter_lots@ == old(self).setter_lots@,
            final(self).serplus_lots@ == old(self).serplus_lots@,
            final(self).reserve_counters@ == old(self).reserve_counters@,
            final(self).serplus_in_auction == old(self).serplus_in_auction,
            match r {
                Ok(()) => {
                    &&& old(self).standard_in_auction + amount <= Balance::MAX
                    &&& final(self).diamond_lots@ == old(self).diamond_lots@.push(
                        DiamondLot { initial_price, amount },
                    )
                    &&& final(self).standard_in_auction == old(self).standard_in_auction + amount
                },
                Err(e) => {
                    &&& e == Error::Overflow
                    &&& old(self).standard_in_auction + amount > Balance::MAX
                    &&& *final(self) == *old(self)
                },
            },
    {
        let new_total = match self.standard_in_auction.checked_add(amount) {
            Some(v) => v,
            None => {
                return Err(Error::Overflow);
            },
        };
        let lot = DiamondLot { initial_price, amount };
        proof {
            lemma_sum_by_push(self.diamond_lots@, lot, diamond_contrib());
        }
        self.standard_in_auction = new_total;
        self.diamond_lots.push(lot);
        proof {
            assert forall|c2: CurrencyId| #[trigger] self.reserve_in_auction_of(c2)
                == self.lots_reserve_of(c2) by {
                assert(old(self).reserve_in_auction_of(c2) == old(self).lots_reserve_of(c2));
            }
        }
        Ok(())
    }
}

/// With unique keys, the counter of a currency is its one entry's amount.
proof fn lemma_counter_at(s: Seq<ReserveCounter>, i: int, c: CurrencyId)
    requires
        unique_counter_keys(s),
        0 <= i < s.len(),
        s[i].currency == c,
    ensures
        sum_by(s, counter_contrib(c)) == s[i].amount as int,
{
    let f = counter_contrib(c);
    assert forall|k: int| 0 <= k < s.len() && k != i implies #[trigger] f(s[k]) == 0 by {
        assert(s[k].currency != s[i].currency);
    }
    lemma_sum_by_only(s, i, f);
}

/// Without a matching entry, the counter of a currency is zero.
proof fn lemma_counter_absent(s: Seq<ReserveCounter>, c: CurrencyId)
    requires
        forall|k: int| 0 <= k < s.len() ==> (#[trigger] s[k]).currency != c,
    ensures
        sum_by(s, counter_contrib(c)) == 0,
{
    let f = counter_contrib(c);
    assert forall|k: int| 0 <= k < s.len() implies #[trigger] f(s[k]) == 0 by {}
    lemma_sum_by_zero(s, f);
}

/// How counters move when one entry is replaced, keeping its currency.
proof fn lemma_counter_update_effect(s: Seq<ReserveCounter>, i: int, amount: Balance, c: CurrencyId)
    requires
        0 <= i < s.len(),
        s[i].currency == c,
    ensures
        forall|c2: CurrencyId|
            #[trigger] sum_by(
                s.update(i, ReserveCounter { currency: c, amount }),
                counter_contrib(c2),
            ) == sum_by(s, counter_contrib(c2)) + (if c2 == c {
                amount - s[i].amount
            } else {
                0
            }),
{
    let e = ReserveCounter { currency: c, amount };
    assert forall|c2: CurrencyId|
        #[trigger] sum_by(s.update(i, e), counter_contrib(c2)) == sum_by(s, counter_contrib(c2))
            + (if c2 == c {
            amount - s[i].amount
        } else {
            0
        }) by {
        lemma_sum_by_update(s, i, e, counter_contrib(c2));
    }
}

/// How counters move when an entry is appended.
proof fn lemma_counter_push_effect(s: Seq<ReserveCounter>, e: ReserveCounter)
    ensures
        forall|c2: CurrencyId|
            #[trigger] sum_by(s.push(e), counter_contrib(c2)) == sum_by(s, counter_contrib(c2)) + (
            if c2 == e.currency {
                e.amount as int
            } else {
                0
            }),
{
    assert forall|c2: CurrencyId|
        #[trigger] sum_by(s.push(e), counter_contrib(c2)) == sum_by(s, counter_contrib(c2)) + (
        if c2 == e.currency {
            e.amount as int
        } else {
            0
        }) by {
        lemma_sum_by_push(s, e, counter_contrib(c2));
    }
}

} // verus!
