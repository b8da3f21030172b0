//! The treasury pools: the bad-debt counter (`standard_pool`), the surplus
//! held as the treasury account's stable-currency balance, the per-cycle
//! offset between the two, and the splitting of reserve liquidations into
//! bounded auction lots.

use vstd::prelude::*;

use vstd::arithmetic::div_mod::{lemma_fundamental_div_mod, lemma_remainder};
use crate::lookup::{
    first_match, lemma_first_match_found, lemma_first_match_prepend, lemma_first_match_skip,
};
use crate::auction::Auctions;
use crate::currency::CurrencyId;
use crate::dex::{spec_quote_supply, spec_quote_target, Dex};
use crate::ledger::Ledger;
use crate::{AccountId, Balance, Error, Ratio, SCALE};

verus! {

/// The expected auction lot size configured for one currency.
#[derive(Clone, Copy, Debug, PartialEq, Eq, Structural)]
pub struct SizeEntry {
    pub currency: CurrencyId,
    pub size: Balance,
}

/// Whether a size entry configures the given currency.
pub open spec fn size_key(c: CurrencyId) -> spec_fn(SizeEntry) -> bool {
    |e: SizeEntry| e.currency == c
}

/// What the treasury announces.
#[derive(Clone, Copy, Debug, PartialEq, Eq, Structural)]
pub enum TreasuryEvent {
    /// The expected lot size of a currency was updated.
    ExpectedSetterAuctionSizeUpdated(CurrencyId, Balance),
}

/// The smaller of two quantities.
pub open spec fn spec_offset_amount(standard: int, serplus: int) -> int {
    if standard <= serplus {
        standard
    } else {
        serplus
    }
}

/// The number of lots a reserve liquidation is split into.
pub open spec fn spec_lots_count(splited: bool, max: int, size: int, amount: int) -> int {
    if !splited || max == 0 || size == 0 || amount <= size {
        1
    } else {
        let q = amount / size;
        let count = if amount % size == 0 {
            q
        } else {
            q + 1
        };
        if count <= max {
            count
        } else {
            max
        }
    }
}

/// The treasury pools and auction policy.
pub struct SerpTreasury {
    /// System-wide bad debt awaiting offset.
    pub standard_pool: Balance,
    /// Per-currency expected auction lot sizes.
    pub auction_sizes: Vec<SizeEntry>,
    pub events: Vec<TreasuryEvent>,
    /// The treasury's own ledger account.
    pub account: AccountId,
    /// The stable currency the pools are denominated in.
    pub stable_currency: CurrencyId,
    /// The cap on the number of lots one liquidation may create.
    pub max_auctions_count: u32,
}

impl SerpTreasury {
    /// The expected lot size configured for a currency; zero when none is.
    pub open spec fn spec_auction_size_of(self, c: CurrencyId) -> Balance {
        match first_match(self.auction_sizes@, size_key(c)) {
            Some(e) => e.size,
            None => 0,
        }
    }

    /// The treasury's surplus: its own stable-currency balance.
    pub open spec fn spec_serpluspool(self, ledger: Ledger) -> int {
        ledger.balance_of(self.stable_currency, self.account)
    }

    /// The reserve of a currency not locked in auctions.
    pub open spec fn spec_total_reserves_not_in_auction(
        self,
        ledger: Ledger,
        auctions: Auctions,
        c: CurrencyId,
    ) -> int {
        let bal = ledger.balance_of(c, self.account);
        let in_auction = auctions.reserve_in_auction_of(c);
        if bal >= in_auction {
            bal - in_auction
        } else {
            0
        }
    }

    /// A fresh treasury with empty pools and no lot sizes configured.
    pub fn new(account: AccountId, stable_currency: CurrencyId, max_auctions_count: u32) -> (r:
        SerpTreasury)
        ensures
            r.standard_pool == 0,
            r.account == account,
            r.stable_currency == stable_currency,
            r.max_auctions_count == max_auctions_count,
            forall|c: CurrencyId| #[trigger] r.spec_auction_size_of(c) == 0,
            r.events@.len() == 0,
    {
        SerpTreasury {
            standard_pool: 0,
            auction_sizes: Vec::new(),
            events: Vec::new(),
            account,
            stable_currency,
            max_auctions_count,
        }
    }

    /// The treasury's own ledger account.
    pub fn account_id(&self) -> (r: AccountId)
        ensures
            r == self.account,
    {
        self.account
    }

    /// The system-wide bad debt awaiting offset.
    pub fn standard_pool(&self) -> (r: Balance)
        ensures
            r == self.standard_pool,
    {
        self.standard_pool
    }

    /// The treasury's surplus: its own stable-currency balance.
    pub fn serpluspool(&self, ledger: &Ledger) -> (r: Balance)
        requires
            ledger.wf(),
        ensures
            r as int == self.spec_serpluspool(*ledger),
    {
        ledger.free_balance(self.stable_currency, self.account)
    }

    /// The treasury's reserve holding of a currency.
    pub fn total_reserves(&self, ledger: &Ledger, c: CurrencyId) -> (r: Balance)
        requires
            ledger.wf(),
        ensures
            r as int == ledger.balance_of(c, self.account),
    {
        ledger.free_balance(c, self.account)
    }

    /// The treasury's reserve holding of a currency not locked in auctions.
    pub fn total_reserves_not_in_auction(
        &self,
        ledger: &Ledger,
        auctions: &Auctions,
        c: CurrencyId,
    ) -> (r: Balance)
        requires
            ledger.wf(),
            auctions.wf(),
        ensures
            r as int == self.spec_total_reserves_not_in_auction(*ledger, *auctions, c),
    {
        let bal = ledger.free_balance(c, self.account);
        let in_auction = auctions.total_reserve_in_auction(c);
        if bal >= in_auction {
            bal - in_auction
        } else {
            0
        }
    }

    /// The expected auction lot size of a currency.
    pub fn expected_setter_auction_size(&self, c: CurrencyId) -> (r: Balance)
        ensures
            r == self.spec_auction_size_of(c),
    {
        let n = self.auction_sizes.len();
        let mut i: usize = 0;
        proof {
            assert(self.auction_sizes@.subrange(0, n as int) =~= self.auction_sizes@);
        }
        while i < n
            invariant
                i <= n,
                n == self.auction_sizes@.len(),
                first_match(self.auction_sizes@, size_key(c)) == first_match(
                    self.auction_sizes@.subrange(i as int, n as int),
                    size_key(c),
                ),
            decreases n - i,
        {
            if self.auction_sizes[i].currency == c {
                proof {
                    lemma_first_match_found(self.auction_sizes@, size_key(c), i as int);
                }
                return self.auction_sizes[i].size;
            }
            proof {
                lemma_first_match_skip(self.auction_sizes@, size_key(c), i as int);
            }
            i = i + 1;
        }
        proof {
            assert(self.auction_sizes@.subrange(n as int, n as int).len() == 0);
        }
        0
    }

    /// Update the expected auction lot size of a currency.
    pub fn set_expected_setter_auction_size(&mut self, c: CurrencyId, size: Balance)
        ensures
            final(self).standard_pool == old(self).standard_pool,
            final(self).account == old(self).account,
            final(self).stable_currency == old(self).stable_currency,
            final(self).max_auctions_count == old(self).max_auctions_count,
            forall|c2: CurrencyId|
                #[trigger] final(self).spec_auction_size_of(c2) == if c2 == c {
                    size
                } else {
                    old(self).spec_auction_size_of(c2)
                },
            final(self).events@ == old(self).events@.push(
                TreasuryEvent::ExpectedSetterAuctionSizeUpdated(c, size),
            ),
    {
        let e = SizeEntry { currency: c, size };
        self.auction_sizes.insert(0, e);
        self.events.push(TreasuryEvent::ExpectedSetterAuctionSizeUpdated(c, size));
        proof {
            assert forall|c2: CurrencyId|
                #[trigger] self.spec_auction_size_of(c2) == if c2 == c {
                    size
                } else {
                    old(self).spec_auction_size_of(c2)
                } by {
                lemma_first_match_prepend(old(self).auction_sizes@, size_key(c2), e);
            }
        }
    }

    /// The most recent event, if any.
    pub fn last_event(&self) -> (r: Option<TreasuryEvent>)
        ensures
            r == if self.events@.len() == 0 {
                None::<TreasuryEvent>
            } else {
                Some(self.events@.last())
            },
    {
        let n = self.events.len();
        if n == 0 {
            None
        } else {
            Some(self.events[n - 1])
        }
    }

    /// Offset bad debt against surplus: burn the smaller of the two from
    /// the treasury's stable balance and take it off the standard pool.
    /// Once either side is zero the offset amount is zero and the state is
    /// left untouched, so a second run in a row changes nothing.
    pub fn offset_serplusand_standard(&mut self, ledger: &mut Ledger)
        requires
            old(ledger).wf(),
        ensures
            final(ledger).wf(),
            final(self).account == old(self).account,
            final(self).stable_currency == old(self).stable_currency,
            final(self).max_auctions_count == old(self).max_auctions_count,
            final(self).auction_sizes@ == old(self).auction_sizes@,
            final(self).events@ == old(self).events@,
            ({
                let m = spec_offset_amount(
                    old(self).standard_pool as int,
                    old(self).spec_serpluspool(*old(ledger)),
                );
                &&& final(self).standard_pool == old(self).standard_pool - m
                &&& forall|c2: CurrencyId, a2: AccountId|
                    #[trigger] final(ledger).balance_of(c2, a2) == old(ledger).balance_of(c2, a2)
                        - (if c2 == old(self).stable_currency && a2 == old(self).account {
                        m
                    } else {
                        0
                    })
                &&& forall|c2: CurrencyId|
                    #[trigger] final(ledger).issuance_of(c2) == old(ledger).issuance_of(c2) - (
                    if c2 == old(self).stable_currency {
                        m
                    } else {
                        0
                    })
                &&& spec_offset_amount(
                    final(self).standard_pool as int,
                    final(self).spec_serpluspool(*final(ledger)),
                ) == 0
            }),
    {
        let serplus = ledger.free_balance(self.stable_currency, self.account);
        let offset_amount = if self.standard_pool <= serplus {
            self.standard_pool
        } else {
            serplus
        };
        if offset_amount != 0 {
            match ledger.withdraw(self.stable_currency, self.account, offset_amount) {
                Ok(()) => {
                    self.standard_pool = self.standard_pool - offset_amount;
                },
                Err(e) => {
                    // Unreachable: the offset never exceeds the balance.
                    assert(false);
                },
            }
        }
    }

    /// Add system bad debt to the standard pool. Declines with
    /// `StandardPoolOverflow` exactly when the pool would leave the range.
    pub fn on_system_standard(&mut self, amount: Balance) -> (r: Result<(), Error>)
        ensures
            final(self).account == old(self).account,
            final(self).stable_currency == old(self).stable_currency,
            final(self).max_auctions_count == old(self).max_auctions_count,
            final(self).auction_sizes@ == old(self).auction_sizes@,
            final(self).events@ == old(self).events@,
            match r {
                Ok(()) => {
                    &&& old(self).standard_pool + amount <= Balance::MAX
                    &&& final(self).standard_pool == old(self).standard_pool + amount
                },
                Err(e) => {
                    &&& e == Error::StandardPoolOverflow
                    &&& old(self).standard_pool + amount > Balance::MAX
                    &&& *final(self) == *old(self)
                },
            },
    {
        match self.standard_pool.checked_add(amount) {
            Some(v) => {
                self.standard_pool = v;
                Ok(())
            },
            None => Err(Error::StandardPoolOverflow),
        }
    }

    /// Treat system surplus as stable currency minted to the treasury.
    pub fn on_system_serplus(&self, ledger: &mut Ledger, amount: Balance) -> (r: Result<(), Error>)
        requires
            old(ledger).wf(),
        ensures
            final(ledger).wf(),
            match r {
                Ok(()) => {
                    &&& old(ledger).issuance_of(self.stable_currency) + amount <= Balance::MAX
                    &&& forall|c2: CurrencyId, a2: AccountId|
                        #[trigger] final(ledger).balance_of(c2, a2) == old(ledger).balance_of(
                            c2,
                            a2,
                        ) + (if c2 == self.stable_currency && a2 == self.account {
                            amount as int
                        } else {
                            0
                        })
                    &&& forall|c2: CurrencyId|
                        #[trigger] final(ledger).issuance_of(c2) == old(ledger).issuance_of(c2)
                            + (if c2 == self.stable_currency {
                            amount as int
                        } else {
                            0
                        })
                },
                Err(e) => {
                    &&& e == Error::Overflow
                    &&& old(ledger).issuance_of(self.stable_currency) + amount > Balance::MAX
                    &&& *final(ledger) == *old(ledger)
                },
            },
    {
        self.issue_standard(ledger, self.account, amount)
    }

    /// Mint stable currency to an account.
    pub fn issue_standard(&self, ledger: &mut Ledger, who: AccountId, amount: Balance) -> (r:
        Result<(), Error>)
        requires
            old(ledger).wf(),
        ensures
            final(ledger).wf(),
            match r {
                Ok(()) => {
                    &&& old(ledger).issuance_of(self.stable_currency) + amount <= Balance::MAX
                    &&& forall|c2: CurrencyId, a2: AccountId|
                        #[trigger] final(ledger).balance_of(c2, a2) == old(ledger).balance_of(
                            c2,
                            a2,
                        ) + (if c2 == self.stable_currency && a2 == who {
                            amount as int
                        } else {
                            0
                        })
                    &&& forall|c2: CurrencyId|
                        #[trigger] final(ledger).issuance_of(c2) == old(ledger).issuance_of(c2)
                            + (if c2 == self.stable_currency {
                            amount as int
                        } else {
                            0
                        })
                },
                Err(e) => {
                    &&& e == Error::Overflow
                    &&& old(ledger).issuance_of(self.stable_currency) + amount > Balance::MAX
                    &&& *final(ledger) == *old(ledger)
                },
            },
    {
        ledger.deposit(self.stable_currency, who, amount)
    }

    /// Burn stable currency from an account.
    pub fn burn_standard(&self, ledger: &mut Ledger, who: AccountId, amount: Balance) -> (r: Result<
        (),
        Error,
    >)
        requires
            old(ledger).wf(),
        ensures
            final(ledger).wf(),
            match r {
                Ok(()) => {
                    &&& old(ledger).balance_of(self.stable_currency, who) >= amount
                    &&& forall|c2: CurrencyId, a2: AccountId|
                        #[trigger] final(ledger).balance_of(c2, a2) == old(ledger).balance_of(
                            c2,
                            a2,
                        ) - (if c2 == self.stable_currency && a2 == who {
                            amount as int
                        } else {
                            0
                        })
                    &&& forall|c2: CurrencyId|
                        #[trigger] final(ledger).issuance_of(c2) == old(ledger).issuance_of(c2)
                            - (if c2 == self.stable_currency {
                            amount as int
                        } else {
                            0
                        })
                },
                Err(e) => {
                    &&& e == Error::InsufficientBalance
                    &&& old(ledger).balance_of(self.stable_currency, who) < amount
                    &&& *final(ledger) == *old(ledger)
                },
            },
    {
        ledger.withdraw(self.stable_currency, who, amount)
    }

    /// Move stable currency from an account into the treasury.
    pub fn deposit_serplus(&self, ledger: &mut Ledger, from: AccountId, amount: Balance) -> (r:
        Result<(), Error>)
        requires
            old(ledger).wf(),
        ensures
            final(ledger).wf(),
            match r {
                Ok(()) => {
                    &&& old(ledger).balance_of(self.stable_currency, from) >= amount
                    &&& forall|c2: CurrencyId, a2: AccountId|
                        #[trigger] final(ledger).balance_of(c2, a2) == old(ledger).balance_of(
                            c2,
                            a2,
                        ) - (if c2 == self.stable_currency && a2 == from {
                            amount as int
                        } else {
                            0
                        }) + (if c2 == self.stable_currency && a2 == self.account {
                            amount as int
                        } else {
                            0
                        })
                    &&& forall|c2: CurrencyId|
                        #[trigger] final(ledger).issuance_of(c2) == old(ledger).issuance_of(c2)
                },
                Err(e) => {
                    &&& e == Error::InsufficientBalance
                    &&& old(ledger).balance_of(self.stable_currency, from) < amount
                    &&& *final(ledger) == *old(ledger)
                },
            },
    {
        ledger.transfer(self.stable_currency, from, self.account, amount)
    }

    /// Move reserve collateral from an account into the treasury.
    pub fn deposit_reserve(
        &self,
        ledger: &mut Ledger,
        from: AccountId,
        c: CurrencyId,
        amount: Balance,
    ) -> (r: Result<(), Error>)
        requires
            old(ledger).wf(),
        ensures
            final(ledger).wf(),
            match r {
                Ok(()) => {
                    &&& old(ledger).balance_of(c, from) >= amount
                    &&& forall|c2: CurrencyId, a2: AccountId|
                        #[trigger] final(ledger).balance_of(c2, a2) == old(ledger).balance_of(
                            c2,
                            a2,
                        ) - (if c2 == c && a2 == from {
                            amount as int
                        } else {
                            0
                        }) + (if c2 == c && a2 == self.account {
                            amount as int
                        } else {
                            0
                        })
                    &&& forall|c2: CurrencyId|
                        #[trigger] final(ledger).issuance_of(c2) == old(ledger).issuance_of(c2)
                },
                Err(e) => {
                    &&& e == Error::InsufficientBalance
                    &&& old(ledger).balance_of(c, from) < amount
                    &&& *final(ledger) == *old(ledger)
                },
            },
    {
        ledger.transfer(c, from, self.account, amount)
    }

    /// Move reserve collateral from the treasury to an account.
    pub fn withdraw_reserve(
        &self,
        ledger: &mut Ledger,
        to: AccountId,
        c: CurrencyId,
        amount: Balance,
    ) -> (r: Result<(), Error>)
        requires
            old(ledger).wf(),
        ensures
            final(ledger).wf(),
            match r {
                Ok(()) => {
                    &&& old(ledger).balance_of(c, self.account) >= amount
                    &&& forall|c2: CurrencyId, a2: AccountId|
                        #[trigger] final(ledger).balance_of(c2, a2) == old(ledger).balance_of(
                            c2,
                            a2,
                        ) - (if c2 == c && a2 == self.account {
                            amount as int
                        } else {
                            0
                        }) + (if c2 == c && a2 == to {
                            amount as int
                        } else {
                            0
                        })
                    &&& forall|c2: CurrencyId|
                        #[trigger] final(ledger).issuance_of(c2) == old(ledger).issuance_of(c2)
                },
                Err(e) => {
                    &&& e == Error::InsufficientBalance
                    &&& old(ledger).balance_of(c, self.account) < amount
                    &&& *final(ledger) == *old(ledger)
                },
            },
    {
        ledger.transfer(c, self.account, to, amount)
    }

    /// The share of the stable supply that `amount` represents, as a
    /// fixed-point ratio; zero when the supply is zero or the scaled
    /// numerator leaves the range.
    pub fn get_standard_proportion(&self, ledger: &Ledger, amount: Balance) -> (r: Ratio)
        requires
            ledger.wf(),
        ensures
            r as int == ({
                let total = ledger.issuance_of(self.stable_currency);
                if total > 0 && amount * SCALE <= Balance::MAX {
                    (amount * SCALE) / total
                } else {
                    0
                }
            }),
    {
        let total = ledger.total_issuance(self.stable_currency);
        if total == 0 {
            return 0;
        }
        match amount.checked_mul(SCALE) {
            Some(scaled) => scaled / total,
            None => 0,
        }
    }

    /// The error, if any, with which `auction_serplus` declines.
    pub open spec fn spec_auction_serplus_error(
        self,
        ledger: Ledger,
        auctions: Auctions,
        amount: Balance,
    ) -> Option<Error> {
        let pool = self.spec_serpluspool(ledger);
        let in_auction = auctions.serplus_in_auction as int;
        let avail = if pool >= in_auction {
            pool - in_auction
        } else {
            0
        };
        if avail < amount {
            Some(Error::SerplusPoolNotEnough)
        } else if in_auction + amount > Balance::MAX {
            Some(Error::Overflow)
        } else {
            None
        }
    }

    /// Hand surplus not yet in auction to the auction book, one lot.
    pub fn auction_serplus(&self, ledger: &Ledger, auctions: &mut Auctions, amount: Balance) -> (r:
        Result<(), Error>)
        requires
            ledger.wf(),
            old(auctions).wf(),
        ensures
            final(auctions).wf(),
            match r {
                Ok(()) => {
                    &&& self.spec_auction_serplus_error(*ledger, *old(auctions), amount) is None
                    &&& final(auctions).serplus_lots@ == old(auctions).serplus_lots@.push(amount)
                    &&& final(auctions).serplus_in_auction == old(auctions).serplus_in_auction
                        + amount
                    &&& final(auctions).setter_lots@ == old(auctions).setter_lots@
                    &&& final(auctions).diamond_lots@ == old(auctions).diamond_lots@
                    &&& final(auctions).standard_in_auction == old(auctions).standard_in_auction
                },
                Err(e) => {
                    &&& Some(e) == self.spec_auction_serplus_error(*ledger, *old(auctions), amount)
                    &&& *final(auctions) == *old(auctions)
                },
            },
    {
        let pool = self.serpluspool(ledger);
        let in_auction = auctions.total_serplus_in_auction();
        let avail = if pool >= in_auction {
            pool - in_auction
        } else {
            0
        };
        if avail < amount {
            return Err(Error::SerplusPoolNotEnough);
        }
        auctions.new_serplus_auction(amount)
    }

    /// The error, if any, with which `auction_standard` declines.
    pub open spec fn spec_auction_standard_error(
        self,
        auctions: Auctions,
        standard_amount: Balance,
    ) -> Option<Error> {
        let in_auction = auctions.standard_in_auction as int;
        let avail = if self.standard_pool >= in_auction {
            self.standard_pool - in_auction
        } else {
            0
        };
        if avail < standard_amount {
            Some(Error::StandardPoolNotEnough)
        } else if in_auction + standard_amount > Balance::MAX {
            Some(Error::Overflow)
        } else {
            None
        }
    }

    /// Hand bad debt not yet in auction to the auction book, one lot.
    pub fn auction_standard(
        &self,
        auctions: &mut Auctions,
        standard_amount: Balance,
        initial_price: Balance,
    ) -> (r: Result<(), Error>)
        requires
            old(auctions).wf(),
        ensures
            final(auctions).wf(),
            match r {
                Ok(()) => {
                    &&& self.spec_auction_standard_error(*old(auctions), standard_amount) is None
                    &&& final(auctions).diamond_lots@ == old(auctions).diamond_lots@.push(
                        crate::auction::DiamondLot { initial_price, amount: standard_amount },
                    )
                    &&& final(auctions).standard_in_auction == old(auctions).standard_in_auction
                        + standard_amount
                    &&& final(auctions).setter_lots@ == old(auctions).setter_lots@
                    &&& final(auctions).serplus_lots@ == old(auctions).serplus_lots@
                    &&& final(auctions).serplus_in_auction == old(auctions).serplus_in_auction
                },
                Err(e) => {
                    &&& Some(e) == self.spec_auction_standard_error(*old(auctions), standard_amount)
                    &&& *final(auctions) == *old(auctions)
                },
            },
    {
        let in_auction = auctions.total_standard_in_auction();
        let avail = if self.standard_pool >= in_auction {
            self.standard_pool - in_auction
        } else {
            0
        };
        if avail < standard_amount {
            return Err(Error::StandardPoolNotEnough);
        }
        auctions.new_diamond_auction(initial_price, standard_amount)
    }
    /// The error, if any, with which `create_setter_auctions` declines.
    pub open spec fn spec_create_auctions_error(
        self,
        ledger: Ledger,
        auctions: Auctions,
        c: CurrencyId,
        amount: Balance,
    ) -> Option<Error> {
        if self.spec_total_reserves_not_in_auction(ledger, auctions, c) < amount {
            Some(Error::ReserveNotEnough)
        } else if auctions.reserve_in_auction_of(c) + amount > Balance::MAX {
            Some(Error::Overflow)
        } else {
            None
        }
    }

    /// Split `amount` of reserve (with its stable-currency `target`) into
    /// auction lots: one lot when splitting is off, no lot size is set, or
    /// the amount fits; otherwise `ceil(amount / size)` lots capped at the
    /// configured maximum, every lot but the last carrying
    /// `floor(amount / lots)` reserve and `floor(target / lots)` target,
    /// the last absorbing the remainders, so the lots partition `amount`
    /// and `target` exactly.
    pub fn create_setter_auctions(
        &self,
        ledger: &Ledger,
        auctions: &mut Auctions,
        currency_id: CurrencyId,
        amount: Balance,
        target: Balance,
        refund_receiver: AccountId,
        splited: bool,
    ) -> (r: Result<(), Error>)
        requires
            ledger.wf(),
            old(auctions).wf(),
        ensures
            final(auctions).wf(),
            final(auctions).serplus_lots@ == old(auctions).serplus_lots@,
            final(auctions).diamond_lots@ == old(auctions).diamond_lots@,
            final(auctions).serplus_in_auction == old(auctions).serplus_in_auction,
            final(auctions).standard_in_auction == old(auctions).standard_in_auction,
            match r {
                Ok(()) => ({
                    let count = spec_lots_count(
                        splited,
                        self.max_auctions_count as int,
                        self.spec_auction_size_of(currency_id) as int,
                        amount as int,
                    );
                    let n: int = if amount == 0 {
                        0
                    } else {
                        count
                    };
                    let avg: int = amount as int / count;
                    let avg_t: int = target as int / count;
                    let len0: int = old(auctions).setter_lots@.len() as int;
                    &&& self.spec_create_auctions_error(
                        *ledger,
                        *old(auctions),
                        currency_id,
                        amount,
                    ) is None
                    &&& final(auctions).setter_lots@.len() == len0 + n
                    &&& final(auctions).setter_lots@.subrange(0, len0) == old(
                        auctions,
                    ).setter_lots@
                    &&& forall|i: int|
                        0 <= i < n ==> ({
                            let lot = #[trigger] final(auctions).setter_lots@[len0 + i];
                            &&& lot.currency == currency_id
                            &&& lot.refund_receiver == refund_receiver
                            &&& lot.amount as int == (if i < n - 1 {
                                avg
                            } else {
                                amount - (n - 1) * avg
                            })
                            &&& lot.target as int == (if i < n - 1 {
                                avg_t
                            } else {
                                target - (n - 1) * avg_t
                            })
                        })
                    &&& forall|c2: CurrencyId|
                        #[trigger] final(auctions).reserve_in_auction_of(c2) == old(
                            auctions,
                        ).reserve_in_auction_of(c2) + (if c2 == currency_id {
                            amount as int
                        } else {
                            0
                        })
                }),
                Err(e) => {
                    &&& Some(e) == self.spec_create_auctions_error(
                        *ledger,
                        *old(auctions),
                        currency_id,
                        amount,
                    )
                    &&& *final(auctions) == *old(auctions)
                },
            },
    {
        let ghost a0 = *auctions;
        let available = self.total_reserves_not_in_auction(ledger, auctions, currency_id);
        if available < amount {
            return Err(Error::ReserveNotEnough);
        }
        let in_auction = auctions.total_reserve_in_auction(currency_id);
        if amount > Balance::MAX - in_auction {
            return Err(Error::Overflow);
        }
        if amount == 0 {
            proof {
                assert(auctions.setter_lots@.subrange(0, a0.setter_lots@.len() as int)
                    =~= a0.setter_lots@);
            }
            return Ok(());
        }
        let size = self.expected_setter_auction_size(currency_id);
        let max_count: u128 = self.max_auctions_count as u128;
        let lots_count: u128 = if !splited || max_count == 0 || size == 0 || amount <= size {
            1
        } else {
            let q = amount / size;
            let rem = amount % size;
            proof {
                lemma_fundamental_div_mod(amount as int, size as int);
                assert(1 <= q && q <= amount) by (nonlinear_arith)
                    requires
                        amount as int == size as int * (q as int) + (rem as int),
                        size >= 1,
                        0 <= rem as int,
                        (rem as int) < (size as int),
                        amount > size,
                        q >= 0,
                ;
            }
            let cnt = if rem == 0 {
                q
            } else {
                proof {
                    assert(q < amount) by (nonlinear_arith)
                        requires
                            amount as int == size as int * (q as int) + (rem as int),
                            size >= 1,
                            rem >= 1,
                            q >= 0,
                    ;
                }
                q + 1
            };
            if cnt < max_count {
                cnt
            } else {
                max_count
            }
        };
        proof {
            assert(lots_count as int == spec_lots_count(
                splited,
                self.max_auctions_count as int,
                self.spec_auction_size_of(currency_id) as int,
                amount as int,
            ));
            assert(1 <= lots_count);
            assert(lots_count <= amount);
        }
        let avg = amount / lots_count;
        let avg_t = target / lots_count;
        let ghost lc = lots_count as int;
        let ghost len0 = a0.setter_lots@.len() as int;
        proof {
            lemma_remainder(amount as int, lc);
            lemma_remainder(target as int, lc);
            assert(avg as int == amount as int / lc);
            assert(avg_t as int == target as int / lc);
            assert(amount as int - (amount as int / lc) * lc >= 0);
            assert((amount as int / lc) * lc == lc * (avg as int)) by (nonlinear_arith)
                requires
                    avg as int == amount as int / lc,
            ;
            assert((target as int / lc) * lc == lc * (avg_t as int)) by (nonlinear_arith)
                requires
                    avg_t as int == target as int / lc,
            ;
            assert(lc * (avg as int) <= amount as int);
            assert(lc * (avg_t as int) <= target as int);
            assert(avg >= 1) by (nonlinear_arith)
                requires
                    lc * (avg as int) > amount as int - lc,
                    lc <= amount as int,
                    1 <= lc,
                    avg as int >= 0,
            ;
        }
        let mut unhandled_reserve = amount;
        let mut unhandled_target = target;
        let mut created: u128 = 0;
        while unhandled_reserve != 0
            invariant
                ledger.wf(),
                auctions.wf(),
                auctions.serplus_lots@ == a0.serplus_lots@,
                auctions.diamond_lots@ == a0.diamond_lots@,
                auctions.serplus_in_auction == a0.serplus_in_auction,
                auctions.standard_in_auction == a0.standard_in_auction,
                1 <= lc <= amount as int,
                avg as int == amount as int / lc,
                avg_t as int == target as int / lc,
                avg >= 1,
                lc == lots_count as int,
                lc * (avg as int) <= amount as int,
                lc * (avg_t as int) <= target as int,
                0 <= created as int <= lc,
                (created as int) < lc ==> unhandled_reserve as int == amount as int - (
                created as int) * (avg as int) && unhandled_target as int == target as int - (
                created as int) * (avg_t as int),
                created as int == lc ==> unhandled_reserve == 0,
                a0.reserve_in_auction_of(currency_id) + amount <= Balance::MAX,
                len0 == a0.setter_lots@.len() as int,
                auctions.setter_lots@.len() as int == len0 + created as int,
                auctions.setter_lots@.subrange(0, len0) == a0.setter_lots@,
                forall|i: int|
                    0 <= i < created as int ==> ({
                        let lot = #[trigger] auctions.setter_lots@[len0 + i];
                        &&& lot.currency == currency_id
                        &&& lot.refund_receiver == refund_receiver
                        &&& lot.amount as int == (if i < lc - 1 {
                            avg as int
                        } else {
                            amount as int - (lc - 1) * (avg as int)
                        })
                        &&& lot.target as int == (if i < lc - 1 {
                            avg_t as int
                        } else {
                            target as int - (lc - 1) * (avg_t as int)
                        })
                    }),
                forall|c2: CurrencyId|
                    #[trigger] auctions.reserve_in_auction_of(c2) == a0.reserve_in_auction_of(c2)
                        + (if c2 == currency_id {
                        amount as int - unhandled_reserve as int
                    } else {
                        0
                    }),
            decreases unhandled_reserve,
        {
            let ghost c0 = created as int;
            let ghost u0 = unhandled_reserve as int;
            let ghost ut0 = unhandled_target as int;
            proof {
                // The loop only runs while lots remain.
                assert((created as int) < lc);
                assert(u0 == amount as int - c0 * (avg as int));
                assert(ut0 == target as int - c0 * (avg_t as int));
                if created as int + 1 < lc {
                    // Every non-final lot leaves at least one more average
                    // lot behind.
                    assert(amount as int - (created as int) * (avg as int) >= 2 * (avg as int))
                        by (nonlinear_arith)
                        requires
                            lc * (avg as int) <= amount as int,
                            created as int + 1 < lc,
                            created as int >= 0,
                            avg as int >= 1,
                    ;
                    assert(target as int - (created as int) * (avg_t as int) >= avg_t as int)
                        by (nonlinear_arith)
                        requires
                            lc * (avg_t as int) <= target as int,
                            created as int + 1 < lc,
                            created as int >= 0,
                            avg_t as int >= 0,
                    ;
                } else {
                    assert(amount as int - (created as int) * (avg as int) >= avg as int)
                        by (nonlinear_arith)
                        requires
                            lc * (avg as int) <= amount as int,
                            created as int + 1 == lc,
                            created as int >= 0,
                            avg as int >= 1,
                    ;
                    assert(target as int - (created as int) * (avg_t as int) >= avg_t as int)
                        by (nonlinear_arith)
                        requires
                            lc * (avg_t as int) <= target as int,
                            created as int + 1 == lc,
                            created as int >= 0,
                            avg_t as int >= 0,
                    ;
                }
            }
            created = created + 1;
            let last = created == lots_count;
            let lot_amount = if last {
                unhandled_reserve
            } else {
                avg
            };
            let lot_target = if last {
                unhandled_target
            } else {
                avg_t
            };
            let ghost a_pre = *auctions;
            match auctions.new_setter_auction(&refund_receiver, currency_id, lot_amount, lot_target)
            {
                Ok(()) => {},
                Err(e) => {
                    proof {
                        assert(a_pre.reserve_in_auction_of(currency_id) + lot_amount
                            <= a0.reserve_in_auction_of(currency_id) + amount);
                    }
                    assert(false);
                    return Err(e);
                },
            }
            unhandled_reserve = unhandled_reserve - lot_amount;
            unhandled_target = if unhandled_target >= lot_target {
                unhandled_target - lot_target
            } else {
                0
            };
            proof {
                let lot = crate::auction::SetterLot {
                    refund_receiver,
                    currency: currency_id,
                    amount: lot_amount,
                    target: lot_target,
                };
                assert(auctions.setter_lots@ == a_pre.setter_lots@.push(lot));
                assert(auctions.setter_lots@.subrange(0, len0) =~= a_pre.setter_lots@.subrange(
                    0,
                    len0,
                ));
                assert(created as int == c0 + 1);
                assert((c0 + 1) * (avg as int) == c0 * (avg as int) + avg as int)
                    by (nonlinear_arith);
                assert((c0 + 1) * (avg_t as int) == c0 * (avg_t as int) + avg_t as int)
                    by (nonlinear_arith);
                if (created as int) < lc {
                    assert(unhandled_reserve as int == u0 - avg as int);
                    assert(unhandled_target as int == ut0 - avg_t as int);
                    assert(unhandled_reserve as int == amount as int - (c0 + 1) * (avg as int));
                    assert(unhandled_target as int == target as int - (c0 + 1) * (avg_t as int));
                }
                assert forall|i: int|
                    0 <= i < created as int implies ({
                        let got = #[trigger] auctions.setter_lots@[len0 + i];
                        &&& got.currency == currency_id
                        &&& got.refund_receiver == refund_receiver
                        &&& got.amount as int == (if i < lc - 1 {
                            avg as int
                        } else {
                            amount as int - (lc - 1) * (avg as int)
                        })
                        &&& got.target as int == (if i < lc - 1 {
                            avg_t as int
                        } else {
                            target as int - (lc - 1) * (avg_t as int)
                        })
                    }) by {
                    if i < created as int - 1 {
                        assert(auctions.setter_lots@[len0 + i] == a_pre.setter_lots@[len0 + i]);
                        assert(a_pre.setter_lots@[len0 + i].currency == currency_id);
                    } else {
                        assert(auctions.setter_lots@[len0 + i] == lot);
                        if (created as int) < lc {
                            assert(lot.amount == avg);
                            assert(lot.target == avg_t);
                        } else {
                            assert(c0 == lc - 1);
                            assert(lot.amount as int == amount as int - c0 * (avg as int));
                            assert(lot.target as int == target as int - c0 * (avg_t as int));
                            assert(lot.amount as int == amount as int - (lc - 1) * (avg as int));
                            assert(lot.target as int == target as int - (lc - 1) * (avg_t as int));
                        }
                    }
                }
            }
        }
        proof {
            // The loop ends only once every lot is out.
            if (created as int) < lc {
                assert(amount as int - (created as int) * (avg as int) >= avg as int)
                    by (nonlinear_arith)
                    requires
                        lc * (avg as int) <= amount as int,
                        (created as int) < lc,
                        created as int >= 0,
                        avg as int >= 1,
                ;
                assert(false);
            }
        }
        Ok(())
    }

    /// Hand a reserve liquidation to the auction book on the treasury's
    /// own behalf.
    pub fn auction_reserve(
        &self,
        ledger: &Ledger,
        auctions: &mut Auctions,
        currency_id: CurrencyId,
        amount: Balance,
        target: Balance,
        splited: bool,
    ) -> (r: Result<(), Error>)
        requires
            ledger.wf(),
            old(auctions).wf(),
        ensures
            final(auctions).wf(),
            final(auctions).serplus_lots@ == old(auctions).serplus_lots@,
            final(auctions).diamond_lots@ == old(auctions).diamond_lots@,
            final(auctions).serplus_in_auction == old(auctions).serplus_in_auction,
            final(auctions).standard_in_auction == old(auctions).standard_in_auction,
            r is Err ==> Some(r->Err_0) == self.spec_create_auctions_error(
                *ledger,
                *old(auctions),
                currency_id,
                amount,
            ) && *final(auctions) == *old(auctions),
            r is Ok ==> self.spec_create_auctions_error(
                *ledger,
                *old(auctions),
                currency_id,
                amount,
            ) is None && forall|c2: CurrencyId|
                #[trigger] final(auctions).reserve_in_auction_of(c2) == old(
                    auctions,
                ).reserve_in_auction_of(c2) + (if c2 == currency_id {
                    amount as int
                } else {
                    0
                }),
    {
        self.create_setter_auctions(
            ledger,
            auctions,
            currency_id,
            amount,
            target,
            self.account,
            splited,
        )
    }

    /// Swap an exact amount of reserve currently locked in auctions into
    /// the stable currency, on the treasury's own account.
    pub fn swap_exact_reserve_in_auction_to_stable(
        &self,
        ledger: &mut Ledger,
        auctions: &Auctions,
        dex: &Dex,
        currency_id: CurrencyId,
        supply_amount: Balance,
        min_target_amount: Balance,
        price_impact_limit: Option<Ratio>,
    ) -> (r: Result<Balance, Error>)
        requires
            old(ledger).wf(),
            auctions.wf(),
            self.account != dex.account,
        ensures
            final(ledger).wf(),
            ({
                let path = seq![currency_id, self.stable_currency];
                match r {
                    Ok(t) => {
                        &&& old(ledger).balance_of(currency_id, self.account) >= supply_amount
                        &&& auctions.reserve_in_auction_of(currency_id) >= supply_amount
                        &&& Some(t) == spec_quote_target(dex.rates@, path, supply_amount)
                        &&& forall|c2: CurrencyId, a2: AccountId|
                            #[trigger] final(ledger).balance_of(c2, a2) == old(ledger).balance_of(
                                c2,
                                a2,
                            ) - (if c2 == currency_id && a2 == self.account {
                                supply_amount as int
                            } else {
                                0
                            }) + (if c2 == currency_id && a2 == dex.account {
                                supply_amount as int
                            } else {
                                0
                            }) - (if c2 == self.stable_currency && a2 == dex.account {
                                t as int
                            } else {
                                0
                            }) + (if c2 == self.stable_currency && a2 == self.account {
                                t as int
                            } else {
                                0
                            })
                        &&& forall|c2: CurrencyId|
                            #[trigger] final(ledger).issuance_of(c2) == old(ledger).issuance_of(c2)
                    },
                    Err(e) => {
                        &&& *final(ledger) == *old(ledger)
                        &&& if old(ledger).balance_of(currency_id, self.account) < supply_amount
                            || auctions.reserve_in_auction_of(currency_id) < supply_amount {
                            e == Error::ReserveNotEnough
                        } else {
                            Some(e) == dex.spec_swap_exact_supply_error(
                                *old(ledger),
                                self.account,
                                path,
                                supply_amount,
                                min_target_amount,
                            )
                        }
                    },
                }
            }),
    {
        let reserves = self.total_reserves(ledger, currency_id);
        let in_auction = auctions.total_reserve_in_auction(currency_id);
        if reserves < supply_amount || in_auction < supply_amount {
            return Err(Error::ReserveNotEnough);
        }
        let mut path: Vec<CurrencyId> = Vec::new();
        path.push(currency_id);
        path.push(self.stable_currency);
        proof {
            assert(path@ =~= seq![currency_id, self.stable_currency]);
            assert(path@.last() == self.stable_currency);
        }
        dex.swap_with_exact_supply(
            ledger,
            self.account,
            &path,
            supply_amount,
            min_target_amount,
            price_impact_limit,
        )
    }

    /// Swap reserve not locked in auctions for an exact amount of the
    /// stable currency, on the treasury's own account.
    pub fn swap_reserve_not_in_auction_with_exact_stable(
        &self,
        ledger: &mut Ledger,
        auctions: &Auctions,
        dex: &Dex,
        currency_id: CurrencyId,
        target_amount: Balance,
        max_supply_amount: Balance,
        price_impact_limit: Option<Ratio>,
    ) -> (r: Result<Balance, Error>)
        requires
            old(ledger).wf(),
            auctions.wf(),
            self.account != dex.account,
        ensures
            final(ledger).wf(),
            ({
                let path = seq![currency_id, self.stable_currency];
                match r {
                    Ok(s) => {
                        &&& self.spec_total_reserves_not_in_auction(
                            *old(ledger),
                            *auctions,
                            currency_id,
                        ) >= max_supply_amount
                        &&& Some(s) == spec_quote_supply(dex.rates@, path, target_amount)
                        &&& forall|c2: CurrencyId, a2: AccountId|
                            #[trigger] final(ledger).balance_of(c2, a2) == old(ledger).balance_of(
                                c2,
                                a2,
                            ) - (if c2 == currency_id && a2 == self.account {
                                s as int
                            } else {
                                0
                            }) + (if c2 == currency_id && a2 == dex.account {
                                s as int
                            } else {
                                0
                            }) - (if c2 == self.stable_currency && a2 == dex.account {
                                target_amount as int
                            } else {
                                0
                            }) + (if c2 == self.stable_currency && a2 == self.account {
                                target_amount as int
                            } else {
                                0
                            })
                        &&& forall|c2: CurrencyId|
                            #[trigger] final(ledger).issuance_of(c2) == old(ledger).issuance_of(c2)
                    },
                    Err(e) => {
                        &&& *final(ledger) == *old(ledger)
                        &&& if self.spec_total_reserves_not_in_auction(
                            *old(ledger),
                            *auctions,
                            currency_id,
                        ) < max_supply_amount {
                            e == Error::ReserveNotEnough
                        } else {
                            Some(e) == dex.spec_swap_exact_target_error(
                                *old(ledger),
                                self.account,
                                path,
                                target_amount,
                                max_supply_amount,
                            )
                        }
                    },
                }
            }),
    {
        let available = self.total_reserves_not_in_auction(ledger, auctions, currency_id);
        if available < max_supply_amount {
            return Err(Error::ReserveNotEnough);
        }
        let mut path: Vec<CurrencyId> = Vec::new();
        path.push(currency_id);
        path.push(self.stable_currency);
        proof {
            assert(path@ =~= seq![currency_id, self.stable_currency]);
            assert(path@.last() == self.stable_currency);
        }
        dex.swap_with_exact_target(
            ledger,
            self.account,
            &path,
            target_amount,
            max_supply_amount,
            price_impact_limit,
        )
    }
}

/// Offsetting is idempotent once a side is exhausted: after one offset the
/// smaller side is zero, so the next offset amount is zero.
pub proof fn lemma_offset_idempotent(standard_pool: int, serplus: int)
    requires
        standard_pool >= 0,
        serplus >= 0,
    ensures
        ({
            let m = spec_offset_amount(standard_pool, serplus);
            spec_offset_amount(standard_pool - m, serplus - m) == 0
        }),
{
}

} // verus!
