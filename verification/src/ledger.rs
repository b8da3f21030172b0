//! The multi-currency balance ledger.
//!
//! Balances are held as an association list keyed by (currency, account),
//! the issuance of each currency as a second list keyed by currency. The
//! well-formedness invariant ties the two together: the recorded issuance
//! of a currency always equals the sum of all balances held in it, so the
//! supply of a currency is conserved except through an explicit `deposit`
//! (mint) or `withdraw` (burn).

use vstd::prelude::*;

use crate::sums::{
    lemma_sum_by_only, lemma_sum_by_pair_le, lemma_sum_by_push, lemma_sum_by_single_le,
    lemma_sum_by_update, lemma_sum_by_zero, sum_by,
};
use crate::currency::CurrencyId;
use crate::{AccountId, Balance, Error};

verus! {

/// One account's holding of one currency.
#[derive(Clone, Copy, Debug, PartialEq, Eq, Structural)]
pub struct BalanceEntry {
    pub currency: CurrencyId,
    pub account: AccountId,
    pub amount: Balance,
}

/// The recorded issuance of one currency.
#[derive(Clone, Copy, Debug, PartialEq, Eq, Structural)]
pub struct IssuanceEntry {
    pub currency: CurrencyId,
    pub amount: Balance,
}

/// The contribution of a balance entry to one (currency, account) balance.
pub open spec fn account_contrib(c: CurrencyId, a: AccountId) -> spec_fn(BalanceEntry) -> int {
    |e: BalanceEntry| if e.currency == c && e.account == a {
        e.amount as int
    } else {
        0
    }
}

/// The contribution of a balance entry to one currency's circulating total.
pub open spec fn currency_contrib(c: CurrencyId) -> spec_fn(BalanceEntry) -> int {
    |e: BalanceEntry| if e.currency == c {
        e.amount as int
    } else {
        0
    }
}

/// The contribution of an issuance entry to one currency's issuance.
pub open spec fn issuance_contrib(c: CurrencyId) -> spec_fn(IssuanceEntry) -> int {
    |e: IssuanceEntry| if e.currency == c {
        e.amount as int
    } else {
        0
    }
}

/// No two balance entries carry the same (currency, account) key.
pub open spec fn unique_balance_keys(s: Seq<BalanceEntry>) -> bool {
    forall|i: int, j: int| #![trigger s[i], s[j]]
        0 <= i < s.len() && 0 <= j < s.len() && i != j ==> !(s[i].currency == s[j].currency
            && s[i].account == s[j].account)
}

/// No two issuance entries carry the same currency.
pub open spec fn unique_issuance_keys(s: Seq<IssuanceEntry>) -> bool {
    forall|i: int, j: int| #![trigger s[i], s[j]]
        0 <= i < s.len() && 0 <= j < s.len() && i != j ==> s[i].currency != s[j].currency
}

/// The multi-currency balance store.
pub struct Ledger {
    pub balances: Vec<BalanceEntry>,
    pub issuances: Vec<IssuanceEntry>,
}

impl Ledger {
    /// The balance one account holds in one currency.
    pub open spec fn balance_of(self, c: CurrencyId, a: AccountId) -> int {
        sum_by(self.balances@, account_contrib(c, a))
    }

    /// The sum of all balances held in one currency.
    pub open spec fn currency_total(self, c: CurrencyId) -> int {
        sum_by(self.balances@, currency_contrib(c))
    }

    /// The recorded issuance of one currency.
    pub open spec fn issuance_of(self, c: CurrencyId) -> int {
        sum_by(self.issuances@, issuance_contrib(c))
    }

    /// Whether some currency balance of the account is positive.
    pub open spec fn spec_account_alive(self, a: AccountId) -> bool {
        exists|k: int|
            0 <= k < self.balances@.len() && (#[trigger] self.balances@[k]).account == a
                && self.balances@[k].amount > 0
    }

    /// Well-formedness: keys are unique, and every currency's recorded
    /// issuance equals the sum of the balances held in it.
    pub open spec fn wf(self) -> bool {
        &&& unique_balance_keys(self.balances@)
        &&& unique_issuance_keys(self.issuances@)
        &&& forall|c: CurrencyId| #[trigger] self.issuance_of(c) == self.currency_total(c)
    }

    /// An empty ledger: no balances, no issuance.
    pub fn new() -> (r: Ledger)
        ensures
            r.wf(),
            forall|c: CurrencyId, a: AccountId| #[trigger] r.balance_of(c, a) == 0,
            forall|c: CurrencyId| #[trigger] r.issuance_of(c) == 0,
            forall|a: AccountId| !#[trigger] r.spec_account_alive(a),
    {
        let r = Ledger { balances: Vec::new(), issuances: Vec::new() };
        proof {
            assert forall|c: CurrencyId| #[trigger] r.issuance_of(c) == r.currency_total(c) by {}
        }
        r
    }

    fn find_balance(&self, c: CurrencyId, a: AccountId) -> (r: Option<usize>)
        ensures
            match r {
                Some(i) => i < self.balances@.len() && self.balances@[i as int].currency == c
                    && self.balances@[i as int].account == a,
                None => forall|k: int|
                    0 <= k < self.balances@.len() ==> !((#[trigger] self.balances@[k]).currency
                        == c && self.balances@[k].account == a),
            },
    {
        let n = self.balances.len();
        let mut i: usize = 0;
        while i < n
            invariant
                n == self.balances@.len(),
                i <= n,
                forall|k: int|
                    0 <= k < i ==> !((#[trigger] self.balances@[k]).currency == c
                        && self.balances@[k].account == a),
            decreases n - i,
        {
            let e = &self.balances[i];
            if e.currency == c && e.account == a {
                return Some(i);
            }
            i = i + 1;
        }
        None
    }

    fn find_issuance(&self, c: CurrencyId) -> (r: Option<usize>)
        ensures
            match r {
                Some(i) => i < self.issuances@.len() && self.issuances@[i as int].currency == c,
                None => forall|k: int|
                    0 <= k < self.issuances@.len() ==> (#[trigger] self.issuances@[k]).currency
                        != c,
            },
    {
        let n = self.issuances.len();
        let mut i: usize = 0;
        while i < n
            invariant
                n == self.issuances@.len(),
                i <= n,
                forall|k: int| 0 <= k < i ==> (#[trigger] self.issuances@[k]).currency != c,
            decreases n - i,
        {
            let e = &self.issuances[i];
            if e.currency == c {
                return Some(i);
            }
            i = i + 1;
        }
        None
    }

    /// The free balance of the account in the currency.
    pub fn free_balance(&self, c: CurrencyId, a: AccountId) -> (r: Balance)
        requires
            self.wf(),
        ensures
            r as int == self.balance_of(c, a),
    {
        match self.find_balance(c, a) {
            Some(i) => {
                proof {
                    lemma_balance_at(self.balances@, i as int, c, a);
                }
                self.balances[i].amount
            },
            None => {
                proof {
                    lemma_balance_absent(self.balances@, c, a);
                }
                0
            },
        }
    }

    /// The total issuance of the currency.
    pub fn total_issuance(&self, c: CurrencyId) -> (r: Balance)
        requires
            self.wf(),
        ensures
            r as int == self.issuance_of(c),
    {
        match self.find_issuance(c) {
            Some(i) => {
                proof {
                    lemma_issuance_at(self.issuances@, i as int, c);
                }
                self.issuances[i].amount
            },
            None => {
                proof {
                    lemma_issuance_absent(self.issuances@, c);
                }
                0
            },
        }
    }

    /// Whether the account holds a positive balance in any currency.
    pub fn account_exists(&self, a: AccountId) -> (r: bool)
        ensures
            r == self.spec_account_alive(a),
    {
        let n = self.balances.len();
        let mut i: usize = 0;
        while i < n
            invariant
                n == self.balances@.len(),
                i <= n,
                forall|k: int|
                    0 <= k < i ==> !((#[trigger] self.balances@[k]).account == a
                        && self.balances@[k].amount > 0),
            decreases n - i,
        {
            let e = &self.balances[i];
            if e.account == a && e.amount > 0 {
                return true;
            }
            i = i + 1;
        }
        false
    }

    /// Mint `amount` of currency `c` to account `a`: the balance and the
    /// currency's issuance both grow by `amount`. Declines with `Overflow`
    /// exactly when the new issuance would not fit the balance type.
    pub fn deposit(&mut self, c: CurrencyId, a: AccountId, amount: Balance) -> (r: Result<
        (),
        Error,
    >)
        requires
            old(self).wf(),
        ensures
            final(self).wf(),
            match r {
                Ok(()) => {
                    &&& old(self).issuance_of(c) + amount <= Balance::MAX
                    &&& forall|c2: CurrencyId, a2: AccountId|
                        #[trigger] final(self).balance_of(c2, a2) == old(self).balance_of(c2, a2)
                            + (if c2 == c && a2 == a {
                            amount as int
                        } else {
                            0
                        })
                    &&& forall|c2: CurrencyId|
                        #[trigger] final(self).issuance_of(c2) == old(self).issuance_of(c2) + (
                        if c2 == c {
                            amount as int
                        } else {
                            0
                        })
                },
                Err(e) => {
                    &&& e == Error::Overflow
                    &&& old(self).issuance_of(c) + amount > Balance::MAX
                    &&& *final(self) == *old(self)
                },
            },
    {
        if amount == 0 {
            proof {
                lemma_issuance_fits(*self, c);
            }
            return Ok(());
        }
        let ghost s0 = *self;
        // Raise the issuance first; this is where overflow is decided.
        match self.find_issuance(c) {
            Some(j) => {
                proof {
                    lemma_issuance_at(self.issuances@, j as int, c);
                }
                let cur = self.issuances[j].amount;
                match cur.checked_add(amount) {
                    Some(new_amount) => {
                        self.issuances[j] = IssuanceEntry { currency: c, amount: new_amount };
                        proof {
                            lemma_issuance_update_effect(s0.issuances@, j as int, new_amount, c);
                        }
                    },
                    None => {
                        return Err(Error::Overflow);
                    },
                }
            },
            None => {
                proof {
                    lemma_issuance_absent(self.issuances@, c);
                }
                self.issuances.push(IssuanceEntry { currency: c, amount });
                proof {
                    lemma_issuance_push_effect(s0.issuances@, IssuanceEntry { currency: c, amount });
                }
            },
        }
        // Then the balance; it cannot overflow because one balance never
        // exceeds its currency's issuance.
        match self.find_balance(c, a) {
            Some(i) => {
                proof {
                    lemma_balance_at(self.balances@, i as int, c, a);
                    lemma_currency_total_bounds_entry(s0, i as int, c);
                }
                let cur = self.balances[i].amount;
                let new_entry = BalanceEntry { currency: c, account: a, amount: cur + amount };
                self.balances[i] = new_entry;
                proof {
                    lemma_balance_update_effect(s0.balances@, i as int, new_entry);
                }
            },
            None => {
                proof {
                    lemma_balance_absent(self.balances@, c, a);
                }
                let new_entry = BalanceEntry { currency: c, account: a, amount };
                self.balances.push(new_entry);
                proof {
                    lemma_balance_push_effect(s0.balances@, new_entry);
                }
            },
        }
        proof {
            assert forall|c2: CurrencyId| #[trigger] self.issuance_of(c2) == self.currency_total(
                c2,
            ) by {
                assert(s0.issuance_of(c2) == s0.currency_total(c2));
            }
        }
        Ok(())
    }

    /// Burn `amount` of currency `c` from account `a`: the balance and the
    /// currency's issuance both shrink by `amount`. Declines with
    /// `InsufficientBalance` exactly when the account holds less.
    pub fn withdraw(&mut self, c: CurrencyId, a: AccountId, amount: Balance) -> (r: Result<
        (),
        Error,
    >)
        requires
            old(self).wf(),
        ensures
            final(self).wf(),
            match r {
                Ok(()) => {
                    &&& old(self).balance_of(c, a) >= amount
                    &&& forall|c2: CurrencyId, a2: AccountId|
                        #[trigger] final(self).balance_of(c2, a2) == old(self).balance_of(c2, a2)
                            - (if c2 == c && a2 == a {
                            amount as int
                        } else {
                            0
                        })
                    &&& forall|c2: CurrencyId|
                        #[trigger] final(self).issuance_of(c2) == old(self).issuance_of(c2) - (
                        if c2 == c {
                            amount as int
                        } else {
                            0
                        })
                },
                Err(e) => {
                    &&& e == Error::InsufficientBalance
                    &&& old(self).balance_of(c, a) < amount
                    &&& *final(self) == *old(self)
                },
            },
    {
        if amount == 0 {
            proof {
                lemma_balance_nonneg(*self, c, a);
            }
            return Ok(());
        }
        let ghost s0 = *self;
        let i = match self.find_balance(c, a) {
            Some(i) => i,
            None => {
                proof {
                    lemma_balance_absent(self.balances@, c, a);
                }
                return Err(Error::InsufficientBalance);
            },
        };
        proof {
            lemma_balance_at(self.balances@, i as int, c, a);
        }
        let cur = self.balances[i].amount;
        if cur < amount {
            return Err(Error::InsufficientBalance);
        }
        let new_entry = BalanceEntry { currency: c, account: a, amount: cur - amount };
        self.balances[i] = new_entry;
        proof {
            lemma_balance_update_effect(s0.balances@, i as int, new_entry);
        }
        // The issuance record must exist: it carries at least this balance.
        let j = match self.find_issuance(c) {
            Some(j) => j,
            None => {
                proof {
                    lemma_issuance_absent(self.issuances@, c);
                    lemma_currency_total_bounds_entry(s0, i as int, c);
                }
                // Unreachable: the currency's issuance is at least `cur > 0`.
                assert(false);
                return Err(Error::InsufficientBalance);
            },
        };
        proof {
            lemma_issuance_at(self.issuances@, j as int, c);
            lemma_currency_total_bounds_entry(s0, i as int, c);
        }
        let new_issuance = IssuanceEntry { currency: c, amount: self.issuances[j].amount - amount };
        self.issuances[j] = new_issuance;
        proof {
            lemma_issuance_update_effect(s0.issuances@, j as int, new_issuance.amount, c);
            assert forall|c2: CurrencyId| #[trigger] self.issuance_of(c2) == self.currency_total(
                c2,
            ) by {
                assert(s0.issuance_of(c2) == s0.currency_total(c2));
            }
        }
        Ok(())
    }

    /// Move `amount` of currency `c` from `from` to `to`. Issuance is
    /// untouched. Declines with `InsufficientBalance` exactly when `from`
    /// holds less than `amount`.
    pub fn transfer(
        &mut self,
        c: CurrencyId,
        from: AccountId,
        to: AccountId,
        amount: Balance,
    ) -> (r: Result<(), Error>)
        requires
            old(self).wf(),
        ensures
            final(self).wf(),
            match r {
                Ok(()) => {
                    &&& old(self).balance_of(c, from) >= amount
                    &&& forall|c2: CurrencyId, a2: AccountId|
                        #[trigger] final(self).balance_of(c2, a2) == old(self).balance_of(c2, a2)
                            - (if c2 == c && a2 == from {
                            amount as int
                        } else {
                            0
                        }) + (if c2 == c && a2 == to {
                            amount as int
                        } else {
                            0
                        })
                    &&& forall|c2: CurrencyId|
                        #[trigger] final(self).issuance_of(c2) == old(self).issuance_of(c2)
                },
                Err(e) => {
                    &&& e == Error::InsufficientBalance
                    &&& old(self).balance_of(c, from) < amount
                    &&& *final(self) == *old(self)
                },
            },
    {
        let bal_from = self.free_balance(c, from);
        if bal_from < amount {
            return Err(Error::InsufficientBalance);
        }
        if from == to || amount == 0 {
            return Ok(());
        }
        let ghost s0 = *self;
        let i = match self.find_balance(c, from) {
            Some(i) => i,
            None => {
                proof {
                    lemma_balance_absent(self.balances@, c, from);
                }
                // Unreachable: `from` holds a positive balance.
                assert(false);
                return Err(Error::InsufficientBalance);
            },
        };
        proof {
            lemma_balance_at(self.balances@, i as int, c, from);
        }
        let idx_to = self.find_balance(c, to);
        let new_from = BalanceEntry {
            currency: c,
            account: from,
            amount: self.balances[i].amount - amount,
        };
        match idx_to {
            Some(j) => {
                proof {
                    lemma_balance_at(self.balances@, j as int, c, to);
                    lemma_currency_total_bounds_pair(s0, i as int, j as int, c);
                    lemma_issuance_fits(s0, c);
                }
                self.balances[i] = new_from;
                let new_to = BalanceEntry {
                    currency: c,
                    account: to,
                    amount: self.balances[j].amount + amount,
                };
                let ghost s1 = *self;
                self.balances[j] = new_to;
                proof {
                    lemma_balance_update_effect(s0.balances@, i as int, new_from);
                    lemma_balance_update_effect(s1.balances@, j as int, new_to);
                    assert forall|c2: CurrencyId, a2: AccountId|
                        #[trigger] self.balance_of(c2, a2) == s0.balance_of(c2, a2) - (
                        if c2 == c && a2 == from {
                            amount as int
                        } else {
                            0
                        }) + (if c2 == c && a2 == to {
                            amount as int
                        } else {
                            0
                        }) by {}
                    assert forall|c2: CurrencyId| #[trigger] self.issuance_of(c2)
                        == self.currency_total(c2) by {
                        assert(s0.issuance_of(c2) == s0.currency_total(c2));
                    }
                }
            },
            None => {
                proof {
                    lemma_balance_absent(self.balances@, c, to);
                }
                self.balances[i] = new_from;
                let new_to = BalanceEntry { currency: c, account: to, amount };
                let ghost s1 = *self;
                self.balances.push(new_to);
                proof {
                    lemma_balance_update_effect(s0.balances@, i as int, new_from);
                    lemma_balance_push_effect(s1.balances@, new_to);
                    assert forall|c2: CurrencyId, a2: AccountId|
                        #[trigger] self.balance_of(c2, a2) == s0.balance_of(c2, a2) - (
                        if c2 == c && a2 == from {
                            amount as int
                        } else {
                            0
                        }) + (if c2 == c && a2 == to {
                            amount as int
                        } else {
                            0
                        }) by {}
                    assert forall|c2: CurrencyId| #[trigger] self.issuance_of(c2)
                        == self.currency_total(c2) by {
                        assert(s0.issuance_of(c2) == s0.currency_total(c2));
                    }
                }
            },
        }
        Ok(())
    }
}

/// With unique keys, the balance of a key is the amount of its one entry.
pub proof fn lemma_balance_at(s: Seq<BalanceEntry>, i: int, c: CurrencyId, a: AccountId)
    requires
        unique_balance_keys(s),
        0 <= i < s.len(),
        s[i].currency == c,
        s[i].account == a,
    ensures
        sum_by(s, account_contrib(c, a)) == s[i].amount as int,
{
    let f = account_contrib(c, a);
    assert forall|k: int| 0 <= k < s.len() && k != i implies #[trigger] f(s[k]) == 0 by {
        assert(!(s[k].currency == s[i].currency && s[k].account == s[i].account));
    }
    lemma_sum_by_only(s, i, f);
}

/// Without a matching entry, the balance of a key is zero.
pub proof fn lemma_balance_absent(s: Seq<BalanceEntry>, c: CurrencyId, a: AccountId)
    requires
        forall|k: int|
            0 <= k < s.len() ==> !((#[trigger] s[k]).currency == c && s[k].account == a),
    ensures
        sum_by(s, account_contrib(c, a)) == 0,
{
    let f = account_contrib(c, a);
    assert forall|k: int| 0 <= k < s.len() implies #[trigger] f(s[k]) == 0 by {
        assert(!(s[k].currency == c && s[k].account == a));
    }
    lemma_sum_by_zero(s, f);
}

/// With unique keys, the issuance of a currency is its one entry's amount.
pub proof fn lemma_issuance_at(s: Seq<IssuanceEntry>, i: int, c: CurrencyId)
    requires
        unique_issuance_keys(s),
        0 <= i < s.len(),
        s[i].currency == c,
    ensures
        sum_by(s, issuance_contrib(c)) == s[i].amount as int,
{
    let f = issuance_contrib(c);
    assert forall|k: int| 0 <= k < s.len() && k != i implies #[trigger] f(s[k]) == 0 by {
        assert(s[k].currency != s[i].currency);
    }
    lemma_sum_by_only(s, i, f);
}

/// Without a matching entry, the issuance of a currency is zero.
pub proof fn lemma_issuance_absent(s: Seq<IssuanceEntry>, c: CurrencyId)
    requires
        forall|k: int| 0 <= k < s.len() ==> (#[trigger] s[k]).currency != c,
    ensures
        sum_by(s, issuance_contrib(c)) == 0,
{
    let f = issuance_contrib(c);
    assert forall|k: int| 0 <= k < s.len() implies #[trigger] f(s[k]) == 0 by {}
    lemma_sum_by_zero(s, f);
}

/// One balance entry of a currency never exceeds that currency's
/// circulating total, and hence, in a well-formed ledger, its issuance.
proof fn lemma_currency_total_bounds_entry(l: Ledger, i: int, c: CurrencyId)
    requires
        l.wf(),
        0 <= i < l.balances@.len(),
        l.balances@[i].currency == c,
    ensures
        l.balances@[i].amount as int <= l.issuance_of(c),
{
    let s = l.balances@;
    let f = currency_contrib(c);
    assert forall|k: int| 0 <= k < s.len() implies #[trigger] f(s[k]) >= 0 by {}
    lemma_sum_by_single_le(s, i, f);
    assert(l.issuance_of(c) == l.currency_total(c));
}

/// Two distinct balance entries of a currency together never exceed the
/// currency's issuance in a well-formed ledger.
proof fn lemma_currency_total_bounds_pair(l: Ledger, i: int, j: int, c: CurrencyId)
    requires
        l.wf(),
        0 <= i < l.balances@.len(),
        0 <= j < l.balances@.len(),
        i != j,
        l.balances@[i].currency == c,
        l.balances@[j].currency == c,
    ensures
        l.balances@[i].amount as int + l.balances@[j].amount as int <= l.issuance_of(c),
{
    let s = l.balances@;
    let f = currency_contrib(c);
    assert forall|k: int| 0 <= k < s.len() implies #[trigger] f(s[k]) >= 0 by {}
    lemma_sum_by_pair_le(s, i, j, f);
    assert(l.issuance_of(c) == l.currency_total(c));
}

/// Supply conservation: in a well-formed ledger, the recorded issuance of
/// every currency equals the sum of all balances held in it, so transfers
/// conserve the supply and only an explicit mint or burn moves it.
pub proof fn lemma_issuance_is_sum_of_balances(l: Ledger, c: CurrencyId)
    requires
        l.wf(),
    ensures
        l.issuance_of(c) == l.currency_total(c),
{
}

/// A balance is never negative.
pub proof fn lemma_balance_nonneg(l: Ledger, c: CurrencyId, a: AccountId)
    ensures
        l.balance_of(c, a) >= 0,
{
    let s = l.balances@;
    let f = account_contrib(c, a);
    assert forall|k: int| 0 <= k < s.len() implies #[trigger] f(s[k]) >= 0 by {}
    crate::sums::lemma_sum_by_nonneg(s, f);
}

/// In a well-formed ledger, every issuance fits the balance type.
proof fn lemma_issuance_fits(l: Ledger, c: CurrencyId)
    requires
        l.wf(),
    ensures
        0 <= l.issuance_of(c) <= Balance::MAX,
{
    let s = l.issuances@;
    if exists|k: int| 0 <= k < s.len() && (#[trigger] s[k]).currency == c {
        let k = choose|k: int| 0 <= k < s.len() && (#[trigger] s[k]).currency == c;
        lemma_issuance_at(s, k, c);
    } else {
        lemma_issuance_absent(s, c);
    }
}

/// How balances and currency totals move when one entry is replaced by
/// another entry with the same key.
proof fn lemma_balance_update_effect(s: Seq<BalanceEntry>, i: int, e: BalanceEntry)
    requires
        0 <= i < s.len(),
        s[i].currency == e.currency,
        s[i].account == e.account,
    ensures
        forall|c2: CurrencyId, a2: AccountId|
            #[trigger] sum_by(s.update(i, e), account_contrib(c2, a2)) == sum_by(
                s,
                account_contrib(c2, a2),
            ) + (if c2 == e.currency && a2 == e.account {
                e.amount - s[i].amount
            } else {
                0
            }),
        forall|c2: CurrencyId|
            #[trigger] sum_by(s.update(i, e), currency_contrib(c2)) == sum_by(
                s,
                currency_contrib(c2),
            ) + (if c2 == e.currency {
                e.amount - s[i].amount
            } else {
                0
            }),
{
    assert forall|c2: CurrencyId, a2: AccountId|
        #[trigger] sum_by(s.update(i, e), account_contrib(c2, a2)) == sum_by(
            s,
            account_contrib(c2, a2),
        ) + (if c2 == e.currency && a2 == e.account {
            e.amount - s[i].amount
        } else {
            0
        }) by {
        lemma_sum_by_update(s, i, e, account_contrib(c2, a2));
    }
    assert forall|c2: CurrencyId|
        #[trigger] sum_by(s.update(i, e), currency_contrib(c2)) == sum_by(
            s,
            currency_contrib(c2),
        ) + (if c2 == e.currency {
            e.amount - s[i].amount
        } else {
            0
        }) by {
        lemma_sum_by_update(s, i, e, currency_contrib(c2));
    }
}

/// How balances and currency totals move when an entry is appended.
proof fn lemma_balance_push_effect(s: Seq<BalanceEntry>, e: BalanceEntry)
    ensures
        forall|c2: CurrencyId, a2: AccountId|
            #[trigger] sum_by(s.push(e), account_contrib(c2, a2)) == sum_by(
                s,
                account_contrib(c2, a2),
            ) + (if c2 == e.currency && a2 == e.account {
                e.amount as int
            } else {
                0
            }),
        forall|c2: CurrencyId|
            #[trigger] sum_by(s.push(e), currency_contrib(c2)) == sum_by(s, currency_contrib(c2))
                + (if c2 == e.currency {
                e.amount as int
            } else {
                0
            }),
{
    assert forall|c2: CurrencyId, a2: AccountId|
        #[trigger] sum_by(s.push(e), account_contrib(c2, a2)) == sum_by(
            s,
            account_contrib(c2, a2),
        ) + (if c2 == e.currency && a2 == e.account {
            e.amount as int
        } else {
            0
        }) by {
        lemma_sum_by_push(s, e, account_contrib(c2, a2));
    }
    assert forall|c2: CurrencyId|
        #[trigger] sum_by(s.push(e), currency_contrib(c2)) == sum_by(s, currency_contrib(c2)) + (
        if c2 == e.currency {
            e.amount as int
        } else {
            0
        }) by {
        lemma_sum_by_push(s, e, currency_contrib(c2));
    }
}

/// How issuances move when one entry is replaced, keeping its currency.
proof fn lemma_issuance_update_effect(s: Seq<IssuanceEntry>, i: int, amount: Balance, c: CurrencyId)
    requires
        0 <= i < s.len(),
        s[i].currency == c,
    ensures
        forall|c2: CurrencyId|
            #[trigger] sum_by(
                s.update(i, IssuanceEntry { currency: c, amount }),
                issuance_contrib(c2),
            ) == sum_by(s, issuance_contrib(c2)) + (if c2 == c {
                amount - s[i].amount
            } else {
                0
            }),
{
    let e = IssuanceEntry { currency: c, amount };
    assert forall|c2: CurrencyId|
        #[trigger] sum_by(s.update(i, e), issuance_contrib(c2)) == sum_by(s, issuance_contrib(c2))
            + (if c2 == c {
            amount - s[i].amount
        } else {
            0
        }) by {
        lemma_sum_by_update(s, i, e, issuance_contrib(c2));
    }
}

/// How issuances move when an entry is appended.
proof fn lemma_issuance_push_effect(s: Seq<IssuanceEntry>, e: IssuanceEntry)
    ensures
        forall|c2: CurrencyId|
            #[trigger] sum_by(s.push(e), issuance_contrib(c2)) == sum_by(s, issuance_contrib(c2))
                + (if c2 == e.currency {
                e.amount as int
            } else {
                0
            }),
{
    assert forall|c2: CurrencyId|
        #[trigger] sum_by(s.push(e), issuance_contrib(c2)) == sum_by(s, issuance_contrib(c2)) + (
        if c2 == e.currency {
            e.amount as int
        } else {
            0
        }) by {
        lemma_sum_by_push(s, e, issuance_contrib(c2));
    }
}

} // verus!
