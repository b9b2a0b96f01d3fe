//! A client's account and the five changes that an operation can make to it.
//!
//! Money is counted in ten-thousandths of the currency unit, as whole
//! numbers, so no step rounds. An operation's amount is a `u64`; a balance is
//! a `u128`, wide enough for the sum of every deposit that a ledger can ever
//! record.

use crate::storage::StoreKey;
use crate::transaction::Transaction;
use vstd::prelude::*;

verus! {

/// The balances of one client.
///
/// `available` can be withdrawn or put under a new dispute, `held` is frozen
/// by open disputes, and `total` is both together. A chargeback locks the
/// account for good.
#[derive(Clone, Copy, Debug, PartialEq, Eq)]
pub struct Account {
    pub client: u16,
    pub available: u128,
    pub held: u128,
    pub total: u128,
    pub locked: bool,
}

impl Account {
    /// The account's invariant: the total is what is available and what is
    /// held, together.
    pub open spec fn wf(&self) -> bool {
        self.total == self.available + self.held
    }

    /// The account after `amount` was paid in.
    pub open spec fn after_deposit(self, amount: u64) -> Account {
        Account {
            available: (self.available + amount) as u128,
            total: (self.total + amount) as u128,
            ..self
        }
    }

    /// The account after a withdrawal of `amount` was asked for: paid out
    /// where that much is available, left alone where it is not.
    pub open spec fn after_withdraw(self, amount: u64) -> Account {
        if amount <= self.available {
            Account {
                available: (self.available - amount) as u128,
                total: (self.total - amount) as u128,
                ..self
            }
        } else {
            self
        }
    }

    /// The account after a dispute over `amount` was opened: that much moves
    /// from available to held where it is available, and nothing moves where
    /// it is not.
    pub open spec fn after_dispute(self, amount: u64) -> Account {
        if amount <= self.available {
            Account {
                available: (self.available - amount) as u128,
                held: (self.held + amount) as u128,
                ..self
            }
        } else {
            self
        }
    }

    /// The account after a dispute over `amount` was settled in the client's
    /// favour: that much moves back from held to available where it is held,
    /// and nothing moves where it is not.
    pub open spec fn after_resolve(self, amount: u64) -> Account {
        if amount <= self.held {
            Account {
                available: (self.available + amount) as u128,
                held: (self.held - amount) as u128,
                ..self
            }
        } else {
            self
        }
    }

    /// The account after a dispute over `amount` ended in a chargeback: where
    /// that much is held it leaves the account, which is locked; where it is
    /// not, the account is left alone and stays open.
    pub open spec fn after_chargeback(self, amount: u64) -> Account {
        if amount <= self.held {
            Account {
                held: (self.held - amount) as u128,
                total: (self.total - amount) as u128,
                locked: true,
                ..self
            }
        } else {
            self
        }
    }

    /// An open account with the given balances.
    pub fn new(client: u16, available: u128, held: u128) -> (a: Self)
        requires
            available + held <= u128::MAX,
        ensures
            a == (Account {
                client,
                available,
                held,
                total: (available + held) as u128,
                locked: false,
            }),
            a.wf(),
    {
        let total = available + held;
        let locked = false;

        Self { client, available, held, total, locked }
    }

    pub fn deposit(&mut self, tranx: &Transaction)
        requires
            old(self).wf(),
            old(self).total + tranx.amount <= u128::MAX,
        ensures
            *final(self) == old(self).after_deposit(tranx.amount),
            final(self).wf(),
    {
        let available = self.available + tranx.amount as u128;
        let total = self.total + tranx.amount as u128;
        self.available = available;
        self.total = total;
    }

    pub fn withdraw(&mut self, tranx: &Transaction)
        requires
            old(self).wf(),
        ensures
            *final(self) == old(self).after_withdraw(tranx.amount),
            final(self).wf(),
    {
        if tranx.amount as u128 <= self.available {
            let available = self.available - tranx.amount as u128;
            let total = self.total - tranx.amount as u128;
            self.available = available;
            self.total = total;
        }
    }

    pub fn dispute(&mut self, tranx: &Transaction)
        requires
            old(self).wf(),
        ensures
            *final(self) == old(self).after_dispute(tranx.amount),
            final(self).wf(),
    {
        if tranx.amount as u128 <= self.available {
            let available = self.available - tranx.amount as u128;
            let held = self.held + tranx.amount as u128;

            self.available = available;
            self.held = held;
        }
    }

    pub fn resolve(&mut self, tranx: &Transaction)
        requires
            old(self).wf(),
        ensures
            *final(self) == old(self).after_resolve(tranx.amount),
            final(self).wf(),
    {
        if tranx.amount as u128 <= self.held {
            let available = self.available + tranx.amount as u128;
            let held = self.held - tranx.amount as u128;

            self.available = available;
            self.held = held;
        }
    }

    pub fn chargeback(&mut self, tranx: &Transaction)
        requires
            old(self).wf(),
        ensures
            *final(self) == old(self).after_chargeback(tranx.amount),
            final(self).wf(),
    {
        if tranx.amount as u128 <= self.held {
            let held = self.held - tranx.amount as u128;
            let total = self.total - tranx.amount as u128;

            self.held = held;
            self.total = total;
            self.locked = true;
        }
    }
}

impl StoreKey for Account {
    type Key = u16;

    open spec fn spec_key(&self) -> u16 {
        self.client
    }

    fn key(&self) -> (k: u16) {
        self.client
    }
}

} // verus!
