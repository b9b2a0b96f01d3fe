//! The records that the ledger keeps about what it was asked to do: the
//! operations themselves and the disputes opened against them.

use crate::storage::StoreKey;
use vstd::prelude::*;

verus! {

/// One operation of the input stream, and, once a deposit or a withdrawal has
/// been accepted, the record kept of it.
///
/// `kind` is the operation's name as the stream spells it: `deposit`,
/// `withdrawal`, `dispute`, `resolve` or `chargeback`. Any other name makes
/// an operation that nothing acts on. `amount` counts ten-thousandths of the
/// currency unit; a dispute, a resolve and a chargeback carry one that is
/// ignored.
#[derive(Debug)]
pub struct Transaction {
    pub kind: String,
    pub client: u16,
    pub tx: u32,
    pub amount: u64,
}

impl Transaction {
    pub fn new(typ: String, client: u16, tx: u32, amount: u64) -> (t: Self)
        ensures
            t == (Transaction { kind: typ, client, tx, amount }),
    {
        Self { kind: typ, client, tx, amount }
    }

    /// Whether this operation's name is `name`.
    pub open spec fn is_kind(&self, name: &str) -> bool {
        self.kind@ == name@
    }

    /// Whether this operation's name is `name`.
    pub fn has_kind(&self, name: &str) -> (b: bool)
        ensures
            b == self.is_kind(name),
    {
        let wanted = name.to_owned();
        self.kind == wanted
    }
}

impl Clone for Transaction {
    fn clone(&self) -> (t: Self)
        ensures
            t == *self,
    {
        Transaction {
            kind: self.kind.clone(),
            client: self.client,
            tx: self.tx,
            amount: self.amount,
        }
    }
}

impl StoreKey for Transaction {
    type Key = u32;

    open spec fn spec_key(&self) -> u32 {
        self.tx
    }

    fn key(&self) -> (k: u32) {
        self.tx
    }
}

/// The record of a dispute, filed under the id of the transaction that it is
/// about. `resolved` is false while the dispute is open; a resolve or a
/// chargeback sets it, once.
#[derive(Clone, Copy, Debug)]
pub struct Dispute {
    pub client: u16,
    pub tx: u32,
    pub resolved: bool,
}

impl Dispute {
    pub fn new(client: u16, tx: u32, resolved: bool) -> (d: Self)
        ensures
            d == (Dispute { client, tx, resolved }),
    {
        Self { client, tx, resolved }
    }
}

impl StoreKey for Dispute {
    type Key = u32;

    open spec fn spec_key(&self) -> u32 {
        self.tx
    }

    fn key(&self) -> (k: u32) {
        self.tx
    }
}

} // verus!
