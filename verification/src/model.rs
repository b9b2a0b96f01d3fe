//! The ledger's state as mathematics, and what each kind of operation makes
//! of it.
//!
//! The executable ledger is proved to compute these functions; the laws of
//! this crate are stated over them.

use crate::account::Account;
use crate::transaction::{Dispute, Transaction};
use vstd::prelude::*;
use vstd::set_lib::set_int_range;

verus! {

/// The number of distinct transaction ids.
pub const TX_IDS: u64 = 0x1_0000_0000;

/// The ledger's state: three maps.
pub struct LedgerView {
    /// The account of each client that an operation has named so far.
    pub accounts: Map<u16, Account>,
    /// The accepted deposits and withdrawals, each as it was first seen.
    pub transactions: Map<u32, Transaction>,
    /// The disputes, each under the id of the transaction it is about.
    pub disputes: Map<u32, Dispute>,
}

impl LedgerView {
    /// The state of a ledger that has seen no operation.
    pub open spec fn empty() -> LedgerView {
        LedgerView { accounts: Map::empty(), transactions: Map::empty(), disputes: Map::empty() }
    }

    /// Whether the state is sound: what holds of every state that a ledger
    /// reaches.
    ///
    /// Every record is filed under its own key, every account's total is what
    /// is available and what is held together, a dispute exists only for a
    /// logged transaction, and no total exceeds what the logged transactions
    /// can have paid in (which is why no balance ever overflows).
    pub open spec fn wf(self) -> bool {
        &&& self.transactions.dom().finite()
        &&& forall|c: u16| #[trigger]
            self.accounts.contains_key(c) ==> {
                &&& self.accounts[c].client == c
                &&& self.accounts[c].wf()
                &&& self.accounts[c].total <= self.transactions.len() * u64::MAX
            }
        &&& forall|t: u32| #[trigger]
            self.transactions.contains_key(t) ==> self.transactions[t].tx == t
        &&& forall|t: u32| #[trigger]
            self.disputes.contains_key(t) ==> self.disputes[t].tx == t
                && self.transactions.contains_key(t)
    }

    /// The state once `client` has an account: an open one with nothing in
    /// it is made where the client had none.
    pub open spec fn with_account(self, client: u16) -> LedgerView {
        if self.accounts.contains_key(client) {
            self
        } else {
            LedgerView {
                accounts: self.accounts.insert(
                    client,
                    Account { client, available: 0, held: 0, total: 0, locked: false },
                ),
                ..self
            }
        }
    }

    /// The state after a deposit was asked for.
    ///
    /// It is dropped where `op` is no deposit or its id is already logged.
    /// Otherwise the client is given an account where it had none, and,
    /// unless that account is locked, the amount is paid in and `op` is
    /// logged.
    pub open spec fn deposit_step(self, op: Transaction) -> LedgerView {
        if !op.is_kind("deposit") || self.transactions.contains_key(op.tx) {
            self
        } else {
            let s = self.with_account(op.client);
            let acct = s.accounts[op.client];
            if acct.locked {
                s
            } else {
                LedgerView {
                    accounts: s.accounts.insert(op.client, acct.after_deposit(op.amount)),
                    transactions: s.transactions.insert(op.tx, op),
                    ..s
                }
            }
        }
    }

    /// The state after a withdrawal was asked for.
    ///
    /// It is dropped where `op` is no withdrawal or its id is already logged.
    /// Otherwise the client is given an account where it had none, and,
    /// unless that account is locked, `op` is logged and the amount is paid
    /// out where that much is available. A withdrawal that exceeds what is
    /// available is logged all the same, and its id is spent.
    pub open spec fn withdrawal_step(self, op: Transaction) -> LedgerView {
        if !op.is_kind("withdrawal") || self.transactions.contains_key(op.tx) {
            self
        } else {
            let s = self.with_account(op.client);
            let acct = s.accounts[op.client];
            if acct.locked {
                s
            } else {
                LedgerView {
                    accounts: s.accounts.insert(op.client, acct.after_withdraw(op.amount)),
                    transactions: s.transactions.insert(op.tx, op),
                    ..s
                }
            }
        }
    }

    /// The state after a dispute was asked for.
    ///
    /// It is dropped where `op` is no dispute, where its id is not logged, or
    /// where that id has a dispute already, open or settled. Otherwise the
    /// client that `op` names is given an account where it had none, and,
    /// unless that account is locked, an open dispute is recorded and the
    /// logged amount moves from available to held where that much is
    /// available. The amount that `op` itself carries is ignored.
    pub open spec fn dispute_step(self, op: Transaction) -> LedgerView {
        if !op.is_kind("dispute") || !self.transactions.contains_key(op.tx)
            || self.disputes.contains_key(op.tx) {
            self
        } else {
            let stored = self.transactions[op.tx];
            let s = self.with_account(op.client);
            let acct = s.accounts[op.client];
            if acct.locked {
                s
            } else {
                LedgerView {
                    accounts: s.accounts.insert(op.client, acct.after_dispute(stored.amount)),
                    disputes: s.disputes.insert(
                        op.tx,
                        Dispute { client: op.client, tx: op.tx, resolved: false },
                    ),
                    ..s
                }
            }
        }
    }

    /// Whether a resolve or a chargeback under `tx` finds what it needs: a
    /// logged transaction with an open dispute.
    pub open spec fn has_open_dispute(self, tx: u32) -> bool {
        &&& self.transactions.contains_key(tx)
        &&& self.disputes.contains_key(tx)
        &&& !self.disputes[tx].resolved
    }

    /// The disputes once the one under `tx` is settled.
    pub open spec fn settled(self, tx: u32) -> Map<u32, Dispute> {
        self.disputes.insert(tx, Dispute { resolved: true, ..self.disputes[tx] })
    }

    /// The state after a resolve was asked for.
    ///
    /// It is dropped where `op` is no resolve or its id has no open dispute
    /// on a logged transaction. Otherwise the client that `op` names is given
    /// an account where it had none, and, unless that account is locked, the
    /// dispute is settled and the logged amount moves from held back to
    /// available where that much is held.
    pub open spec fn resolve_step(self, op: Transaction) -> LedgerView {
        if !op.is_kind("resolve") || !self.has_open_dispute(op.tx) {
            self
        } else {
            let stored = self.transactions[op.tx];
            let s = self.with_account(op.client);
            let acct = s.accounts[op.client];
            if acct.locked {
                s
            } else {
                LedgerView {
                    accounts: s.accounts.insert(op.client, acct.after_resolve(stored.amount)),
                    disputes: s.settled(op.tx),
                    ..s
                }
            }
        }
    }

    /// The state after a chargeback was asked for.
    ///
    /// It is dropped where `op` is no chargeback or its id has no open
    /// dispute on a logged transaction. Otherwise the client that `op` names
    /// is given an account where it had none, and, unless that account is
    /// locked, the dispute is settled and, where the logged amount is held,
    /// it leaves the account, which is locked.
    pub open spec fn chargeback_step(self, op: Transaction) -> LedgerView {
        if !op.is_kind("chargeback") || !self.has_open_dispute(op.tx) {
            self
        } else {
            let stored = self.transactions[op.tx];
            let s = self.with_account(op.client);
            let acct = s.accounts[op.client];
            if acct.locked {
                s
            } else {
                LedgerView {
                    accounts: s.accounts.insert(op.client, acct.after_chargeback(stored.amount)),
                    disputes: s.settled(op.tx),
                    ..s
                }
            }
        }
    }

    /// Whether `client` may be operated on: it has no account yet, or one
    /// that is not locked.
    pub open spec fn admits(self, client: u16) -> bool {
        self.accounts.contains_key(client) ==> !self.accounts[client].locked
    }

    /// Whether the ledger takes `op`: it is of a known kind, its id is in
    /// the state that its kind asks for, and the account of the client it
    /// names is not locked.
    ///
    /// A deposit and a withdrawal ask for an id that is not logged, a dispute
    /// for a logged id without a dispute, a resolve and a chargeback for a
    /// logged id with an open dispute.
    pub open spec fn accepts(self, op: Transaction) -> bool {
        &&& self.admits(op.client)
        &&& {
            ||| (op.is_kind("deposit") || op.is_kind("withdrawal"))
                && !self.transactions.contains_key(op.tx)
            ||| op.is_kind("dispute") && self.transactions.contains_key(op.tx)
                && !self.disputes.contains_key(op.tx)
            ||| (op.is_kind("resolve") || op.is_kind("chargeback")) && self.has_open_dispute(
                op.tx,
            )
        }
    }

    /// The state after `op` was offered to each of the five rules in turn.
    /// At most one of them knows its kind; the others drop it.
    pub open spec fn apply(self, op: Transaction) -> LedgerView {
        self.deposit_step(op).withdrawal_step(op).dispute_step(op).resolve_step(
            op,
        ).chargeback_step(op)
    }

    /// The state after a whole stream of operations, taken in order.
    pub open spec fn replay(self, ops: Seq<Transaction>) -> LedgerView
        decreases ops.len(),
    {
        if ops.len() == 0 {
            self
        } else {
            self.replay(ops.drop_last()).apply(ops.last())
        }
    }
}

/// A map keyed by transaction ids holds at most as many records as there are
/// ids.
pub proof fn lemma_log_is_bounded<V>(m: Map<u32, V>)
    requires
        m.dom().finite(),
    ensures
        m.len() <= TX_IDS,
{
    let f = |t: u32| t as int;
    let ids = m.dom().map(f);
    assert(vstd::relations::injective_on(f, m.dom()));
    vstd::set_lib::lemma_map_size(m.dom(), ids, f);
    vstd::set_lib::lemma_int_range(0, 0x1_0000_0000);
    assert(ids.subset_of(set_int_range(0, 0x1_0000_0000))) by {
        assert forall|i: int| ids.contains(i) implies set_int_range(0, 0x1_0000_0000).contains(
            i,
        ) by {
            let t: u32 = choose|t: u32| m.dom().contains(t) && f(t) == i;
        }
    }
    vstd::set_lib::lemma_len_subset(ids, set_int_range(0, 0x1_0000_0000));
}

/// In a sound state every account has room for one more deposit, of any
/// amount.
pub proof fn lemma_room_for_deposit(s: LedgerView, client: u16, amount: u64)
    requires
        s.wf(),
        s.accounts.contains_key(client),
    ensures
        s.accounts[client].total + amount <= u128::MAX,
{
    lemma_log_is_bounded(s.transactions);
    let total = s.accounts[client].total;
    let logged = s.transactions.len();
    assert(total + amount <= u128::MAX) by (nonlinear_arith)
        requires
            total <= logged * u64::MAX,
            logged <= 0x1_0000_0000,
            amount <= u64::MAX,
    ;
}

/// Giving a client an account keeps a sound state sound.
pub proof fn lemma_with_account_wf(s: LedgerView, client: u16)
    requires
        s.wf(),
    ensures
        s.with_account(client).wf(),
{
    assert(0 <= s.transactions.len() * u64::MAX) by (nonlinear_arith);
}

/// Logging a transaction under a fresh id, with at most its amount paid into
/// one account and nothing paid into the others, keeps a sound state sound.
proof fn lemma_logged_wf(s: LedgerView, op: Transaction, acct: Account)
    requires
        s.wf(),
        s.accounts.contains_key(op.client),
        !s.transactions.contains_key(op.tx),
        acct.client == op.client,
        acct.wf(),
        acct.total <= s.accounts[op.client].total + op.amount,
    ensures
        (LedgerView {
            accounts: s.accounts.insert(op.client, acct),
            transactions: s.transactions.insert(op.tx, op),
            ..s
        }).wf(),
{
    let after = LedgerView {
        accounts: s.accounts.insert(op.client, acct),
        transactions: s.transactions.insert(op.tx, op),
        ..s
    };
    let logged = s.transactions.len();
    assert(after.transactions.len() == logged + 1);
    assert(logged * u64::MAX + u64::MAX == (logged + 1) * u64::MAX) by (nonlinear_arith);
    assert forall|c: u16| #[trigger] after.accounts.contains_key(c) implies {
        &&& after.accounts[c].client == c
        &&& after.accounts[c].wf()
        &&& after.accounts[c].total <= after.transactions.len() * u64::MAX
    } by {
        if c != op.client {
            assert(s.accounts.contains_key(c));
        }
    }
}

/// Replacing one account by a sound one of the same client whose total is
/// no greater keeps a sound state sound.
proof fn lemma_account_replaced_wf(s: LedgerView, client: u16, acct: Account)
    requires
        s.wf(),
        s.accounts.contains_key(client),
        acct.client == client,
        acct.wf(),
        acct.total <= s.accounts[client].total,
    ensures
        (LedgerView { accounts: s.accounts.insert(client, acct), ..s }).wf(),
{
    let after = LedgerView { accounts: s.accounts.insert(client, acct), ..s };
    assert forall|c: u16| #[trigger] after.accounts.contains_key(c) implies {
        &&& after.accounts[c].client == c
        &&& after.accounts[c].wf()
        &&& after.accounts[c].total <= after.transactions.len() * u64::MAX
    } by {
        if c != client {
            assert(s.accounts.contains_key(c));
        }
    }
}

/// A deposit keeps a sound state sound.
pub proof fn lemma_deposit_step_wf(s: LedgerView, op: Transaction)
    requires
        s.wf(),
    ensures
        s.deposit_step(op).wf(),
{
    lemma_with_account_wf(s, op.client);
    let s1 = s.with_account(op.client);
    if op.is_kind("deposit") && !s.transactions.contains_key(op.tx) && !s1.accounts[op.client].locked {
        lemma_room_for_deposit(s1, op.client, op.amount);
        lemma_logged_wf(s1, op, s1.accounts[op.client].after_deposit(op.amount));
    }
}

/// A withdrawal keeps a sound state sound.
pub proof fn lemma_withdrawal_step_wf(s: LedgerView, op: Transaction)
    requires
        s.wf(),
    ensures
        s.withdrawal_step(op).wf(),
{
    lemma_with_account_wf(s, op.client);
    let s1 = s.with_account(op.client);
    if op.is_kind("withdrawal") && !s.transactions.contains_key(op.tx)
        && !s1.accounts[op.client].locked {
        lemma_logged_wf(s1, op, s1.accounts[op.client].after_withdraw(op.amount));
    }
}

/// A dispute keeps a sound state sound.
pub proof fn lemma_dispute_step_wf(s: LedgerView, op: Transaction)
    requires
        s.wf(),
    ensures
        s.dispute_step(op).wf(),
{
    lemma_with_account_wf(s, op.client);
    let s1 = s.with_account(op.client);
    if op.is_kind("dispute") && s.transactions.contains_key(op.tx) && !s.disputes.contains_key(
        op.tx,
    ) && !s1.accounts[op.client].locked {
        let amount = s.transactions[op.tx].amount;
        lemma_account_replaced_wf(s1, op.client, s1.accounts[op.client].after_dispute(amount));
    }
}

/// A resolve keeps a sound state sound.
pub proof fn lemma_resolve_step_wf(s: LedgerView, op: Transaction)
    requires
        s.wf(),
    ensures
        s.resolve_step(op).wf(),
{
    lemma_with_account_wf(s, op.client);
    let s1 = s.with_account(op.client);
    if op.is_kind("resolve") && s.has_open_dispute(op.tx) && !s1.accounts[op.client].locked {
        let amount = s.transactions[op.tx].amount;
        lemma_account_replaced_wf(s1, op.client, s1.accounts[op.client].after_resolve(amount));
    }
}

/// A chargeback keeps a sound state sound.
pub proof fn lemma_chargeback_step_wf(s: LedgerView, op: Transaction)
    requires
        s.wf(),
    ensures
        s.chargeback_step(op).wf(),
{
    lemma_with_account_wf(s, op.client);
    let s1 = s.with_account(op.client);
    if op.is_kind("chargeback") && s.has_open_dispute(op.tx) && !s1.accounts[op.client].locked {
        let amount = s.transactions[op.tx].amount;
        lemma_account_replaced_wf(
            s1,
            op.client,
            s1.accounts[op.client].after_chargeback(amount),
        );
    }
}

} // verus!
