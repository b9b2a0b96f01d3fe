//! What holds of the ledger whatever stream it is given.
//!
//! Each law is stated over the ledger's mathematical state and proved for
//! every state, every operation and every stream that its conditions admit.

use crate::model::{
    lemma_chargeback_step_wf, lemma_deposit_step_wf, lemma_dispute_step_wf,
    lemma_resolve_step_wf, lemma_withdrawal_step_wf, LedgerView,
};
use crate::transaction::{Dispute, Transaction};
use vstd::prelude::*;

verus! {

/// The five names of operations are five different names, so an operation is
/// of one kind at most.
pub proof fn lemma_kinds_differ(op: Transaction)
    ensures
        op.is_kind("deposit") ==> !op.is_kind("withdrawal") && !op.is_kind("dispute")
            && !op.is_kind("resolve") && !op.is_kind("chargeback"),
        op.is_kind("withdrawal") ==> !op.is_kind("dispute") && !op.is_kind("resolve")
            && !op.is_kind("chargeback"),
        op.is_kind("dispute") ==> !op.is_kind("resolve") && !op.is_kind("chargeback"),
        op.is_kind("resolve") ==> !op.is_kind("chargeback"),
{
    reveal_strlit("deposit");
    reveal_strlit("withdrawal");
    reveal_strlit("dispute");
    reveal_strlit("resolve");
    reveal_strlit("chargeback");
    assert("deposit"@.len() == 7 && "deposit"@[0] == 'd' && "deposit"@[1] == 'e');
    assert("withdrawal"@.len() == 10 && "withdrawal"@[0] == 'w');
    assert("dispute"@.len() == 7 && "dispute"@[0] == 'd' && "dispute"@[1] == 'i');
    assert("resolve"@.len() == 7 && "resolve"@[0] == 'r');
    assert("chargeback"@.len() == 10 && "chargeback"@[0] == 'c');
}

/// The state of a ledger that has seen nothing is one that a ledger can be
/// in.
pub proof fn lemma_empty_wf()
    ensures
        LedgerView::empty().wf(),
{
}

/// The drop law: an operation that the ledger does not take changes nothing.
/// No account is made for it either.
pub proof fn lemma_dropped_operation_changes_nothing(s: LedgerView, op: Transaction)
    requires
        !s.accepts(op),
    ensures
        s.apply(op) == s,
{
    lemma_kinds_differ(op);
}

/// One operation keeps a sound state sound.
pub proof fn lemma_apply_wf(s: LedgerView, op: Transaction)
    requires
        s.wf(),
    ensures
        s.apply(op).wf(),
{
    let s1 = s.deposit_step(op);
    lemma_deposit_step_wf(s, op);
    let s2 = s1.withdrawal_step(op);
    lemma_withdrawal_step_wf(s1, op);
    let s3 = s2.dispute_step(op);
    lemma_dispute_step_wf(s2, op);
    let s4 = s3.resolve_step(op);
    lemma_resolve_step_wf(s3, op);
    lemma_chargeback_step_wf(s4, op);
}

/// A stream of operations keeps a sound state sound.
pub proof fn lemma_replay_wf(s: LedgerView, ops: Seq<Transaction>)
    requires
        s.wf(),
    ensures
        s.replay(ops).wf(),
    decreases ops.len(),
{
    if ops.len() > 0 {
        lemma_replay_wf(s, ops.drop_last());
        lemma_apply_wf(s.replay(ops.drop_last()), ops.last());
    }
}

/// The balance law: after any stream of operations, every account's total
/// is what is available and what is held, together.
pub proof fn lemma_total_is_available_and_held(s: LedgerView, ops: Seq<Transaction>, client: u16)
    requires
        s.wf(),
        s.replay(ops).accounts.contains_key(client),
    ensures
        s.replay(ops).accounts[client].total == s.replay(ops).accounts[client].available
            + s.replay(ops).accounts[client].held,
{
    lemma_replay_wf(s, ops);
}

/// One operation, whatever its kind and whichever client it names, leaves a
/// locked account as it is.
pub proof fn lemma_apply_keeps_locked_account(s: LedgerView, op: Transaction, client: u16)
    requires
        s.accounts.contains_key(client),
        s.accounts[client].locked,
    ensures
        s.apply(op).accounts.contains_key(client),
        s.apply(op).accounts[client] == s.accounts[client],
{
    let s1 = s.deposit_step(op);
    assert(s1.accounts.contains_key(client) && s1.accounts[client] == s.accounts[client]);
    let s2 = s1.withdrawal_step(op);
    assert(s2.accounts.contains_key(client) && s2.accounts[client] == s.accounts[client]);
    let s3 = s2.dispute_step(op);
    assert(s3.accounts.contains_key(client) && s3.accounts[client] == s.accounts[client]);
    let s4 = s3.resolve_step(op);
    assert(s4.accounts.contains_key(client) && s4.accounts[client] == s.accounts[client]);
}

/// The lock law: once an account is locked, no stream of operations changes
/// what is available in it, what is held in it, its total, or the lock.
pub proof fn lemma_locked_account_is_frozen(s: LedgerView, ops: Seq<Transaction>, client: u16)
    requires
        s.accounts.contains_key(client),
        s.accounts[client].locked,
    ensures
        s.replay(ops).accounts.contains_key(client),
        s.replay(ops).accounts[client] == s.accounts[client],
    decreases ops.len(),
{
    if ops.len() > 0 {
        lemma_locked_account_is_frozen(s, ops.drop_last(), client);
        lemma_apply_keeps_locked_account(s.replay(ops.drop_last()), ops.last(), client);
    }
}

/// One operation leaves every logged transaction in the log, as it was first
/// logged.
pub proof fn lemma_apply_keeps_log(s: LedgerView, op: Transaction, tx: u32)
    requires
        s.transactions.contains_key(tx),
    ensures
        s.apply(op).transactions.contains_key(tx),
        s.apply(op).transactions[tx] == s.transactions[tx],
{
    let s1 = s.deposit_step(op);
    assert(s1.transactions.contains_key(tx) && s1.transactions[tx] == s.transactions[tx]);
    let s2 = s1.withdrawal_step(op);
    assert(s2.transactions.contains_key(tx) && s2.transactions[tx] == s.transactions[tx]);
    let s3 = s2.dispute_step(op);
    assert(s3.transactions == s2.transactions);
    let s4 = s3.resolve_step(op);
    assert(s4.transactions == s2.transactions);
}

/// A stream of operations leaves every logged transaction in the log, as it
/// was first logged.
pub proof fn lemma_replay_keeps_log(s: LedgerView, ops: Seq<Transaction>, tx: u32)
    requires
        s.transactions.contains_key(tx),
    ensures
        s.replay(ops).transactions.contains_key(tx),
        s.replay(ops).transactions[tx] == s.transactions[tx],
    decreases ops.len(),
{
    if ops.len() > 0 {
        lemma_replay_keeps_log(s, ops.drop_last(), tx);
        lemma_apply_keeps_log(s.replay(ops.drop_last()), ops.last(), tx);
    }
}

/// A deposit or a withdrawal under an id that is already logged changes
/// nothing, whatever client and amount it carries.
pub proof fn lemma_logged_id_is_spent(s: LedgerView, op: Transaction)
    requires
        s.transactions.contains_key(op.tx),
        op.is_kind("deposit") || op.is_kind("withdrawal"),
    ensures
        s.apply(op) == s,
{
    lemma_kinds_differ(op);
}

/// The replay law: once an id is logged, a deposit or a withdrawal under
/// that id changes nothing, at any later point of the stream and whatever
/// client and amount it carries.
pub proof fn lemma_replayed_transaction_is_dropped(
    s: LedgerView,
    ops: Seq<Transaction>,
    op: Transaction,
)
    requires
        s.transactions.contains_key(op.tx),
        op.is_kind("deposit") || op.is_kind("withdrawal"),
    ensures
        s.replay(ops).apply(op) == s.replay(ops),
{
    lemma_replay_keeps_log(s, ops, op.tx);
    lemma_logged_id_is_spent(s.replay(ops), op);
}

/// A deposit or a withdrawal that the ledger takes is logged as it stands,
/// so that its id is spent from then on: taking it twice is taking it once.
pub proof fn lemma_taken_transaction_is_logged(s: LedgerView, op: Transaction)
    requires
        op.is_kind("deposit") || op.is_kind("withdrawal"),
        s.accepts(op),
    ensures
        s.apply(op).transactions.contains_key(op.tx),
        s.apply(op).transactions[op.tx] == op,
        s.apply(op).apply(op) == s.apply(op),
{
    lemma_kinds_differ(op);
    lemma_logged_id_is_spent(s.apply(op), op);
}

/// One operation leaves every dispute on record, and a settled one settled.
pub proof fn lemma_apply_keeps_disputes(s: LedgerView, op: Transaction, tx: u32)
    requires
        s.disputes.contains_key(tx),
    ensures
        s.apply(op).disputes.contains_key(tx),
        s.disputes[tx].resolved ==> s.apply(op).disputes[tx] == s.disputes[tx],
{
    let s1 = s.deposit_step(op);
    assert(s1.disputes == s.disputes);
    let s2 = s1.withdrawal_step(op);
    assert(s2.disputes == s.disputes);
    let s3 = s2.dispute_step(op);
    assert(s3.disputes.contains_key(tx) && s3.disputes[tx] == s.disputes[tx]);
    let s4 = s3.resolve_step(op);
    assert(s4.disputes.contains_key(tx));
    assert(s.disputes[tx].resolved ==> s4.disputes[tx] == s.disputes[tx]);
}

/// A stream of operations leaves every dispute on record, and a settled one
/// settled.
pub proof fn lemma_replay_keeps_disputes(s: LedgerView, ops: Seq<Transaction>, tx: u32)
    requires
        s.disputes.contains_key(tx),
    ensures
        s.replay(ops).disputes.contains_key(tx),
        s.disputes[tx].resolved ==> s.replay(ops).disputes[tx] == s.disputes[tx],
    decreases ops.len(),
{
    if ops.len() > 0 {
        lemma_replay_keeps_disputes(s, ops.drop_last(), tx);
        lemma_apply_keeps_disputes(s.replay(ops.drop_last()), ops.last(), tx);
    }
}

/// The dispute law: a transaction is disputed once in its life. Once its id
/// has a dispute on record, open or settled, a dispute under that id changes
/// nothing, at any later point of the stream.
pub proof fn lemma_second_dispute_is_dropped(
    s: LedgerView,
    ops: Seq<Transaction>,
    op: Transaction,
)
    requires
        s.disputes.contains_key(op.tx),
        op.is_kind("dispute"),
    ensures
        s.replay(ops).apply(op) == s.replay(ops),
{
    lemma_replay_keeps_disputes(s, ops, op.tx);
    lemma_kinds_differ(op);
}

/// A dispute that the ledger takes is on record, open, under the id that it
/// names, and a second one under that id changes nothing.
pub proof fn lemma_taken_dispute_is_recorded(s: LedgerView, op: Transaction)
    requires
        op.is_kind("dispute"),
        s.accepts(op),
    ensures
        s.apply(op).disputes.contains_key(op.tx),
        s.apply(op).disputes[op.tx] == (Dispute { client: op.client, tx: op.tx, resolved: false }),
        s.apply(op).apply(op) == s.apply(op),
{
    lemma_kinds_differ(op);
    let after = s.apply(op);
    assert(after == s.dispute_step(op));
    assert(after.apply(op) == after);
}

/// A resolve or a chargeback on an open dispute, by a client whose account
/// is not locked, settles the dispute.
pub proof fn lemma_settling_sets_resolved(s: LedgerView, op: Transaction)
    requires
        op.is_kind("resolve") || op.is_kind("chargeback"),
        s.accepts(op),
    ensures
        s.apply(op).disputes.contains_key(op.tx),
        s.apply(op).disputes[op.tx] == (Dispute { resolved: true, ..s.disputes[op.tx] }),
        s.apply(op).apply(op) == s.apply(op),
{
    lemma_kinds_differ(op);
    if op.is_kind("resolve") {
        let after = s.resolve_step(op);
        assert(after.disputes[op.tx].resolved);
        assert(after.chargeback_step(op) == after);
        assert(s.apply(op) == after);
    } else {
        let after = s.chargeback_step(op);
        assert(s.apply(op) == after);
    }
    lemma_dropped_operation_changes_nothing(s.apply(op), op);
}

/// The settlement law: a dispute is settled once. Once the dispute under an
/// id is settled, it stays settled, and a resolve or a chargeback under that
/// id changes nothing, at any later point of the stream.
pub proof fn lemma_settled_dispute_stays_settled(
    s: LedgerView,
    ops: Seq<Transaction>,
    op: Transaction,
)
    requires
        s.disputes.contains_key(op.tx),
        s.disputes[op.tx].resolved,
        op.is_kind("resolve") || op.is_kind("chargeback"),
    ensures
        s.replay(ops).disputes.contains_key(op.tx),
        s.replay(ops).disputes[op.tx] == s.disputes[op.tx],
        s.replay(ops).apply(op) == s.replay(ops),
{
    lemma_replay_keeps_disputes(s, ops, op.tx);
    lemma_kinds_differ(op);
}

} // verus!
