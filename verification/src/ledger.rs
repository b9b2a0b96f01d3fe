//! The ledger: the accounts, the log of accepted deposits and withdrawals and
//! the disputes, with the rule by which each kind of operation changes them.
//!
//! An operation that does not meet its rule's conditions is dropped: the
//! ledger is left as it was and nothing is reported. What each operation does
//! is stated twice: as a function on the ledger's mathematical state, which
//! the laws of this crate speak of, and as the executable function that is
//! proved to compute it.

use crate::account::Account;
use crate::model::{
    lemma_chargeback_step_wf, lemma_deposit_step_wf, lemma_dispute_step_wf,
    lemma_resolve_step_wf, lemma_room_for_deposit, lemma_with_account_wf,
    lemma_withdrawal_step_wf, LedgerView,
};
use crate::storage::Storage;
use crate::transaction::{Dispute, Transaction};
use vstd::prelude::*;

verus! {

broadcast use vstd::std_specs::hash::group_hash_axioms;

/// The ledger: every account, the log of accepted deposits and withdrawals,
/// and the disputes.
pub struct Ledger {
    accounts: Storage<u16, Account>,
    transactions: Storage<u32, Transaction>,
    disputes: Storage<u32, Dispute>,
}

impl Ledger {
    /// The ledger's state.
    pub closed spec fn view(&self) -> LedgerView {
        LedgerView {
            accounts: self.accounts@,
            transactions: self.transactions@,
            disputes: self.disputes@,
        }
    }

    /// Whether the ledger's state is sound.
    pub open spec fn wf(&self) -> bool {
        self@.wf()
    }

    /// A ledger that has seen no operation.
    pub fn new() -> (ledger: Self)
        ensures
            ledger@ == LedgerView::empty(),
            ledger.wf(),
    {
        Ledger { accounts: Storage::new(), transactions: Storage::new(), disputes: Storage::new() }
    }

    /// The accounts, by client.
    pub fn accounts(&self) -> (s: &Storage<u16, Account>)
        ensures
            s@ == self@.accounts,
    {
        &self.accounts
    }

    /// The accepted deposits and withdrawals, by transaction id.
    pub fn transactions(&self) -> (s: &Storage<u32, Transaction>)
        ensures
            s@ == self@.transactions,
    {
        &self.transactions
    }

    /// The disputes, by the id of the disputed transaction.
    pub fn disputes(&self) -> (s: &Storage<u32, Dispute>)
        ensures
            s@ == self@.disputes,
    {
        &self.disputes
    }
}

/// The client's account, made first where the client has none.
fn get_account(ledger: &mut Ledger, client: u16) -> (acct: Account)
    requires
        old(ledger).wf(),
    ensures
        final(ledger)@ == old(ledger)@.with_account(client),
        final(ledger)@.accounts.contains_key(client),
        acct == final(ledger)@.accounts[client],
        final(ledger).wf(),
{
    let account_exists: bool = ledger.accounts.contains(client);

    if !account_exists {
        let new_account = Account::new(client, 0, 0);
        ledger.accounts.insert(new_account);
    }
    proof {
        lemma_with_account_wf(old(ledger)@, client);
    }
    let copy_out = |acct: Option<&Account>| -> (a: Account)
        requires
            acct.is_some(),
        ensures
            a == *acct.unwrap(),
        { *acct.unwrap() };
    ledger.accounts.read(client, copy_out)
}

/// Logs `tranx`, under its id.
fn save_transaction(ledger: &mut Ledger, tranx: &Transaction)
    ensures
        final(ledger)@ == (LedgerView {
            transactions: old(ledger)@.transactions.insert(tranx.tx, *tranx),
            ..old(ledger)@
        }),
{
    let new_tranx = Transaction::new(tranx.kind.clone(), tranx.client, tranx.tx, tranx.amount);

    ledger.transactions.insert(new_tranx);
}

/// Takes a deposit: pays the amount into the client's account and logs the
/// operation, unless it is no deposit, its id is already logged, or the
/// account is locked.
pub fn process_deposit(ledger: &mut Ledger, tranx: &Transaction)
    requires
        old(ledger).wf(),
    ensures
        final(ledger)@ == old(ledger)@.deposit_step(*tranx),
        final(ledger).wf(),
{
    if !tranx.has_kind("deposit") {
        return ;
    }
    let tx_exists: bool = ledger.transactions.contains(tranx.tx);

    // a second operation under a logged id is dropped
    if tx_exists {
        return ;
    }
    let acct = get_account(ledger, tranx.client);
    // a locked account takes nothing
    if acct.locked {
        return ;
    }
    proof {
        lemma_room_for_deposit(ledger@, tranx.client, tranx.amount);
    }
    let pay_in = |acct: Option<&mut Account>| -> (a: Option<Account>)
        requires
            acct.is_some() ==> acct.unwrap().wf() && acct.unwrap().total + tranx.amount
                <= u128::MAX,
        ensures
            acct.is_none() ==> a.is_none(),
            acct.is_some() ==> a == Some(*final(acct.unwrap())) && *final(acct.unwrap())
                == acct.unwrap().after_deposit(tranx.amount),
        {
            if let Some(acc) = acct {
                acc.deposit(tranx);
                Some(*acc)
            } else {
                None
            }
        };
    let u_account: Option<Account> = ledger.accounts.modify(tranx.client, pay_in);

    if let Some(acct) = u_account {
        ledger.accounts.insert(acct);
        save_transaction(ledger, tranx);
    }
    proof {
        let s = old(ledger)@.with_account(tranx.client);
        assert(ledger@.accounts =~= s.accounts.insert(
            tranx.client,
            s.accounts[tranx.client].after_deposit(tranx.amount),
        ));
        assert(ledger@ == old(ledger)@.deposit_step(*tranx));
        lemma_deposit_step_wf(old(ledger)@, *tranx);
    }
}

/// Takes a withdrawal: logs the operation and pays the amount out of the
/// client's account where that much is available, unless it is no
/// withdrawal, its id is already logged, or the account is locked.
pub fn process_withdrawal(ledger: &mut Ledger, tranx: &Transaction)
    requires
        old(ledger).wf(),
    ensures
        final(ledger)@ == old(ledger)@.withdrawal_step(*tranx),
        final(ledger).wf(),
{
    if !tranx.has_kind("withdrawal") {
        return ;
    }
    let tx_exists: bool = ledger.transactions.contains(tranx.tx);

    // a second operation under a logged id is dropped
    if tx_exists {
        return ;
    }
    let acct = get_account(ledger, tranx.client);

    // a locked account gives nothing
    if acct.locked {
        return ;
    }
    let pay_out = |acct: Option<&mut Account>| -> (a: Option<Account>)
        requires
            acct.is_some() ==> acct.unwrap().wf(),
        ensures
            acct.is_none() ==> a.is_none(),
            acct.is_some() ==> a == Some(*final(acct.unwrap())) && *final(acct.unwrap())
                == acct.unwrap().after_withdraw(tranx.amount),
        {
            if let Some(acc) = acct {
                acc.withdraw(tranx);
                Some(*acc)
            } else {
                None
            }
        };
    let u_account: Option<Account> = ledger.accounts.modify(tranx.client, pay_out);

    if let Some(acct) = u_account {
        ledger.accounts.insert(acct);
        save_transaction(ledger, tranx);
    }
    proof {
        let s = old(ledger)@.with_account(tranx.client);
        assert(ledger@.accounts =~= s.accounts.insert(
            tranx.client,
            s.accounts[tranx.client].after_withdraw(tranx.amount),
        ));
        assert(ledger@ == old(ledger)@.withdrawal_step(*tranx));
        lemma_withdrawal_step_wf(old(ledger)@, *tranx);
    }
}

/// The logged transaction under `tx`, copied out.
fn stored_transaction(ledger: &Ledger, tx: u32) -> (stored: Transaction)
    requires
        ledger@.transactions.contains_key(tx),
    ensures
        stored == ledger@.transactions[tx],
{
    let copy_out = |trx: Option<&Transaction>| -> (t: Transaction)
        requires
            trx.is_some(),
        ensures
            t == *trx.unwrap(),
        { trx.unwrap().clone() };
    ledger.transactions.read(tx, copy_out)
}

/// The dispute under `tx`, copied out.
fn stored_dispute(ledger: &Ledger, tx: u32) -> (stored: Dispute)
    requires
        ledger@.disputes.contains_key(tx),
    ensures
        stored == ledger@.disputes[tx],
{
    let copy_out = |dis: Option<&Dispute>| -> (d: Dispute)
        requires
            dis.is_some(),
        ensures
            d == *dis.unwrap(),
        { *dis.unwrap() };
    ledger.disputes.read(tx, copy_out)
}

/// Takes a dispute: records an open dispute under the operation's id and
/// moves the logged amount from available to held where that much is
/// available, unless it is no dispute, its id is not logged or has a dispute
/// already, or the account of the client it names is locked.
pub fn process_dispute(ledger: &mut Ledger, tranx: &Transaction)
    requires
        old(ledger).wf(),
    ensures
        final(ledger)@ == old(ledger)@.dispute_step(*tranx),
        final(ledger).wf(),
{
    if !tranx.has_kind("dispute") {
        return ;
    }
    let tx_exists: bool = ledger.transactions.contains(tranx.tx);
    let dispute_exists: bool = ledger.disputes.contains(tranx.tx);

    if !tx_exists || dispute_exists {
        return ;
    }
    let stored_tranx: Transaction = stored_transaction(ledger, tranx.tx);

    let acct = get_account(ledger, tranx.client);

    // a locked account is not touched
    if acct.locked {
        return ;
    }
    let hold = |acct: Option<&mut Account>| -> (a: Option<Account>)
        requires
            acct.is_some() ==> acct.unwrap().wf(),
        ensures
            acct.is_none() ==> a.is_none(),
            acct.is_some() ==> a == Some(*final(acct.unwrap())) && *final(acct.unwrap())
                == acct.unwrap().after_dispute(stored_tranx.amount),
        {
            if let Some(acc) = acct {
                acc.dispute(&stored_tranx);
                Some(*acc)
            } else {
                None
            }
        };
    let u_account: Option<Account> = ledger.accounts.modify(tranx.client, hold);

    if let Some(acct) = u_account {
        let dispute = Dispute::new(tranx.client, tranx.tx, false);

        ledger.accounts.insert(acct);
        ledger.disputes.insert(dispute);
    }
    proof {
        let s = old(ledger)@.with_account(tranx.client);
        assert(ledger@.accounts =~= s.accounts.insert(
            tranx.client,
            s.accounts[tranx.client].after_dispute(stored_tranx.amount),
        ));
        assert(ledger@ == old(ledger)@.dispute_step(*tranx));
        lemma_dispute_step_wf(old(ledger)@, *tranx);
    }
}

/// Takes a resolve: settles the open dispute under the operation's id and
/// moves the logged amount from held back to available where that much is
/// held, unless it is no resolve, its id has no open dispute on a logged
/// transaction, or the account of the client it names is locked.
pub fn process_resolve(ledger: &mut Ledger, tranx: &Transaction)
    requires
        old(ledger).wf(),
    ensures
        final(ledger)@ == old(ledger)@.resolve_step(*tranx),
        final(ledger).wf(),
{
    if !tranx.has_kind("resolve") {
        return ;
    }
    let tx_exists: bool = ledger.transactions.contains(tranx.tx);
    let dispute_exists: bool = ledger.disputes.contains(tranx.tx);

    if !tx_exists || !dispute_exists {
        return ;
    }
    let stored_tranx: Transaction = stored_transaction(ledger, tranx.tx);

    let stored_dispute: Dispute = stored_dispute(ledger, tranx.tx);

    // a settled dispute stays settled
    if stored_dispute.resolved {
        return ;
    }
    let acct = get_account(ledger, tranx.client);

    // a locked account is not touched
    if acct.locked {
        return ;
    }
    let release = |acct: Option<&mut Account>| -> (a: Option<Account>)
        requires
            acct.is_some() ==> acct.unwrap().wf(),
        ensures
            acct.is_none() ==> a.is_none(),
            acct.is_some() ==> a == Some(*final(acct.unwrap())) && *final(acct.unwrap())
                == acct.unwrap().after_resolve(stored_tranx.amount),
        {
            if let Some(acc) = acct {
                acc.resolve(&stored_tranx);
                Some(*acc)
            } else {
                None
            }
        };
    let u_account: Option<Account> = ledger.accounts.modify(tranx.client, release);

    if let Some(acct) = u_account {
        ledger.accounts.insert(acct);
        resolve_dispute(ledger, stored_dispute.tx);
    }
    proof {
        let s = old(ledger)@.with_account(tranx.client);
        assert(ledger@.accounts =~= s.accounts.insert(
            tranx.client,
            s.accounts[tranx.client].after_resolve(stored_tranx.amount),
        ));
        assert(ledger@ == old(ledger)@.resolve_step(*tranx));
        lemma_resolve_step_wf(old(ledger)@, *tranx);
    }
}

/// Takes a chargeback: settles the open dispute under the operation's id
/// and, where the logged amount is held, takes it out of the account and
/// locks the account, unless it is no chargeback, its id has no open dispute
/// on a logged transaction, or the account of the client it names is locked.
pub fn process_chargeback(ledger: &mut Ledger, tranx: &Transaction)
    requires
        old(ledger).wf(),
    ensures
        final(ledger)@ == old(ledger)@.chargeback_step(*tranx),
        final(ledger).wf(),
{
    if !tranx.has_kind("chargeback") {
        return ;
    }
    let tx_exists: bool = ledger.transactions.contains(tranx.tx);
    let dispute_exists: bool = ledger.disputes.contains(tranx.tx);

    if !tx_exists || !dispute_exists {
        return ;
    }
    let stored_tranx: Transaction = stored_transaction(ledger, tranx.tx);

    let stored_dispute: Dispute = stored_dispute(ledger, tranx.tx);

    // a settled dispute stays settled
    if stored_dispute.resolved {
        return ;
    }
    let acct = get_account(ledger, tranx.client);

    // a locked account is not touched
    if acct.locked {
        return ;
    }
    let reverse = |acct: Option<&mut Account>| -> (a: Option<Account>)
        requires
            acct.is_some() ==> acct.unwrap().wf(),
        ensures
            acct.is_none() ==> a.is_none(),
            acct.is_some() ==> a == Some(*final(acct.unwrap())) && *final(acct.unwrap())
                == acct.unwrap().after_chargeback(stored_tranx.amount),
        {
            if let Some(acc) = acct {
                acc.chargeback(&stored_tranx);
                Some(*acc)
            } else {
                None
            }
        };
    let u_account: Option<Account> = ledger.accounts.modify(tranx.client, reverse);

    if let Some(acct) = u_account {
        ledger.accounts.insert(acct);
        resolve_dispute(ledger, stored_dispute.tx);
    }
    proof {
        let s = old(ledger)@.with_account(tranx.client);
        assert(ledger@.accounts =~= s.accounts.insert(
            tranx.client,
            s.accounts[tranx.client].after_chargeback(stored_tranx.amount),
        ));
        assert(ledger@ == old(ledger)@.chargeback_step(*tranx));
        lemma_chargeback_step_wf(old(ledger)@, *tranx);
    }
}

/// Settles the dispute under `tx`.
fn resolve_dispute(ledger: &mut Ledger, tx: u32)
    requires
        old(ledger)@.disputes.contains_key(tx),
        old(ledger)@.disputes[tx].tx == tx,
    ensures
        final(ledger)@ == (LedgerView { disputes: old(ledger)@.settled(tx), ..old(ledger)@ }),
{
    let settle = |dis: Option<&mut Dispute>| -> (d: Dispute)
        requires
            dis.is_some(),
        ensures
            d == *final(dis.unwrap()),
            d == (Dispute { resolved: true, ..*dis.unwrap() }),
        {
            let disp = dis.unwrap();
            disp.resolved = true;
            *disp
        };
    let updated_dispute: Dispute = ledger.disputes.modify(tx, settle);

    ledger.disputes.insert(updated_dispute);
    proof {
        assert(ledger@.disputes =~= old(ledger)@.settled(tx));
    }
}

/// Offers one operation of the stream to each of the five rules in turn.
/// At most one of them knows its kind; the others drop it.
pub fn process(ledger: &mut Ledger, tranx: &Transaction)
    requires
        old(ledger).wf(),
    ensures
        final(ledger)@ == old(ledger)@.apply(*tranx),
        final(ledger).wf(),
{
    process_deposit(ledger, tranx);
    process_withdrawal(ledger, tranx);
    process_dispute(ledger, tranx);
    process_resolve(ledger, tranx);
    process_chargeback(ledger, tranx);
}

/// Replays a stream of operations against the ledger, in order.
pub fn replay(ledger: &mut Ledger, ops: &Vec<Transaction>)
    requires
        old(ledger).wf(),
    ensures
        final(ledger)@ == old(ledger)@.replay(ops@),
        final(ledger).wf(),
{
    let mut done: usize = 0;
    while done < ops.len()
        invariant
            done <= ops.len(),
            ledger.wf(),
            ledger@ == old(ledger)@.replay(ops@.take(done as int)),
        decreases ops.len() - done,
    {
        proof {
            let next = ops@.take(done + 1);
            assert(next.drop_last() =~= ops@.take(done as int));
            assert(next.last() == ops@[done as int]);
        }
        process(ledger, &ops[done]);
        done += 1;
    }
    proof {
        assert(ops@.take(done as int) =~= ops@);
    }
}

} // verus!
