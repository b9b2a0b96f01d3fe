use ledger_engine::account::Account;
use ledger_engine::storage::{Storage, StoreKey};
use ledger_engine::transaction::{Dispute, Transaction};

#[derive(Debug, Copy, Clone, PartialEq)]
struct Dummy {
    id: u16,
}

impl StoreKey for Dummy {
    type Key = u16;

    fn spec_key(&self) -> Self::Key {
        self.id
    }

    fn key(&self) -> Self::Key {
        self.id
    }
}

#[test]
fn test_storage_insert() {
    let dummy = Dummy { id: 1 };

    let mut db = Storage::<u16, Dummy>::new();
    let acct_exist = db.contains(1);
    assert!(!acct_exist, "account should be empty");

    db.insert(dummy.clone());

    let dumb: Dummy = db.read(1, |dumm| dumm.unwrap().clone());

    assert!(
        dumb.id == dummy.id,
        "created id and fetched id are not equal; expected {}, got {}",
        dummy.id,
        dumb.id
    );
}

#[test]
fn test_storage_modify() {
    let dummy = Dummy { id: 1 };

    let mut db = Storage::<u16, Dummy>::new();
    let exists = db.contains(1);
    assert!(!exists, "account should be empty");

    db.insert(dummy.clone());

    let dumb: Dummy = db.read(1, |acct| acct.unwrap().clone());

    assert!(
        dumb.id == dummy.id,
        "created id and fetched id are not equal; expected {}, got {}",
        dummy.id,
        dumb.id
    );

    let updated = db.modify(dummy.id, |dumm| {
        let dmy = dumm.unwrap();
        dmy.id = 25;

        return *dmy;
    });

    db.insert(updated);

    assert!(
        updated.id == 25,
        "dummy not equal after modification; expect {}, got {}",
        25,
        updated.id,
    );
}

#[test]
fn test_account_storage_insert() {
    let account = Account {
        client: 1,
        available: 200_000,
        held: 0,
        total: 0,
        locked: false,
    };

    let mut db = Storage::<u16, Account>::new();
    let acct_exist = db.contains(1);
    assert!(!acct_exist, "account should be empty");

    db.insert(account.clone());

    let acct: Account = db.read(1, |acct| acct.unwrap().clone());

    assert!(
        acct.client == account.client,
        "created client id and fetched client id are not equal"
    );
}

#[test]
fn test_account_storage_modify() {
    let account = Account {
        client: 1,
        available: 200_000,
        held: 0,
        total: 0,
        locked: false,
    };

    let mut db = Storage::<u16, Account>::new();
    let exists = db.contains(1);
    assert!(!exists, "account should be empty");

    db.insert(account.clone());

    let acct: Account = db.read(1, |acct| acct.unwrap().clone());

    assert!(
        acct.available == account.available,
        "created client id and fetched client id are not equal"
    );

    let updated = db.modify(acct.client, |acc| {
        let a = acc.unwrap();
        a.available = 250_000;

        return *a;
    });

    db.insert(updated);

    assert!(
        updated.available == 250_000,
        "account not equal after modification; expect {}, got {}",
        250_000,
        updated.available,
    );
}

#[test]
fn test_insert_account() {
    let account = Account {
        client: 1,
        available: 200_000,
        held: 0,
        total: 0,
        locked: false,
    };

    let mut db = Storage::<u16, Account>::new();
    let acct_exist = db.contains(1);
    assert!(!acct_exist, "account should be empty");

    db.insert(account.clone());

    let acct: Account = db.read(1, |acct| acct.unwrap().clone());
    println!("{:?}", acct);

    assert!(
        acct.client == account.client,
        "created client id and fetched client id are not equal"
    );
}

#[test]
fn test_insert() {
    let transaction = Transaction {
        kind: "deposit".to_string(),
        client: 1,
        tx: 1,
        amount: 100_000,
    };

    let mut db = Storage::<u32, Transaction>::new();
    let exists = db.contains(1);
    assert!(!exists, "transaction should be empty");

    db.insert(transaction.clone());

    let tranx: Transaction = db.read(1, |acct| acct.unwrap().clone());

    assert!(
        tranx.kind == transaction.kind,
        "created client id and fetched client id are not equal"
    );
}

#[test]
fn test_insert_dispute() {
    let dispute = Dispute::new(1, 1, false);

    let mut db = Storage::<u32, Dispute>::new();
    let exists = db.contains(1);
    assert!(!exists, "transaction should be empty");

    db.insert(dispute.clone());

    let dispx: Dispute = db.read(1, |acct| acct.unwrap().clone());

    assert!(
        dispx.tx == dispute.tx,
        "created client id and fetched client id are not equal; expected {}, got {}",
        dispute.tx,
        dispx.tx
    );
}

#[test]
fn new_store_is_empty() {
    let db = Storage::<u16, Dummy>::new();
    assert!(!db.contains(0));
    assert!(!db.contains(u16::MAX));
    assert_eq!(db.read(7, |d| d.is_none()), true);
    assert_eq!(db.reads(|it| it.count()), 0);
}

#[test]
fn insert_reports_whether_a_record_was_there() {
    let mut db = Storage::<u16, Account>::new();
    let first = Account::new(4, 10, 0);
    let second = Account::new(4, 30, 5);
    assert_eq!(db.insert(first), false);
    assert_eq!(db.insert(second), true);
    // the second record stands in place of the first
    let found: Account = db.read(4, |a| *a.unwrap());
    assert_eq!(found, second);
    assert_eq!(db.reads(|it| it.count()), 1);
}

#[test]
fn read_of_a_missing_key_hands_out_none() {
    let mut db = Storage::<u16, Dummy>::new();
    db.insert(Dummy { id: 3 });
    let seen: Option<Dummy> = db.read(4, |d| d.copied());
    assert_eq!(seen, None);
    let seen: Option<Dummy> = db.read(3, |d| d.copied());
    assert_eq!(seen, Some(Dummy { id: 3 }));
}

#[test]
fn modify_of_a_missing_key_hands_out_none_and_changes_nothing() {
    let mut db = Storage::<u16, Dummy>::new();
    db.insert(Dummy { id: 3 });
    let got_none: bool = db.modify(9, |d| d.is_none());
    assert!(got_none);
    assert!(db.contains(3));
    assert!(!db.contains(9));
    assert_eq!(db.reads(|it| it.count()), 1);
}

#[test]
fn modify_changes_the_record_in_place() {
    let mut db = Storage::<u16, Account>::new();
    db.insert(Account::new(2, 100, 0));
    let held_before: u128 = db.modify(2, |a| {
        let acct = a.unwrap();
        let before = acct.held;
        acct.held = 40;
        before
    });
    assert_eq!(held_before, 0);
    let found: Account = db.read(2, |a| *a.unwrap());
    assert_eq!(found.held, 40);
    assert_eq!(found.available, 100);
}

#[test]
fn modify_leaves_a_rekeyed_record_under_its_old_key() {
    let mut db = Storage::<u16, Dummy>::new();
    db.insert(Dummy { id: 1 });
    db.modify(1, |d| {
        d.unwrap().id = 25;
    });
    assert!(db.contains(1));
    assert!(!db.contains(25));
    let found: Dummy = db.read(1, |d| *d.unwrap());
    assert_eq!(found.id, 25);
}

#[test]
fn reads_walks_every_record_once() {
    let mut db = Storage::<u16, Dummy>::new();
    for id in [5u16, 1, 9, 3] {
        db.insert(Dummy { id });
    }
    let mut seen: Vec<(u16, u16)> = db.reads(|it| it.map(|(k, d)| (*k, d.id)).collect());
    seen.sort();
    assert_eq!(seen, vec![(1, 1), (3, 3), (5, 5), (9, 9)]);
}

#[test]
fn records_report_their_own_key() {
    assert_eq!(Account::new(12, 0, 0).key(), 12);
    assert_eq!(Transaction::new("deposit".to_string(), 1, 77, 5).key(), 77);
    assert_eq!(Dispute::new(1, 78, true).key(), 78);
}
