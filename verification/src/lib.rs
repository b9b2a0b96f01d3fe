//! An in-memory ledger that replays a stream of deposits, withdrawals,
//! disputes, resolves and chargebacks against client accounts.
//!
//! - [`storage`]: the keyed store that holds every kind of record.
//! - [`transaction`]: the operations of the stream and the disputes.
//! - [`account`]: a client's balances and the five changes to them.
//! - [`model`]: the ledger's state as mathematics, and the rule of each kind
//!   of operation as a function on it.
//! - [`ledger`]: the executable ledger, proved to compute those functions.
//! - [`laws`]: what holds of the ledger whatever stream it is given.
//! - [`export`]: how a read-out of the accounts is shared out among workers.

pub mod account;
pub mod export;
pub mod laws;
pub mod ledger;
pub mod model;
pub mod storage;
pub mod transaction;
