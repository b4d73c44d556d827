//! A custodial balance ledger that fronts an external token-transfer service.
//!
//! The wallet keeps, per identity, how many token units that identity has in
//! custody. Deposits and withdrawals each wrap one asynchronous remote call to
//! the external ledger; the local balance is mutated only after that call
//! confirms success, so the local ledger never credits funds that did not
//! move. The host program performs the remote calls and feeds their outcomes
//! back into the flows defined here.

pub mod errors;
pub mod identity;
pub mod store;
pub mod wallet;
