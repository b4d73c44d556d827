//! Error taxonomy and remote-call outcomes.

use vstd::prelude::*;

verus! {

/// Why a deposit or a withdrawal did not go through.
///
/// Every failure is reported to the caller; none is swallowed and none
/// triggers an internal retry.
#[derive(Debug)]
pub enum WalletError {
    /// The withdrawal asked for more than the caller's current balance.
    /// No remote call is made in this case.
    InsufficientBalance,
    /// The external ledger answered and explicitly declined the transfer.
    LedgerRejected(String),
    /// The remote call could not be delivered or answered; whether the
    /// transfer will still land is unknown to this system.
    CallUnreachable(String),
}

/// The outcome of one remote call to the external ledger, as the host
/// program observed it. `T` is the ledger's opaque transfer index; the
/// wallet returns it to the caller without interpreting it.
#[derive(Debug)]
pub enum RemoteOutcome<T> {
    /// The ledger confirmed the transfer and returned its index.
    Transferred(T),
    /// The ledger answered and rejected the transfer.
    Rejected(String),
    /// The call never produced a ledger answer.
    Unreachable(String),
}

/// What a flow's opening step decided.
#[derive(Clone, Copy, PartialEq, Eq, Debug, Structural)]
pub enum FlowStart {
    /// The per-identity slot was taken and the remote call may be issued.
    Proceed,
    /// Another flow for the same identity is still in flight; nothing was
    /// changed, and the request must wait for that flow to settle.
    Busy,
    /// The withdrawal precondition failed: the amount exceeds the current
    /// balance. Nothing was changed and no remote call may be issued.
    Insufficient,
}

} // verus!
