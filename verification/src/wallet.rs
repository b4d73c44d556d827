//! The transfer orchestrator: the two flows around the external ledger's
//! remote calls, and the per-identity exclusion that serializes them.
//!
//! Each flow is a two-step sequence. The opening step (`begin_deposit`,
//! `begin_send`) checks the local preconditions and takes the identity's
//! in-flight slot; the host program then issues the remote call. The settling
//! step (`settle_deposit`, `settle_send`) receives the remote outcome,
//! mutates the local balance only when the ledger confirmed the transfer,
//! and frees the slot on every path. The local ledger therefore never
//! credits or debits funds the external ledger did not actually move.
//!
//! The in-flight slot is a deliberate strengthening over designs that let
//! several flows for the same identity interleave around the remote call's
//! suspension point: it closes the lost-update races in which two
//! withdrawals both pass the balance check, or a withdrawal's write-back
//! swallows a concurrent deposit. While an identity's flow is open, every
//! further flow for that identity is answered `Busy` and must wait;
//! operations on different identities stay fully independent.

use vstd::prelude::*;
use crate::errors::{FlowStart, RemoteOutcome, WalletError};
use crate::identity::Identity;
use crate::store::{balance_of, no_entries, BalanceStore};

verus! {

/// The entry map after a deposit of `amount` to `id` is confirmed: the entry
/// for `id` becomes its old balance (zero when absent) plus `amount`.
pub open spec fn credited(m: Map<Seq<u8>, u64>, id: Seq<u8>, amount: u64) -> Map<Seq<u8>, u64> {
    m.insert(id, (balance_of(m, id) + amount) as u64)
}

/// The entry map after a withdrawal of `amount` from `id` is confirmed: the
/// entry for `id` becomes its old balance minus `amount`.
pub open spec fn debited(m: Map<Seq<u8>, u64>, id: Seq<u8>, amount: u64) -> Map<Seq<u8>, u64> {
    m.insert(id, (balance_of(m, id) - amount) as u64)
}

/// The custodial wallet: a durable balance ledger plus the set of identities
/// whose deposit or withdrawal is currently between its opening and its
/// settling step.
pub struct Wallet {
    store: BalanceStore,
    in_flight: Vec<Identity>,
}

/// Whether some identity in the slot sequence has view `id`.
spec fn slot_held(s: Seq<Identity>, id: Seq<u8>) -> bool {
    exists|i: int| 0 <= i < s.len() && s[i]@ == id
}

/// Whether the slot sequence names each identity at most once.
spec fn slots_unique(s: Seq<Identity>) -> bool {
    forall|i: int, j: int| 0 <= i < j < s.len() ==> s[i]@ != s[j]@
}

impl Wallet {
    /// The ledger: which balance each identity has claim to.
    pub closed spec fn balances(self) -> Map<Seq<u8>, u64> {
        self.store@
    }

    /// Whether a flow for `id` is currently in flight.
    pub closed spec fn locked(self, id: Seq<u8>) -> bool {
        slot_held(self.in_flight@, id)
    }

    /// Well-formed: each identity holds at most one in-flight slot.
    pub closed spec fn wf(self) -> bool {
        slots_unique(self.in_flight@)
    }

    /// A wallet with no balances and no flow in flight.
    pub fn new() -> (w: Wallet)
        ensures
            w.wf(),
            w.balances() == no_entries(),
            forall|id: Seq<u8>| !w.locked(id),
    {
        Wallet { store: BalanceStore::new(), in_flight: Vec::new() }
    }

    /// The caller's current balance, zero for an identity never deposited
    /// to. Side-effect-free; bypasses the orchestrator.
    pub fn get_balance(&self, who: &Identity) -> (r: u64)
        ensures
            r == balance_of(self.balances(), who@),
    {
        self.store.get_balance(who)
    }

    /// The position of `who`'s in-flight slot, if one is open.
    fn find_slot(&self, who: &Identity) -> (r: Option<usize>)
        ensures
            match r {
                Some(i) => i < self.in_flight@.len() && self.in_flight@[i as int]@ == who@,
                None => !self.locked(who@),
            },
    {
        let n = self.in_flight.len();
        let mut i: usize = 0;
        while i < n
            invariant
                n == self.in_flight@.len(),
                0 <= i <= n,
                forall|j: int| 0 <= j < i ==> self.in_flight@[j]@ != who@,
            decreases n - i,
        {
            if self.in_flight[i].same_as(who) {
                return Some(i);
            }
            i = i + 1;
        }
        None
    }

    /// Opens `who`'s in-flight slot.
    fn take_slot(&mut self, who: &Identity)
        requires
            old(self).wf(),
            !old(self).locked(who@),
        ensures
            final(self).wf(),
            final(self).balances() == old(self).balances(),
            final(self).locked(who@),
            forall|id: Seq<u8>| id != who@ ==> final(self).locked(id) == old(self).locked(id),
    {
        let ghost before = self.in_flight@;
        self.in_flight.push(who.duplicate());
        proof {
            let n = before.len() as int;
            assert(self.in_flight@[n]@ == who@);
            assert forall|id: Seq<u8>| id != who@ implies self.locked(id) == (exists|i: int|
                0 <= i < n && before[i]@ == id) by {
                if self.locked(id) {
                    let i = choose|i: int|
                        0 <= i < self.in_flight@.len() && self.in_flight@[i]@ == id;
                    assert(i < n && before[i]@ == id);
                }
                if exists|i: int| 0 <= i < n && before[i]@ == id {
                    let i = choose|i: int| 0 <= i < n && before[i]@ == id;
                    assert(self.in_flight@[i]@ == id);
                }
            }
        }
    }

    /// Frees `who`'s in-flight slot.
    fn free_slot(&mut self, who: &Identity)
        requires
            old(self).wf(),
            old(self).locked(who@),
        ensures
            final(self).wf(),
            final(self).balances() == old(self).balances(),
            !final(self).locked(who@),
            forall|id: Seq<u8>| id != who@ ==> final(self).locked(id) == old(self).locked(id),
    {
        let slot = self.find_slot(who);
        match slot {
            Some(i) => {
                let ghost before = self.in_flight@;
                self.in_flight.remove(i);
                proof {
                    assert forall|k: int|
                        0 <= k < self.in_flight@.len() implies self.in_flight@[k]@ != who@ by {
                        if k < i {
                            assert(self.in_flight@[k] == before[k]);
                        } else {
                            assert(self.in_flight@[k] == before[k + 1]);
                        }
                    }
                    assert forall|id: Seq<u8>| id != who@ implies self.locked(id) == (exists|k: int|
                        0 <= k < before.len() && before[k]@ == id) by {
                        if self.locked(id) {
                            let k = choose|k: int|
                                0 <= k < self.in_flight@.len() && self.in_flight@[k]@ == id;
                            if k < i {
                                assert(before[k]@ == id);
                            } else {
                                assert(before[k + 1]@ == id);
                            }
                        }
                        if exists|k: int| 0 <= k < before.len() && before[k]@ == id {
                            let k = choose|k: int| 0 <= k < before.len() && before[k]@ == id;
                            if k < i {
                                assert(self.in_flight@[k]@ == id);
                            } else {
                                assert(k != i);
                                assert(self.in_flight@[k - 1]@ == id);
                            }
                        }
                    }
                }
            },
            None => {},
        }
    }

    /// Opens the deposit flow for `who`.
    ///
    /// Deposits are additive, so no local precondition is checked; the only
    /// refusal is `Busy`, when another flow for `who` is still in flight. On
    /// `Proceed` the slot is taken and the host must issue the external
    /// `pull` call, then settle with its outcome. No balance moves here.
    pub fn begin_deposit(&mut self, who: &Identity) -> (r: FlowStart)
        requires
            old(self).wf(),
        ensures
            final(self).wf(),
            final(self).balances() == old(self).balances(),
            r != FlowStart::Insufficient,
            (r == FlowStart::Busy) == old(self).locked(who@),
            r == FlowStart::Busy ==> *final(self) == *old(self),
            r == FlowStart::Proceed ==> final(self).locked(who@),
            forall|id: Seq<u8>| id != who@ ==> final(self).locked(id) == old(self).locked(id),
    {
        match self.find_slot(who) {
            Some(_) => FlowStart::Busy,
            None => {
                self.take_slot(who);
                FlowStart::Proceed
            },
        }
    }

    /// Settles the deposit flow for `who` with the outcome of the external
    /// `pull` call, freeing the slot on every path.
    ///
    /// Only a confirmed transfer credits the balance, by exactly `amount`;
    /// a rejected or unreachable call leaves every balance untouched and is
    /// returned verbatim as the matching error. The credit must fit in 64
    /// bits: the host checks this before settling and treats an overflow as
    /// a fatal invariant violation, not a recoverable error.
    pub fn settle_deposit<T>(
        &mut self,
        who: &Identity,
        amount: u64,
        outcome: RemoteOutcome<T>,
    ) -> (r: Result<T, WalletError>)
        requires
            old(self).wf(),
            old(self).locked(who@),
            outcome is Transferred ==> balance_of(old(self).balances(), who@) + amount
                <= u64::MAX,
        ensures
            final(self).wf(),
            !final(self).locked(who@),
            forall|id: Seq<u8>| id != who@ ==> final(self).locked(id) == old(self).locked(id),
            match outcome {
                RemoteOutcome::Transferred(t) => final(self).balances() == credited(
                    old(self).balances(),
                    who@,
                    amount,
                ) && r == Ok::<T, WalletError>(t),
                RemoteOutcome::Rejected(s) => final(self).balances() == old(self).balances()
                    && r == Err::<T, WalletError>(WalletError::LedgerRejected(s)),
                RemoteOutcome::Unreachable(s) => final(self).balances() == old(self).balances()
                    && r == Err::<T, WalletError>(WalletError::CallUnreachable(s)),
            },
    {
        self.free_slot(who);
        match outcome {
            RemoteOutcome::Transferred(t) => {
                let current = self.store.get_balance(who);
                self.store.set_balance(who, current + amount);
                Ok(t)
            },
            RemoteOutcome::Rejected(s) => Err(WalletError::LedgerRejected(s)),
            RemoteOutcome::Unreachable(s) => Err(WalletError::CallUnreachable(s)),
        }
    }

    /// Opens the withdrawal flow for `who`.
    ///
    /// Refuses with `Busy` while another flow for `who` is in flight, and
    /// with `Insufficient` when `amount` exceeds the current balance — in
    /// both cases nothing changes and no remote call may be issued. On
    /// `Proceed` the slot is taken and the host must issue the external
    /// `push` call, then settle with its outcome. No balance moves here.
    pub fn begin_send(&mut self, who: &Identity, amount: u64) -> (r: FlowStart)
        requires
            old(self).wf(),
        ensures
            final(self).wf(),
            final(self).balances() == old(self).balances(),
            (r == FlowStart::Busy) == old(self).locked(who@),
            (r == FlowStart::Insufficient) == (!old(self).locked(who@) && amount > balance_of(
                old(self).balances(),
                who@,
            )),
            r != FlowStart::Proceed ==> *final(self) == *old(self),
            r == FlowStart::Proceed ==> final(self).locked(who@),
            forall|id: Seq<u8>| id != who@ ==> final(self).locked(id) == old(self).locked(id),
    {
        match self.find_slot(who) {
            Some(_) => FlowStart::Busy,
            None => {
                let balance = self.store.get_balance(who);
                if amount > balance {
                    FlowStart::Insufficient
                } else {
                    self.take_slot(who);
                    FlowStart::Proceed
                }
            },
        }
    }

    /// Settles the withdrawal flow for `who` with the outcome of the
    /// external `push` call, freeing the slot on every path.
    ///
    /// Only a confirmed transfer debits the balance, by exactly `amount`;
    /// a rejected or unreachable call leaves every balance untouched and is
    /// returned verbatim as the matching error. The balance must still cover
    /// `amount`: the opening step checked it, the slot kept every other flow
    /// for `who` out, and the host re-checks before settling so the debit
    /// can never underflow.
    pub fn settle_send<T>(
        &mut self,
        who: &Identity,
        amount: u64,
        outcome: RemoteOutcome<T>,
    ) -> (r: Result<T, WalletError>)
        requires
            old(self).wf(),
            old(self).locked(who@),
            outcome is Transferred ==> amount <= balance_of(old(self).balances(), who@),
        ensures
            final(self).wf(),
            !final(self).locked(who@),
            forall|id: Seq<u8>| id != who@ ==> final(self).locked(id) == old(self).locked(id),
            match outcome {
                RemoteOutcome::Transferred(t) => final(self).balances() == debited(
                    old(self).balances(),
                    who@,
                    amount,
                ) && r == Ok::<T, WalletError>(t),
                RemoteOutcome::Rejected(s) => final(self).balances() == old(self).balances()
                    && r == Err::<T, WalletError>(WalletError::LedgerRejected(s)),
                RemoteOutcome::Unreachable(s) => final(self).balances() == old(self).balances()
                    && r == Err::<T, WalletError>(WalletError::CallUnreachable(s)),
            },
    {
        self.free_slot(who);
        match outcome {
            RemoteOutcome::Transferred(t) => {
                let current = self.store.get_balance(who);
                self.store.set_balance(who, current - amount);
                Ok(t)
            },
            RemoteOutcome::Rejected(s) => Err(WalletError::LedgerRejected(s)),
            RemoteOutcome::Unreachable(s) => Err(WalletError::CallUnreachable(s)),
        }
    }
}

/// An identity with no prior deposit has balance zero: a fresh ledger
/// assigns zero to every identity.
pub proof fn lemma_fresh_identity_balance_zero(id: Seq<u8>)
    ensures
        balance_of(no_entries(), id) == 0,
{
}

/// Settling one identity's flow never moves any other identity's balance:
/// a credit or debit to `id` leaves every `other` identity's balance as it
/// was. Together with the fresh-ledger law, an identity never deposited to
/// keeps balance zero across any run of the wallet.
pub proof fn lemma_other_balances_untouched(
    m: Map<Seq<u8>, u64>,
    id: Seq<u8>,
    other: Seq<u8>,
    amount: u64,
)
    requires
        other != id,
    ensures
        balance_of(credited(m, id, amount), other) == balance_of(m, other),
        balance_of(debited(m, id, amount), other) == balance_of(m, other),
{
}

/// A confirmed deposit credits exactly its amount: afterwards the balance
/// equals the prior balance plus `amount`.
pub proof fn lemma_credit_adds(m: Map<Seq<u8>, u64>, id: Seq<u8>, amount: u64)
    requires
        balance_of(m, id) + amount <= u64::MAX,
    ensures
        balance_of(credited(m, id, amount), id) == balance_of(m, id) + amount,
{
}

/// A confirmed withdrawal debits exactly its amount: afterwards the balance
/// equals the prior balance minus `amount`.
pub proof fn lemma_debit_subtracts(m: Map<Seq<u8>, u64>, id: Seq<u8>, amount: u64)
    requires
        amount <= balance_of(m, id),
    ensures
        balance_of(debited(m, id, amount), id) == balance_of(m, id) - amount,
{
}

/// Round trip: a confirmed deposit of `d` followed by a confirmed withdrawal
/// of `w <= d` leaves the balance exactly `d - w` above where it started.
pub proof fn lemma_deposit_withdraw_round_trip(m: Map<Seq<u8>, u64>, id: Seq<u8>, d: u64, w: u64)
    requires
        balance_of(m, id) + d <= u64::MAX,
        w <= d,
    ensures
        balance_of(debited(credited(m, id, d), id, w), id) == balance_of(m, id) + d - w,
{
}

/// Serialized withdrawals cannot jointly overdraw. The in-flight slot forces
/// two overlapping withdrawals for one identity to run one after the other;
/// when each amount fits the starting balance but their sum does not, the
/// one that settles first leaves too little for the other, whose opening
/// balance check must then refuse with `Insufficient`. Never do both pass.
pub proof fn lemma_overlapping_withdrawals_exclusive(
    m: Map<Seq<u8>, u64>,
    id: Seq<u8>,
    w1: u64,
    w2: u64,
)
    requires
        w1 <= balance_of(m, id),
        w2 <= balance_of(m, id),
        w1 + w2 > balance_of(m, id),
    ensures
        balance_of(debited(m, id, w1), id) < w2,
        balance_of(debited(m, id, w2), id) < w1,
{
}

} // verus!
