//! The durable balance store: a mapping from identity to non-negative
//! balance, backed by the external stable B-tree map.

use vstd::prelude::*;
use crate::identity::Identity;

verus! {

/// The durable cells backing the balance store: the external stable B-tree
/// map, keyed by raw identity bytes. The verifier treats the value as opaque;
/// its contents are named by [`cells_of`] and reached only through the
/// trusted accessors below.
#[verifier::external_body]
pub struct DurableCells {
    inner: ic_stable_structures::BTreeMap<Vec<u8>, u64, ic_stable_structures::DefaultMemoryImpl>,
}

/// The entries the durable cells currently hold, as a map from raw key bytes
/// to the stored value.
pub uninterp spec fn cells_of(m: DurableCells) -> Map<Seq<u8>, u64>;

impl View for DurableCells {
    type V = Map<Seq<u8>, u64>;

    open spec fn view(&self) -> Map<Seq<u8>, u64> {
        cells_of(*self)
    }
}

/// The entry map with no entries at all.
pub open spec fn no_entries() -> Map<Seq<u8>, u64> {
    Map::<Seq<u8>, u64>::empty()
}

/// Relies on BTreeMap::new: a freshly initialised map holds no entries,
/// whatever the state of the memory handed to it.
#[verifier::external_body]
fn cells_new() -> (r: DurableCells)
    ensures
        r@ == no_entries(),
{
    DurableCells {
        inner: ic_stable_structures::BTreeMap::new(
            ic_stable_structures::DefaultMemoryImpl::default(),
        ),
    }
}

/// Relies on BTreeMap::get: returns the value stored under the key, if any.
#[verifier::external_body]
fn cells_get(m: &DurableCells, k: &Vec<u8>) -> (r: Option<u64>)
    ensures
        r == (if cells_of(*m).dom().contains(k@) {
            Some(cells_of(*m)[k@])
        } else {
            None::<u64>
        }),
{
    m.inner.get(k)
}

/// Relies on BTreeMap::insert: stores the value under the key, replacing and
/// returning any previous value.
#[verifier::external_body]
fn cells_insert(m: &mut DurableCells, k: Vec<u8>, v: u64) -> (r: Option<u64>)
    ensures
        cells_of(*final(m)) == cells_of(*old(m)).insert(k@, v),
        r == (if cells_of(*old(m)).dom().contains(k@) {
            Some(cells_of(*old(m))[k@])
        } else {
            None::<u64>
        }),
{
    m.inner.insert(k, v)
}

/// The balance an entry map assigns to `id`: absence of an entry reads as a
/// balance of zero, so fresh identities start at zero with no explicit
/// account-creation step.
pub open spec fn balance_of(m: Map<Seq<u8>, u64>, id: Seq<u8>) -> u64 {
    if m.dom().contains(id) {
        m[id]
    } else {
        0u64
    }
}

/// A durable mapping from identity to non-negative 64-bit balance.
///
/// The store never performs arithmetic and never rejects a value; reading an
/// identity that was never written yields zero. All validation belongs to the
/// orchestrator layered on top.
pub struct BalanceStore {
    cells: DurableCells,
}

impl View for BalanceStore {
    type V = Map<Seq<u8>, u64>;

    closed spec fn view(&self) -> Map<Seq<u8>, u64> {
        cells_of(self.cells)
    }
}

impl BalanceStore {
    /// An empty store: every identity reads as zero.
    pub fn new() -> (r: BalanceStore)
        ensures
            r@ == no_entries(),
    {
        BalanceStore { cells: cells_new() }
    }

    /// The stored balance, or `0` if no entry exists. Total: no error case.
    pub fn get_balance(&self, who: &Identity) -> (r: u64)
        ensures
            r == balance_of(self@, who@),
    {
        match cells_get(&self.cells, who.as_bytes()) {
            Some(v) => v,
            None => 0,
        }
    }

    /// Unconditionally overwrites (or creates) the entry for `who`.
    pub fn set_balance(&mut self, who: &Identity, value: u64)
        ensures
            final(self)@ == old(self)@.insert(who@, value),
    {
        let key = who.as_bytes().clone();
        proof {
            assert(key@ =~= who@);
        }
        cells_insert(&mut self.cells, key, value);
    }
}

} // verus!
