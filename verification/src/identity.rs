//! Identities: opaque keys for callers and transfer destinations.

use vstd::prelude::*;

verus! {

/// An opaque, globally unique key naming a caller or a transfer destination.
///
/// The environment supplies these; the wallet never constructs or validates
/// one, it only compares them and uses them as map keys. An identity is
/// modelled by the sequence of bytes of its raw key.
pub struct Identity {
    bytes: Vec<u8>,
}

impl View for Identity {
    type V = Seq<u8>;

    closed spec fn view(&self) -> Seq<u8> {
        self.bytes@
    }
}

impl Identity {
    /// Wraps the raw key bytes handed out by the environment.
    pub fn from_bytes(bytes: Vec<u8>) -> (r: Identity)
        ensures
            r@ == bytes@,
    {
        Identity { bytes }
    }

    /// The raw key bytes.
    pub fn as_bytes(&self) -> (r: &Vec<u8>)
        ensures
            r@ == self@,
    {
        &self.bytes
    }

    /// Structural equality: two identities are the same exactly when their
    /// raw key bytes agree.
    pub fn same_as(&self, other: &Identity) -> (r: bool)
        ensures
            r == (self@ == other@),
    {
        if self.bytes.len() != other.bytes.len() {
            return false;
        }
        let n = self.bytes.len();
        let mut i: usize = 0;
        while i < n
            invariant
                n == self.bytes.len(),
                n == other.bytes.len(),
                0 <= i <= n,
                forall|j: int| 0 <= j < i ==> self.bytes[j] == other.bytes[j],
            decreases n - i,
        {
            if self.bytes[i] != other.bytes[i] {
                return false;
            }
            i = i + 1;
        }
        proof {
            assert(self@ =~= other@);
        }
        true
    }

    /// A fresh identity with the same raw key bytes.
    pub fn duplicate(&self) -> (r: Identity)
        ensures
            r@ == self@,
    {
        let copy = self.bytes.clone();
        proof {
            assert(copy@ =~= self.bytes@);
        }
        Identity { bytes: copy }
    }
}

} // verus!
