//! The public identifier of a caller or of an account.

use vstd::prelude::*;

verus! {

/// A 32-byte public identifier. Two identifiers are the same when all their
/// bytes agree.
#[derive(Clone, Copy, Debug)]
pub struct Identity {
    pub bytes: [u8; 32],
}

impl Identity {
    /// The identifier made of the given bytes.
    pub fn new(bytes: [u8; 32]) -> (id: Identity)
        ensures
            id.bytes == bytes,
    {
        Identity { bytes }
    }

    /// The bytes of the identifier.
    pub fn to_bytes(&self) -> (bytes: [u8; 32])
        ensures
            bytes == self.bytes,
    {
        self.bytes
    }
}

impl PartialEq for Identity {
    fn eq(&self, other: &Identity) -> (same: bool) {
        let mut i: usize = 0;
        while i < 32
            invariant
                i <= 32,
                forall|j: int| 0 <= j < i ==> self.bytes[j] == other.bytes[j],
            decreases 32 - i,
        {
            if self.bytes[i] != other.bytes[i] {
                return false;
            }
            i += 1;
        }
        assert(self.bytes =~= other.bytes);
        true
    }
}

impl Eq for Identity {

}

impl vstd::std_specs::cmp::PartialEqSpecImpl for Identity {
    open spec fn obeys_eq_spec() -> bool {
        true
    }

    open spec fn eq_spec(&self, other: &Identity) -> bool {
        *self == *other
    }
}

} // verus!
