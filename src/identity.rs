use vstd::prelude::*;

verus! {

/// An authenticated identity, as supplied by the hosting environment.
/// The registry only ever compares two identities for equality.
#[derive(Clone, Copy, Debug, PartialEq, Eq, Structural)]
pub struct Address {
    pub id: u64,
}

impl Address {
    pub fn new(id: u64) -> (r: Address)
        ensures
            r.id == id,
    {
        Address { id }
    }
}

} // verus!
