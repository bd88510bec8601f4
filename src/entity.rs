use vstd::prelude::*;

verus! {

/// An opaque handle into the shared world.
#[derive(Clone, Copy, Debug, PartialEq, Eq, Structural)]
pub struct Entity {
    pub id: u32,
}

} // verus!
