use vstd::prelude::*;

verus! {

/// What a new player tells the server about themselves.
#[derive(Clone, Debug, PartialEq, Eq)]
pub struct PlayerInitData {
    pub display_name: String,
}

} // verus!
