use vstd::prelude::*;

verus! {

/// A player joins with the id of the controller that connected.
#[derive(Clone, Copy, Debug, PartialEq, Eq, Structural)]
pub struct PlayerSpawnEvent {
    pub id: usize,
}

} // verus!
