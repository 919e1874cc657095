//! The cat the player may take in after its visit.
use vstd::prelude::*;

verus! {

/// The adopted cat. It has no state of its own; being around is enough.
#[derive(Copy, Clone, Debug, PartialEq, Eq, Structural)]
pub struct Cat {}

/// Whether the cat has come by yet, and whether it stayed.
#[derive(Copy, Clone, Debug, PartialEq, Eq, Structural)]
pub enum CatState {
    NotVisited,
    Visited,
    Cat(Cat),
}

impl CatState {
    /// Whether the cat's visit has already happened (whatever its outcome).
    pub fn has_visited(&self) -> (r: bool)
        ensures
            r == !(*self is NotVisited),
    {
        match self {
            CatState::NotVisited => false,
            CatState::Visited => true,
            CatState::Cat(c) => true,
        }
    }

    /// The cat, when it was taken in.
    pub fn get(&self) -> (r: Option<&Cat>)
        ensures
            r is Some <==> *self is Cat,
    {
        match self {
            CatState::Cat(cat) => Some(cat),
            CatState::NotVisited => None,
            CatState::Visited => None,
        }
    }
}

} // verus!
