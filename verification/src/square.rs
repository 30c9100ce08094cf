use vstd::prelude::*;

verus! {

/// The state of one cell of the grid: unclaimed, or owned by one of the
/// two players.
#[derive(Copy, Clone, Debug, PartialEq, Eq, Structural)]
pub enum Square {
    Empty,
    Human,
    Computer,
}

impl Square {
    /// Whether no player has claimed this cell yet.
    pub fn is_empty(self) -> (r: bool)
        ensures
            r == (self is Empty),
    {
        matches!(self, Square::Empty)
    }
}

} // verus!
