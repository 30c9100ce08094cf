use vstd::prelude::*;

verus! {

/// A move location: row `x` and column `y` of the 3x3 grid, each in
/// `0..3`, addressable alternatively by the linear index `x * 3 + y`.
#[derive(Copy, Clone, Debug, PartialEq, Eq, Structural)]
pub struct Mark {
    pub x: usize,
    pub y: usize,
}

/// The mark a linear cell index `0..9` stands for.
pub open spec fn mark_of_index(index: int) -> Mark {
    (Mark { x: (index / 3) as usize, y: (index % 3) as usize })
}

impl From<usize> for Mark {
    fn from(index: usize) -> (r: Mark) {
        let x = index / 3;
        let y = index % 3;

        Mark { x, y }
    }
}

impl vstd::std_specs::convert::FromSpecImpl<usize> for Mark {
    open spec fn obeys_from_spec() -> bool {
        true
    }

    open spec fn from_spec(index: usize) -> Mark {
        mark_of_index(index as int)
    }
}

impl Mark {
    /// The linear cell index this mark stands for.
    pub fn index(self) -> (r: usize)
        requires
            self.x < 3,
            self.y < 3,
        ensures
            r == self.x * 3 + self.y,
    {
        self.x * 3 + self.y
    }
}

/// Law: converting a linear index to a mark and back yields the index,
/// and the mark's coordinates are in range.
pub proof fn lemma_index_roundtrip(index: int)
    requires
        0 <= index < 9,
    ensures
        mark_of_index(index).x < 3,
        mark_of_index(index).y < 3,
        mark_of_index(index).x * 3 + mark_of_index(index).y == index,
{
}

} // verus!
