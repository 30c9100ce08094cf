use crate::square::Square;
use vstd::prelude::*;

verus! {

/// One of the two participants of a game.
#[derive(Copy, Clone, Debug, PartialEq, Eq, Structural)]
pub enum Player {
    Human,
    Computer,
}

/// The cell state that `p` leaves behind when marking a cell.
pub open spec fn marker_of(p: Player) -> Square {
    match p {
        Player::Human => Square::Human,
        Player::Computer => Square::Computer,
    }
}

/// The other player.
pub open spec fn opponent_of(p: Player) -> Player {
    match p {
        Player::Human => Player::Computer,
        Player::Computer => Player::Human,
    }
}

impl Player {
    /// The cell state this player's marks carry.
    pub fn marker(self) -> (r: Square)
        ensures
            r == marker_of(self),
    {
        match self {
            Player::Human => Square::Human,
            Player::Computer => Square::Computer,
        }
    }

    /// The other player.
    pub fn opponent(self) -> (r: Player)
        ensures
            r == opponent_of(self),
    {
        match self {
            Player::Human => Player::Computer,
            Player::Computer => Player::Human,
        }
    }
}

/// Law: flipping to the opponent twice comes back to the same player,
/// and a player's marker is never the empty cell state.
pub proof fn lemma_opponent_involution(p: Player)
    ensures
        opponent_of(opponent_of(p)) == p,
        !(marker_of(p) is Empty),
        opponent_of(p) != p,
{
}

} // verus!
