use crate::board::Board;
use crate::board::empty_board;
use crate::board::play_at;
use crate::board::winner_of;
use crate::mark::Mark;
use crate::player::Player;
use crate::player::opponent_of;
use vstd::prelude::*;

verus! {

/// The symbol the human plays with; the computer plays the other one.
#[derive(Copy, Clone, Debug, PartialEq, Eq, Structural)]
pub enum Marker {
    Naught,
    Cross,
}

/// The state of one game in progress: the current board, whose turn
/// it is, and which symbol the human chose. The game is over exactly
/// when the board has a winner; until then the machine alternates
/// between awaiting a human move and awaiting a computer move,
/// according to `curr_player`.
pub struct Game {
    pub board: Board,
    pub curr_player: Player,
    pub player_marker: Marker,
}

impl Game {
    /// A fresh game on an empty board, with `first_player` to move.
    pub fn new(first_player: Player, player_marker: Marker) -> (g: Game)
        ensures
            g.board@ == empty_board(),
            g.curr_player == first_player,
            g.player_marker == player_marker,
    {
        Game { board: Board::new(), curr_player: first_player, player_marker }
    }

    /// One turn of the driver: while the game is not over, apply the
    /// current player's move to a previously-empty cell and hand the
    /// turn to the opponent. The board changes only at the marked cell.
    pub fn step(&mut self, m: Mark)
        requires
            winner_of(old(self).board@) is None,
            m.x < 3,
            m.y < 3,
            old(self).board@[m.x * 3 + m.y] is Empty,
        ensures
            final(self).board@ == play_at(old(self).board@, m.x * 3 + m.y, old(self).curr_player),
            final(self).curr_player == opponent_of(old(self).curr_player),
            final(self).player_marker == old(self).player_marker,
    {
        self.board = self.board.mark(m.x, m.y, self.curr_player);
        self.curr_player = self.curr_player.opponent();
    }
}

} // verus!
