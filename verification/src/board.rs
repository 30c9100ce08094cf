use crate::player::Player;
use crate::player::lemma_opponent_involution;
use crate::player::marker_of;
use crate::player::opponent_of;
use crate::square::Square;
use vstd::prelude::*;

verus! {

broadcast use vstd::array::group_array_axioms;

/// The outcome of a finished game.
#[derive(Copy, Clone, Debug, PartialEq, Eq, Structural)]
pub enum Winner {
    Human,
    Computer,
    Tie,
}

/// A 3x3 grid of cells, stored row-major: the cell at row `x`, column
/// `y` sits at linear position `x * 3 + y`. A board is a plain value;
/// marking a cell yields a new board and leaves the original intact.
#[derive(Copy, Clone, Debug, PartialEq)]
pub struct Board {
    pub tiles: [Square; 9],
}

impl View for Board {
    type V = Seq<Square>;

    open spec fn view(&self) -> Seq<Square> {
        self.tiles@
    }
}

/// The board with no cell claimed.
pub open spec fn empty_board() -> Seq<Square> {
    Seq::new(9, |i: int| Square::Empty)
}

/// The winner a single line yields: `a`, `b`, `c` are the linear
/// positions of its three cells, and it wins for whichever player owns
/// all three of them.
pub open spec fn line_winner(s: Seq<Square>, a: int, b: int, c: int) -> Option<Winner> {
    if s[a] is Human && s[b] is Human && s[c] is Human {
        Some(Winner::Human)
    } else if s[a] is Computer && s[b] is Computer && s[c] is Computer {
        Some(Winner::Computer)
    } else {
        None
    }
}

/// Every cell is occupied.
pub open spec fn is_full(s: Seq<Square>) -> bool {
    forall|i: int| 0 <= i < 9 ==> !((#[trigger] s[i]) is Empty)
}

/// The winner of a board: the first winning line in scan order (rows
/// 0 to 2, then columns 0 to 2, then the main diagonal, then the
/// anti-diagonal), `Tie` on a full board with no winning line, and
/// `None` while the game is still open.
pub open spec fn winner_of(s: Seq<Square>) -> Option<Winner> {
    let r0 = line_winner(s, 0, 1, 2);
    let r1 = line_winner(s, 3, 4, 5);
    let r2 = line_winner(s, 6, 7, 8);
    let c0 = line_winner(s, 0, 3, 6);
    let c1 = line_winner(s, 1, 4, 7);
    let c2 = line_winner(s, 2, 5, 8);
    let d0 = line_winner(s, 0, 4, 8);
    let d1 = line_winner(s, 2, 4, 6);
    if r0 is Some {
        r0
    } else if r1 is Some {
        r1
    } else if r2 is Some {
        r2
    } else if c0 is Some {
        c0
    } else if c1 is Some {
        c1
    } else if c2 is Some {
        c2
    } else if d0 is Some {
        d0
    } else if d1 is Some {
        d1
    } else if is_full(s) {
        Some(Winner::Tie)
    } else {
        None
    }
}

/// The board after player `p` marks the cell at linear position `i`.
pub open spec fn play_at(s: Seq<Square>, i: int, p: Player) -> Seq<Square> {
    s.update(i, marker_of(p))
}

/// How many cells at linear position `i` or later are empty.
pub open spec fn empty_from(s: Seq<Square>, i: int) -> nat
    decreases 9 - i,
{
    if i < 0 || i >= 9 {
        0
    } else if s[i] is Empty {
        1 + empty_from(s, i + 1)
    } else {
        empty_from(s, i + 1)
    }
}

/// How many cells of the board are empty.
pub open spec fn empty_count(s: Seq<Square>) -> nat {
    empty_from(s, 0)
}

/// The first empty cell at linear position `i` or later; 9 if every
/// cell from `i` on is occupied.
pub open spec fn first_empty(s: Seq<Square>, i: int) -> int
    decreases 9 - i,
{
    if i < 0 || i >= 9 {
        9
    } else if s[i] is Empty {
        i
    } else {
        first_empty(s, i + 1)
    }
}

/// The score of a finished game from player `p`'s point of view.
pub open spec fn score_of(w: Winner, p: Player) -> int {
    match w {
        Winner::Tie => 0,
        Winner::Human => if p is Human { 1 } else { -1 },
        Winner::Computer => if p is Computer { 1 } else { -1 },
    }
}

/// The minimax value of the board for player `p`. On a terminal board
/// it is the direct score; otherwise `p`'s opponent moves next, picks
/// the reply that is best for itself, and `p`'s value is the negation
/// of that maximum.
pub open spec fn utility_spec(s: Seq<Square>, p: Player) -> int
    decreases empty_count(s), 1int, 0int,
{
    match winner_of(s) {
        Some(w) => score_of(w, p),
        None => -best_reply(s, opponent_of(p), 0),
    }
}

/// The greatest utility player `p` can secure with a move at linear
/// position `i` or later, each candidate board evaluated from `p`'s
/// own perspective; -2 when no such move exists.
pub open spec fn best_reply(s: Seq<Square>, p: Player, i: int) -> int
    decreases empty_count(s), 0int, 9 - i,
        when s.len() == 9
{
    if i < 0 || i >= 9 {
        -2
    } else if s[i] is Empty {
        proof {
            if s.len() == 9 {
                lemma_empty_count_play(s, i, p);
            }
        }
        let mine = utility_spec(play_at(s, i, p), p);
        let rest = best_reply(s, p, i + 1);
        if mine > rest {
            mine
        } else {
            rest
        }
    } else {
        best_reply(s, p, i + 1)
    }
}

proof fn lemma_empty_from_update(s: Seq<Square>, j: int, v: Square, i: int)
    requires
        s.len() == 9,
        0 <= j < 9,
        0 <= i <= 9,
        s[j] is Empty,
        !(v is Empty),
    ensures
        i <= j ==> empty_from(s.update(j, v), i) + 1 == empty_from(s, i),
        i > j ==> empty_from(s.update(j, v), i) == empty_from(s, i),
    decreases 9 - i,
{
    if i < 9 {
        lemma_empty_from_update(s, j, v, i + 1);
    }
}

/// Marking an empty cell takes away exactly one empty cell.
pub proof fn lemma_empty_count_play(s: Seq<Square>, i: int, p: Player)
    requires
        s.len() == 9,
        0 <= i < 9,
        s[i] is Empty,
    ensures
        empty_count(play_at(s, i, p)) + 1 == empty_count(s),
        play_at(s, i, p).len() == 9,
{
    lemma_opponent_involution(p);
    lemma_empty_from_update(s, i, marker_of(p), 0);
}

/// Law (move generation completeness): the first-empty scan lands on
/// an empty cell exactly while empty cells remain, every cell it skips
/// is occupied, and playing the found cell consumes exactly one empty
/// cell, so a full walk yields one move per empty cell.
pub proof fn lemma_moves_complete(s: Seq<Square>, i: int)
    requires
        s.len() == 9,
        0 <= i <= 9,
    ensures
        i <= first_empty(s, i) <= 9,
        (first_empty(s, i) == 9) <==> (empty_from(s, i) == 0),
        first_empty(s, i) < 9 ==> s[first_empty(s, i)] is Empty,
        first_empty(s, i) < 9 ==> empty_from(s, first_empty(s, i) + 1) + 1 == empty_from(s, i),
        forall|k: int| i <= k < first_empty(s, i) ==> !((#[trigger] s[k]) is Empty),
    decreases 9 - i,
{
    if i < 9 && !(s[i] is Empty) {
        lemma_moves_complete(s, i + 1);
    }
}

/// Law (move generation): a generated board differs from its source in
/// exactly the marked cell, which carries the moving player's marker.
pub proof fn lemma_move_changes_one_cell(s: Seq<Square>, j: int, p: Player)
    requires
        s.len() == 9,
        0 <= j < 9,
    ensures
        play_at(s, j, p).len() == 9,
        play_at(s, j, p)[j] == marker_of(p),
        forall|k: int| 0 <= k < 9 && k != j ==> play_at(s, j, p)[k] == s[k],
{
}

/// The winner entry that stands for player `p`.
pub open spec fn win_of(p: Player) -> Winner {
    match p {
        Player::Human => Winner::Human,
        Player::Computer => Winner::Computer,
    }
}

/// Player `p` owns all three cells of at least one of the eight lines.
pub open spec fn has_line(s: Seq<Square>, p: Player) -> bool {
    ||| line_winner(s, 0, 1, 2) == Some(win_of(p))
    ||| line_winner(s, 3, 4, 5) == Some(win_of(p))
    ||| line_winner(s, 6, 7, 8) == Some(win_of(p))
    ||| line_winner(s, 0, 3, 6) == Some(win_of(p))
    ||| line_winner(s, 1, 4, 7) == Some(win_of(p))
    ||| line_winner(s, 2, 5, 8) == Some(win_of(p))
    ||| line_winner(s, 0, 4, 8) == Some(win_of(p))
    ||| line_winner(s, 2, 4, 6) == Some(win_of(p))
}

/// Law (terminal coverage, tie case): a board with no empty cell and
/// no winning line has winner `Tie`.
pub proof fn lemma_full_no_line_tie(s: Seq<Square>)
    requires
        s.len() == 9,
        is_full(s),
        !has_line(s, Player::Human),
        !has_line(s, Player::Computer),
    ensures
        winner_of(s) == Some(Winner::Tie),
{
}

/// Law (terminal coverage, win case): when exactly one player owns a
/// winning line, the winner is that player, whether or not empty cells
/// remain. (With a line for each player — possible only for two rows
/// or two columns of a malformed board — the scan order decides
/// instead.)
pub proof fn lemma_line_wins(s: Seq<Square>, p: Player)
    requires
        s.len() == 9,
        has_line(s, p),
        !has_line(s, opponent_of(p)),
    ensures
        winner_of(s) == Some(win_of(p)),
{
}

/// Law (winner determinism): the winner is a function of the cell
/// values alone, so equal boards have equal winners.
pub proof fn lemma_winner_deterministic(a: Board, b: Board)
    requires
        a@ == b@,
    ensures
        winner_of(a@) == winner_of(b@),
{
}

/// Law (terminal utility): on a board that already has a winner, the
/// utility is the direct win/loss/tie score, with no recursion.
pub proof fn lemma_utility_terminal(s: Seq<Square>, p: Player)
    requires
        winner_of(s) is Some,
    ensures
        utility_spec(s, p) == score_of(winner_of(s)->0, p),
{
}

/// Law (utility range): the utility of any board is -1, 0 or 1.
pub proof fn lemma_utility_range(s: Seq<Square>, p: Player)
    requires
        s.len() == 9,
    ensures
        -1 <= utility_spec(s, p) <= 1,
    decreases empty_count(s), 1int, 0int,
{
    if winner_of(s) is None {
        assert(!is_full(s));
        lemma_best_reply_bounds(s, opponent_of(p), 0);
        assert(exists|j: int| 0 <= j < 9 && (#[trigger] s[j]) is Empty);
    }
}

/// The best-reply value stays within -2 and 1, and reaches at least -1
/// as soon as any move is available.
pub proof fn lemma_best_reply_bounds(s: Seq<Square>, p: Player, i: int)
    requires
        s.len() == 9,
        0 <= i <= 9,
    ensures
        -2 <= best_reply(s, p, i) <= 1,
        (exists|j: int| i <= j < 9 && (#[trigger] s[j]) is Empty) ==> best_reply(s, p, i) >= -1,
    decreases empty_count(s), 0int, 9 - i,
{
    if i < 9 {
        lemma_best_reply_bounds(s, p, i + 1);
        if s[i] is Empty {
            lemma_empty_count_play(s, i, p);
            lemma_utility_range(play_at(s, i, p), p);
        }
        if exists|j: int| i <= j < 9 && (#[trigger] s[j]) is Empty {
            let j = choose|j: int| i <= j < 9 && (#[trigger] s[j]) is Empty;
            if j > i {
                assert(i + 1 <= j < 9 && s[j] is Empty);
            }
        }
    }
}

/// Walking best-reply from `i`: if no cell from `i` on is empty the
/// value is -2, and otherwise the value combines the first playable
/// cell with the best reply after it.
pub proof fn lemma_best_reply_skip(s: Seq<Square>, p: Player, i: int)
    requires
        s.len() == 9,
        0 <= i <= 9,
    ensures
        first_empty(s, i) == 9 ==> best_reply(s, p, i) == -2,
        first_empty(s, i) < 9 ==> best_reply(s, p, i) == ({
            let j = first_empty(s, i);
            let mine = utility_spec(play_at(s, j, p), p);
            let rest = best_reply(s, p, j + 1);
            if mine > rest {
                mine
            } else {
                rest
            }
        }),
    decreases 9 - i,
{
    if i < 9 && !(s[i] is Empty) {
        lemma_best_reply_skip(s, p, i + 1);
    }
}

impl Board {
    /// An empty board.
    pub fn new() -> (r: Board)
        ensures
            r@ == empty_board(),
    {
        let r = Board { tiles: [Square::Empty; 9] };
        proof {
            assert(r@ =~= empty_board());
        }
        r
    }

    /// Read the cell at row `x`, column `y`.
    pub fn get(self, x: usize, y: usize) -> (r: Square)
        requires
            x < 3,
            y < 3,
        ensures
            r == self@[x * 3 + y],
    {
        let index: usize = x * 3 + y;
        self.tiles[index]
    }

    /// A copy of the board with the cell at row `x`, column `y` carrying
    /// `player`'s marker; the receiver is left untouched.
    pub fn mark(self, x: usize, y: usize, player: Player) -> (r: Board)
        requires
            x < 3,
            y < 3,
        ensures
            r@ == play_at(self@, x * 3 + y, player),
    {
        let mut tiles = self.tiles;
        let index: usize = x * 3 + y;

        let marker = player.marker();
        tiles[index] = marker;

        let r = Board { tiles };
        proof {
            assert(r@ =~= play_at(self@, x * 3 + y, player));
        }
        r
    }

    /// Whether every cell is occupied.
    fn is_over(self) -> (r: bool)
        ensures
            r == is_full(self@),
    {
        let mut x: usize = 0;
        while x < 3
            invariant
                x <= 3,
                forall|i: int| 0 <= i < x * 3 ==> !((#[trigger] self@[i]) is Empty),
            decreases 3 - x,
        {
            let mut y: usize = 0;
            while y < 3
                invariant
                    x < 3,
                    y <= 3,
                    forall|i: int| 0 <= i < x * 3 + y ==> !((#[trigger] self@[i]) is Empty),
                decreases 3 - y,
            {
                if self.get(x, y).is_empty() {
                    return false;
                }
                y = y + 1;
            }
            x = x + 1;
        }
        true
    }

    /// The winner a single line yields; `a`, `b` and `c` are the linear
    /// positions of its three cells.
    fn check(self, a: usize, b: usize, c: usize) -> (r: Option<Winner>)
        requires
            a < 9,
            b < 9,
            c < 9,
        ensures
            r == line_winner(self@, a as int, b as int, c as int),
    {
        let s1 = self.tiles[a];
        let s2 = self.tiles[b];
        let s3 = self.tiles[c];

        match (s1, s2, s3) {
            (Square::Human, Square::Human, Square::Human) => Some(Winner::Human),
            (Square::Computer, Square::Computer, Square::Computer) => Some(Winner::Computer),
            _ => None,
        }
    }

    /// The winner of the board, if the game is decided: the first
    /// winning line in scan order, `Tie` on a full board without one,
    /// `None` while the game is still open.
    pub fn get_winner(self) -> (r: Option<Winner>)
        ensures
            r == winner_of(self@),
    {
        if let Some(winner) = self.check(0, 1, 2) {
            return Some(winner);
        }
        if let Some(winner) = self.check(3, 4, 5) {
            return Some(winner);
        }
        if let Some(winner) = self.check(6, 7, 8) {
            return Some(winner);
        }
        if let Some(winner) = self.check(0, 3, 6) {
            return Some(winner);
        }
        if let Some(winner) = self.check(1, 4, 7) {
            return Some(winner);
        }
        if let Some(winner) = self.check(2, 5, 8) {
            return Some(winner);
        }
        if let Some(winner) = self.check(0, 4, 8) {
            return Some(winner);
        }
        if let Some(winner) = self.check(2, 4, 6) {
            return Some(winner);
        }

        if self.is_over() {
            Some(Winner::Tie)
        } else {
            None
        }
    }

    /// The legal moves for `player`: one new board per empty cell, in
    /// increasing linear-position order.
    pub fn moves(self, player: Player) -> (r: Moves)
        ensures
            r.board == self,
            r.player == player,
            r.index == 0,
    {
        Moves { board: self, player, index: 0 }
    }

    /// The minimax value of the board for `player`, assuming the
    /// opponent of `player` moves next.
    pub fn utility(self, player: Player) -> (r: isize)
        ensures
            r == utility_spec(self@, player),
            -1 <= r <= 1,
        decreases empty_count(self@),
    {
        proof {
            lemma_utility_range(self@, player);
        }
        if let Some(winner) = self.get_winner() {
            match (winner, player) {
                (Winner::Tie, _) => 0,
                (Winner::Human, Player::Human) => 1,
                (Winner::Human, Player::Computer) => -1,
                (Winner::Computer, Player::Computer) => 1,
                (Winner::Computer, Player::Human) => -1,
            }
        } else {
            let opponent = player.opponent();
            let mut moves = self.moves(opponent);
            let mut best: isize = -2;

            while moves.index < 9
                invariant
                    moves.board == self,
                    moves.player == opponent,
                    opponent == opponent_of(player),
                    moves.index <= 9,
                    -2 <= best <= 1,
                    winner_of(self@) is None,
                    best_reply(self@, opponent, 0) == ({
                        let rest = best_reply(self@, opponent, moves.index as int);
                        if best as int > rest {
                            best as int
                        } else {
                            rest
                        }
                    }),
                decreases 9 - moves.index,
            {
                let ghost prev: int = moves.index as int;
                let ghost j: int = first_empty(self@, prev);
                proof {
                    lemma_moves_complete(self@, prev);
                    lemma_best_reply_skip(self@, opponent, prev);
                }
                match moves.next() {
                    Some(board) => {
                        proof {
                            lemma_empty_count_play(self@, j, opponent);
                        }
                        let curr = board.utility(opponent);
                        if curr > best {
                            best = curr;
                        }
                    },
                    None => {},
                }
            }

            proof {
                assert(!is_full(self@));
                assert(exists|j: int| 0 <= j < 9 && (#[trigger] self@[j]) is Empty);
                lemma_best_reply_bounds(self@, opponent, 0);
            }
            -best
        }
    }
}

/// A finite, restartable walk over the legal moves of a fixed board
/// for a fixed player: each step yields the source board with the next
/// empty cell (in increasing linear-position order) marked.
pub struct Moves {
    pub board: Board,
    pub player: Player,
    pub index: usize,
}

impl Moves {
    /// The next generated board, if a cell at the current position or
    /// later is still empty; the source board is never touched.
    pub fn next(&mut self) -> (r: Option<Board>)
        ensures
            final(self).board == old(self).board,
            final(self).player == old(self).player,
            ({
                let s = old(self).board@;
                let j = first_empty(s, old(self).index as int);
                if j < 9 {
                    &&& r is Some
                    &&& r->0@ == play_at(s, j, old(self).player)
                    &&& final(self).index as int == j + 1
                } else {
                    &&& r is None
                    &&& final(self).index as int == if old(self).index > 9 {
                        old(self).index as int
                    } else {
                        9
                    }
                }
            }),
    {
        let ghost s = self.board@;
        let ghost start: int = self.index as int;
        while self.index < 9
            invariant
                self.board@ == s,
                self.board == old(self).board,
                self.player == old(self).player,
                s == old(self).board@,
                start == old(self).index as int,
                start <= self.index as int,
                self.index as int == start || self.index <= 9,
                first_empty(s, self.index as int) == first_empty(s, start),
            decreases 9 - self.index,
        {
            let ghost k: int = self.index as int;
            let x: usize = self.index / 3;
            let y: usize = self.index % 3;
            proof {
                assert(x * 3 + y == k);
            }

            if !self.board.get(x, y).is_empty() {
                self.index += 1;
                proof {
                    assert(first_empty(s, k) == first_empty(s, k + 1));
                }
            } else {
                let board = self.board.mark(x, y, self.player);
                self.index += 1;
                proof {
                    assert(s[k] is Empty);
                    assert(first_empty(s, start) == k);
                }
                return Some(board);
            }
        }

        None
    }
}

} // verus!
