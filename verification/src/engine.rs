use crate::board::Board;
use crate::board::best_reply;
use crate::board::empty_count;
use crate::board::first_empty;
use crate::board::lemma_best_reply_bounds;
use crate::board::lemma_moves_complete;
use crate::board::play_at;
use crate::board::utility_spec;
use crate::mark::Mark;
use crate::mark::lemma_index_roundtrip;
use crate::player::Player;
use crate::square::Square;
use vstd::prelude::*;

verus! {

/// Relies on rand::Rng::gen_range, which returns a value drawn from
/// the given half-open range and panics only when the range is empty.
#[verifier::external_body]
fn random_below(n: usize) -> (r: usize)
    requires
        n >= 1,
    ensures
        r < n,
{
    rand::Rng::gen_range(&mut rand::thread_rng(), 0..n)
}

/// Whether the candidate pair `c` records a legal computer move on `s`
/// together with its exact minimax value.
spec fn candidate_ok(s: Seq<Square>, c: (Mark, isize)) -> bool {
    &&& c.0.x < 3
    &&& c.0.y < 3
    &&& s[c.0.x * 3 + c.0.y] is Empty
    &&& c.1 as int == utility_spec(play_at(s, c.0.x * 3 + c.0.y, Player::Computer), Player::Computer)
}

/// Whether `m` is a legal move on `s` whose board, evaluated for the
/// computer, has minimax value `v`.
pub open spec fn optimal_mark(s: Seq<Square>, m: Mark, v: int) -> bool {
    &&& m.x < 3
    &&& m.y < 3
    &&& s[m.x * 3 + m.y] is Empty
    &&& utility_spec(play_at(s, m.x * 3 + m.y, Player::Computer), Player::Computer) == v
}

/// The computer's move for the given board: a legal move whose
/// resulting board, evaluated from the computer's perspective, has the
/// greatest minimax value among all legal moves; ties are broken by a
/// random draw, so the choice may be any of the optimal moves but
/// never a suboptimal or occupied one.
pub fn get_comp_move(board: Board) -> (r: Mark)
    requires
        empty_count(board@) > 0,
    ensures
        optimal_mark(board@, r, best_reply(board@, Player::Computer, 0)),
{
    proof {
        lemma_best_reply_bounds(board@, Player::Computer, 0);
    }
    let mut max_utility: isize = -2;
    let mut marks: Vec<(Mark, isize)> = Vec::new();
    let mut i: usize = 0;

    while i < 9
        invariant
            i <= 9,
            -2 <= max_utility <= 1,
            best_reply(board@, Player::Computer, 0) == ({
                let rest = best_reply(board@, Player::Computer, i as int);
                if max_utility as int > rest {
                    max_utility as int
                } else {
                    rest
                }
            }),
            forall|k: int| 0 <= k < marks@.len() ==> candidate_ok(board@, #[trigger] marks@[k]),
            forall|k: int| 0 <= k < marks@.len() ==> (#[trigger] marks@[k]).1 <= max_utility,
            max_utility > -2 ==> exists|k: int|
                0 <= k < marks@.len() && (#[trigger] marks@[k]).1 == max_utility,
        decreases 9 - i,
    {
        proof {
            lemma_index_roundtrip(i as int);
        }
        let mark = Mark::from(i);

        if board.get(mark.x, mark.y).is_empty() {
            let next = board.mark(mark.x, mark.y, Player::Computer);
            let utility = next.utility(Player::Computer);
            if utility > max_utility {
                max_utility = utility;
            }
            let ghost before = marks@;
            marks.push((mark, utility));
            proof {
                assert(marks@[before.len() as int] == (mark, utility));
                assert(forall|t: int| 0 <= t < before.len() ==> marks@[t] == before[t]);
            }
        }
        i += 1;
    }

    proof {
        lemma_moves_complete(board@, 0);
        lemma_best_reply_bounds(board@, Player::Computer, 0);
        assert(0 <= first_empty(board@, 0) < 9 && board@[first_empty(board@, 0)] is Empty);
    }

    let mut best_marks: Vec<Mark> = Vec::new();
    let mut k: usize = 0;
    while k < marks.len()
        invariant
            k <= marks@.len(),
            max_utility as int == best_reply(board@, Player::Computer, 0),
            forall|t: int| 0 <= t < marks@.len() ==> candidate_ok(board@, #[trigger] marks@[t]),
            exists|t: int| 0 <= t < marks@.len() && (#[trigger] marks@[t]).1 == max_utility,
            forall|t: int| 0 <= t < best_marks@.len() ==> optimal_mark(
                board@,
                #[trigger] best_marks@[t],
                max_utility as int,
            ),
            (exists|t: int| 0 <= t < k && (#[trigger] marks@[t]).1 == max_utility)
                ==> best_marks@.len() > 0,
        decreases marks@.len() - k,
    {
        let (m, u) = marks[k];
        if u == max_utility {
            best_marks.push(m);
        }
        k += 1;
    }

    let pick = random_below(best_marks.len());
    best_marks[pick]
}

/// Law (optimality, lower bound): the best-reply value from position
/// `i` on is at least the value of any single legal move at `j`.
pub proof fn lemma_best_reply_at_least(s: Seq<Square>, p: Player, i: int, j: int)
    requires
        s.len() == 9,
        0 <= i <= j < 9,
        s[j] is Empty,
    ensures
        best_reply(s, p, i) >= utility_spec(play_at(s, j, p), p),
    decreases j - i,
{
    if i < j {
        lemma_best_reply_at_least(s, p, i + 1, j);
    }
}

/// Law (optimality): when some legal computer move wins outright
/// (minimax value 1), the value the selector achieves is exactly 1, so
/// every move it may return forces the win; in general its achieved
/// value is the best available one, never a suboptimal one.
pub proof fn lemma_selector_optimal(s: Seq<Square>, j: int)
    requires
        s.len() == 9,
        0 <= j < 9,
        s[j] is Empty,
        utility_spec(play_at(s, j, Player::Computer), Player::Computer) == 1,
    ensures
        best_reply(s, Player::Computer, 0) == 1,
{
    lemma_best_reply_at_least(s, Player::Computer, 0, j);
    lemma_best_reply_bounds(s, Player::Computer, 0);
}

} // verus!
