//! Static evaluation of a board from the side to move's point of view.
use vstd::prelude::*;
use crate::board_rep::{Board, BoardView, Turn, first_slot, first_slot_of, other};

verus! {

/// The score of a won position; every score lies in `[-WIN_SCORE, WIN_SCORE]`.
pub const WIN_SCORE: i64 = 46;

/// Weight of one level of height under a worker.
pub const HEIGHT_WEIGHT: i64 = 5;

/// Height of the cell under worker slot `i`.
pub open spec fn height_under(b: BoardView, i: int) -> int {
    b.blocks[b.workers[i] as int] as int
}

/// Side `t` has a worker standing on level 3.
pub open spec fn on_top(b: BoardView, t: Turn) -> bool {
    height_under(b, first_slot(t)) == 3 || height_under(b, first_slot(t) + 1) == 3
}

/// Summed height under the two workers of side `t`.
pub open spec fn height_sum(b: BoardView, t: Turn) -> int {
    height_under(b, first_slot(t)) + height_under(b, first_slot(t) + 1)
}

/// The game is over: a worker of either side stands on level 3.
pub open spec fn finished(b: BoardView) -> bool {
    on_top(b, b.turn) || on_top(b, other(b.turn))
}

/// The score of `b` for the side to move: a win or a loss when exactly one side
/// stands on level 3, otherwise the height advantage of its workers.
pub open spec fn score(b: BoardView) -> int {
    let mine = on_top(b, b.turn);
    let theirs = on_top(b, other(b.turn));
    if mine && !theirs {
        WIN_SCORE as int
    } else if theirs && !mine {
        -WIN_SCORE
    } else {
        HEIGHT_WEIGHT * (height_sum(b, b.turn) - height_sum(b, other(b.turn)))
    }
}

/// The same position with the other side to move.
pub open spec fn flipped(b: BoardView) -> BoardView {
    BoardView { turn: other(b.turn), ..b }
}

/// Evaluating a position for one side gives the negation of evaluating the same
/// position for the other side.
pub proof fn lemma_score_antisymmetric(b: BoardView)
    ensures
        score(b) == -score(flipped(b)),
{
    assert(other(other(b.turn)) == b.turn);
}

/// Every score of a well-formed board lies in `[-WIN_SCORE, WIN_SCORE]`.
pub proof fn lemma_score_bounded(b: BoardView)
    requires
        b.wf(),
    ensures
        -WIN_SCORE <= score(b) <= WIN_SCORE,
{
    let f = first_slot(b.turn);
    let g = first_slot(other(b.turn));
    assert(0 <= height_under(b, f) <= 4);
    assert(0 <= height_under(b, f + 1) <= 4);
    assert(0 <= height_under(b, g) <= 4);
    assert(0 <= height_under(b, g + 1) <= 4);
}

/// Height under worker slot `i`.
fn height_at(board: &Board, i: usize) -> (r: i64)
    requires
        board@.wf(),
        i < 4,
    ensures
        r == height_under(board@, i as int),
{
    board.blocks[board.workers[i]] as i64
}

/// Whether a worker of either side stands on level 3.
pub fn is_finished(board: &Board) -> (r: bool)
    requires
        board@.wf(),
    ensures
        r == finished(board@),
{
    height_at(board, 0) == 3 || height_at(board, 1) == 3 || height_at(board, 2) == 3
        || height_at(board, 3) == 3
}

/// The score of `board` for the side to move.
pub fn evaluate(board: &Board) -> (r: i64)
    requires
        board@.wf(),
    ensures
        r == score(board@),
        -WIN_SCORE <= r <= WIN_SCORE,
{
    proof {
        lemma_score_bounded(board@);
    }
    let f = first_slot_of(board.turn);
    let g = if f == 0 {
        2
    } else {
        0
    };
    let (a0, a1) = (height_at(board, f), height_at(board, f + 1));
    let (b0, b1) = (height_at(board, g), height_at(board, g + 1));
    let mine = a0 == 3 || a1 == 3;
    let theirs = b0 == 3 || b1 == 3;
    if mine && !theirs {
        WIN_SCORE
    } else if theirs && !mine {
        -WIN_SCORE
    } else {
        HEIGHT_WEIGHT * ((a0 + a1) - (b0 + b1))
    }
}

} // verus!
