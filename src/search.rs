//! Depth-limited negamax over the game tree, with exact undo and a deadline.
use vstd::prelude::*;
use crate::board_rep::{Board, BoardView, Move, before};
use crate::eval::{WIN_SCORE, evaluate, finished, is_finished, score};
use crate::time_management::Deadline;

verus! {

/// Deepest pass that iterative deepening attempts. The heights on the board
/// allow no game of more plies than this, so no deeper pass can change a result.
pub const MAX_DEPTH: usize = 100;

/// The negamax value of `b` searched `d` plies deep, for the side to move: the
/// static score at depth 0 or once the game is over, otherwise the best score
/// that a playable move leads to, and a loss when there is none.
pub open spec fn value(b: BoardView, d: nat) -> int
    decreases d, 5int, 0int, 0int,
{
    if d == 0 || finished(b) {
        score(b)
    } else {
        best_from(b, d, 0, 0, 0)
    }
}

/// The best of `-value(b.applied(m), d - 1)` over the playable moves `m` that do not
/// come before slot `f`, destination `t` and build `u`; a loss when there is none.
pub open spec fn best_from(b: BoardView, d: nat, f: int, t: int, u: int) -> int
    decreases d, 4 - f, 25 - t, 25 - u,
{
    if d == 0 || f < 0 || f >= 4 || t < 0 || t >= 25 || u < 0 || u >= 25 {
        -WIN_SCORE
    } else {
        let m = Move { from: f as usize, to: t as usize, build: u as usize };
        let rest = if u + 1 < 25 {
            best_from(b, d, f, t, u + 1)
        } else if t + 1 < 25 {
            best_from(b, d, f, t + 1, 0)
        } else {
            best_from(b, d, f + 1, 0, 0)
        };
        if b.playable(m) {
            let c = -value(b.applied(m), (d - 1) as nat);
            if c > rest {
                c
            } else {
                rest
            }
        } else {
            rest
        }
    }
}

/// The score of playable move `m` on `b` in a search `d` plies deep.
pub open spec fn child_value(b: BoardView, m: Move, d: nat) -> int {
    -value(b.applied(m), (d - 1) as nat)
}

/// `best_from` is the largest child score among the moves it ranges over, or a
/// loss when none is larger.
proof fn lemma_best_from(b: BoardView, d: nat, f: int, t: int, u: int)
    requires
        d > 0,
        0 <= f <= 4,
        0 <= t < 25,
        0 <= u < 25,
    ensures
        best_from(b, d, f, t, u) >= -WIN_SCORE,
        forall|m: Move|
            b.playable(m) && !before(m, f, t, u) ==> child_value(b, m, d) <= best_from(b, d, f, t, u),
        best_from(b, d, f, t, u) == -WIN_SCORE || exists|m: Move|
            b.playable(m) && !before(m, f, t, u) && child_value(b, m, d) == best_from(b, d, f, t, u),
    decreases 4 - f, 25 - t, 25 - u,
{
    if f < 4 {
        let m0 = Move { from: f as usize, to: t as usize, build: u as usize };
        let (f2, t2, u2) = if u + 1 < 25 {
            (f, t, u + 1)
        } else if t + 1 < 25 {
            (f, t + 1, 0)
        } else {
            (f + 1, 0, 0)
        };
        lemma_best_from(b, d, f2, t2, u2);
        let rest = best_from(b, d, f2, t2, u2);
        assert(best_from(b, d, f, t, u) == if b.playable(m0) && child_value(b, m0, d) > rest {
            child_value(b, m0, d)
        } else {
            rest
        });
        assert forall|m: Move| b.playable(m) && !before(m, f, t, u) && m != m0 implies !before(
            m,
            f2,
            t2,
            u2,
        ) by {}
        if b.playable(m0) && child_value(b, m0, d) > rest {
            assert(b.playable(m0) && !before(m0, f, t, u));
        } else if rest != -WIN_SCORE {
            let w = choose|m: Move| b.playable(m) && !before(m, f2, t2, u2) && child_value(b, m, d) == rest;
            assert(b.playable(w) && !before(w, f, t, u));
        }
    }
}

/// Searched at least one ply deep, an unfinished position is worth the best
/// score among its playable moves: no such move scores more, and the value is
/// the score of one of them, or a loss when none does better.
pub proof fn lemma_value_is_best(b: BoardView, d: nat)
    requires
        d > 0,
        !finished(b),
    ensures
        value(b, d) >= -WIN_SCORE,
        forall|m: Move| b.playable(m) ==> child_value(b, m, d) <= value(b, d),
        value(b, d) == -WIN_SCORE || exists|m: Move| b.playable(m) && child_value(b, m, d) == value(b, d),
{
    lemma_best_from(b, d, 0, 0, 0);
    if value(b, d) != -WIN_SCORE {
        let m = choose|m: Move| b.playable(m) && !before(m, 0, 0, 0) && child_value(b, m, d) == value(b, d);
        assert(b.playable(m) && child_value(b, m, d) == value(b, d));
    }
}

/// The negamax value of `board` searched `depth` plies deep, or `None` once the
/// deadline has passed. At depth 0 and on a finished position it never polls
/// the clock and always gives the value. The board is
/// left as it was.
pub fn negamax(board: &mut Board, depth: usize, deadline: &Deadline) -> (r: Option<i64>)
    requires
        old(board)@.wf(),
    ensures
        final(board)@ == old(board)@,
        depth == 0 || finished(old(board)@) ==> r is Some,
        r matches Some(v) ==> v == value(old(board)@, depth as nat) && -WIN_SCORE <= v <= WIN_SCORE,
    decreases depth,
{
    let ghost b0 = board@;
    if depth == 0 || is_finished(board) {
        return Some(evaluate(board));
    }
    if deadline.expired() {
        return None;
    }
    let moves = board.generate_moves();
    let mut best: i64 = -WIN_SCORE;
    let mut i: usize = 0;
    let mut interrupted = false;
    while i < moves.len() && !interrupted
        invariant
            board@ == b0,
            b0.wf(),
            depth > 0,
            0 <= i <= moves.len(),
            forall|j: int| 0 <= j < moves.len() ==> b0.playable(#[trigger] moves@[j]),
            -WIN_SCORE <= best <= WIN_SCORE,
            forall|j: int| 0 <= j < i ==> child_value(b0, #[trigger] moves@[j], depth as nat) <= best,
            best == -WIN_SCORE || exists|j: int|
                0 <= j < i && child_value(b0, #[trigger] moves@[j], depth as nat) == best,
        decreases moves.len() - i + if interrupted {
            0int
        } else {
            1int
        },
    {
        let mv = moves[i];
        let origin = board.make_move(mv);
        let sub = negamax(board, depth - 1, deadline);
        board.undo_move(mv, origin);
        proof {
            crate::board_rep::lemma_apply_undo(b0, mv);
        }
        match sub {
            None => {
                interrupted = true;
            },
            Some(v) => {
                if -v > best {
                    best = -v;
                }
                i = i + 1;
            },
        }
    }
    if interrupted {
        return None;
    }
    proof {
        let d = depth as nat;
        lemma_value_is_best(b0, d);
        let v = value(b0, d);
        if best != -WIN_SCORE {
            let j = choose|j: int| 0 <= j < moves.len() && child_value(b0, moves@[j], d) == best;
            assert(b0.playable(moves@[j]));
        }
        if v != -WIN_SCORE {
            let m = choose|m: Move| b0.playable(m) && child_value(b0, m, d) == v;
            assert(moves@.contains(m));
            let j = choose|j: int| 0 <= j < moves.len() && moves@[j] == m;
            assert(child_value(b0, moves@[j], d) <= best);
        }
    }
    Some(best)
}

/// Scores every root move in a search `depth` plies deep, in the order given, or
/// `None` once the deadline has passed. A pass one ply deep never polls the clock
/// and always completes; the clock is not polled after the last move is scored.
/// The board is left as it was.
pub fn root_pass(board: &mut Board, moves: &Vec<Move>, depth: usize, deadline: &Deadline) -> (r:
    Option<Vec<i64>>)
    requires
        old(board)@.wf(),
        depth >= 1,
        forall|j: int| 0 <= j < moves.len() ==> old(board)@.playable(#[trigger] moves@[j]),
    ensures
        final(board)@ == old(board)@,
        depth == 1 ==> r is Some,
        r matches Some(s) ==> s.len() == moves.len() && forall|j: int|
            0 <= j < s.len() ==> #[trigger] s@[j] == child_value(old(board)@, moves@[j], depth as nat)
                && -WIN_SCORE <= s@[j] <= WIN_SCORE,
{
    let ghost b0 = board@;
    let mut scores: Vec<i64> = Vec::new();
    let mut interrupted = false;
    while scores.len() < moves.len() && !interrupted
        invariant
            board@ == b0,
            b0.wf(),
            depth >= 1,
            depth == 1 ==> !interrupted,
            scores.len() <= moves.len(),
            forall|j: int| 0 <= j < moves.len() ==> b0.playable(#[trigger] moves@[j]),
            forall|j: int|
                0 <= j < scores.len() ==> #[trigger] scores@[j] == child_value(b0, moves@[j], depth as nat)
                    && -WIN_SCORE <= scores@[j] <= WIN_SCORE,
        decreases moves.len() - scores.len() + if interrupted {
            0int
        } else {
            1int
        },
    {
        let mv = moves[scores.len()];
        let origin = board.make_move(mv);
        let sub = negamax(board, depth - 1, deadline);
        board.undo_move(mv, origin);
        proof {
            crate::board_rep::lemma_apply_undo(b0, mv);
        }
        match sub {
            None => {
                interrupted = true;
            },
            Some(v) => {
                scores.push(-v);
                if depth > 1 && scores.len() < moves.len() && deadline.expired() {
                    interrupted = true;
                }
            },
        }
    }
    if interrupted {
        None
    } else {
        Some(scores)
    }
}

/// Index of the first largest score: ties go to the earliest.
pub fn first_best(scores: &Vec<i64>) -> (r: usize)
    requires
        scores.len() > 0,
    ensures
        r < scores.len(),
        forall|j: int| 0 <= j < scores.len() ==> scores@[j] <= scores@[r as int],
        forall|j: int| 0 <= j < r ==> scores@[j] < scores@[r as int],
{
    let mut best: usize = 0;
    let mut i: usize = 1;
    while i < scores.len()
        invariant
            best < i <= scores.len(),
            forall|j: int| 0 <= j < i ==> scores@[j] <= scores@[best as int],
            forall|j: int| 0 <= j < best ==> scores@[j] < scores@[best as int],
        decreases scores.len() - i,
    {
        if scores[i] > scores[best] {
            best = i;
        }
        i = i + 1;
    }
    best
}

/// The outcome of a completed root pass: the chosen move's index among the root
/// moves, its score and the depth of the pass.
#[derive(Clone, Copy, Debug, PartialEq, Eq, Structural)]
pub struct Choice {
    pub index: usize,
    pub score: i64,
    pub depth: usize,
}

/// `c` is the first best of the root moves `moves` of `b` in a completed pass.
pub open spec fn is_best_choice(b: BoardView, moves: Seq<Move>, c: Choice) -> bool {
    &&& 1 <= c.depth <= MAX_DEPTH
    &&& c.index < moves.len()
    &&& c.score == child_value(b, moves[c.index as int], c.depth as nat)
    &&& forall|j: int| 0 <= j < moves.len() ==> child_value(b, #[trigger] moves[j], c.depth as nat) <= c.score
    &&& forall|j: int| 0 <= j < c.index ==> child_value(b, #[trigger] moves[j], c.depth as nat) < c.score
}

/// The first largest score of a completed pass is the best choice of that pass.
proof fn lemma_choice_of_pass(b: BoardView, moves: Seq<Move>, s: Seq<i64>, c: Choice)
    requires
        1 <= c.depth <= MAX_DEPTH,
        s.len() == moves.len(),
        c.index < s.len(),
        c.score == s[c.index as int],
        forall|j: int| 0 <= j < s.len() ==> #[trigger] s[j] == child_value(b, moves[j], c.depth as nat),
        forall|j: int| 0 <= j < s.len() ==> #[trigger] s[j] <= c.score,
        forall|j: int| 0 <= j < c.index ==> #[trigger] s[j] < c.score,
    ensures
        is_best_choice(b, moves, c),
{
    assert forall|j: int| 0 <= j < moves.len() implies child_value(b, #[trigger] moves[j], c.depth as nat)
        <= c.score by {
        assert(s[j] == child_value(b, moves[j], c.depth as nat));
    }
    assert forall|j: int| 0 <= j < c.index implies child_value(b, #[trigger] moves[j], c.depth as nat)
        < c.score by {
        assert(s[j] == child_value(b, moves[j], c.depth as nat));
    }
    assert(s[c.index as int] == child_value(b, moves[c.index as int], c.depth as nat));
}

/// Iterative deepening: runs passes one ply deeper each time, from one ply up,
/// until the deadline passes or `MAX_DEPTH` is done, and keeps the result of the
/// deepest pass that completed. A pass cut short is discarded. The first pass
/// always completes, whatever the deadline.
pub fn deepen(board: &mut Board, moves: &Vec<Move>, deadline: &Deadline) -> (r: Choice)
    requires
        old(board)@.wf(),
        moves.len() > 0,
        forall|j: int| 0 <= j < moves.len() ==> old(board)@.playable(#[trigger] moves@[j]),
    ensures
        final(board)@ == old(board)@,
        is_best_choice(old(board)@, moves@, r),
{
    let ghost b0 = board@;
    let first = root_pass(board, moves, 1, deadline);
    let scores = match first {
        Some(s) => s,
        None => {
            return Choice { index: 0, score: 0, depth: 0 };
        },
    };
    let index = first_best(&scores);
    let mut choice = Choice { index, score: scores[index], depth: 1 };
    proof {
        lemma_choice_of_pass(b0, moves@, scores@, choice);
    }
    let mut depth: usize = 2;
    let mut running = true;
    while running && depth <= MAX_DEPTH
        invariant
            board@ == b0,
            b0.wf(),
            moves.len() > 0,
            forall|j: int| 0 <= j < moves.len() ==> b0.playable(#[trigger] moves@[j]),
            2 <= depth <= MAX_DEPTH + 1,
            choice.depth < depth,
            is_best_choice(b0, moves@, choice),
        decreases MAX_DEPTH + 1 - depth + if running {
            1int
        } else {
            0int
        },
    {
        if deadline.expired() {
            running = false;
        } else {
            match root_pass(board, moves, depth, deadline) {
                None => {
                    running = false;
                },
                Some(s) => {
                    let index = first_best(&s);
                    choice = Choice { index, score: s[index], depth };
                    proof {
                        lemma_choice_of_pass(b0, moves@, s@, choice);
                    }
                    depth = depth + 1;
                },
            }
        }
    }
    choice
}

} // verus!
