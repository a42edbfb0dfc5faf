//! The engine's entry point: from a board and a clock to a chosen move.
use vstd::prelude::*;
use crate::board_rep::{Board, BoardView, Move, precedes};
use crate::eval::WIN_SCORE;
use crate::search::{MAX_DEPTH, Choice, child_value, deepen};
use crate::time_management::{Deadline, get_time};

verus! {

/// A move as reported to the caller: no build cell when the move climbs to level 3
/// and so wins at once.
#[derive(Clone, Copy, Debug, PartialEq, Eq, Structural)]
pub struct ReportedMove {
    pub from: usize,
    pub to: usize,
    pub build: Option<usize>,
}

/// The engine's answer: the chosen move, its score for the side to move, the line
/// of best play when known, and the depth of the search that chose it. No move
/// and no score when the side to move has no playable move.
#[derive(Debug)]
pub struct SearchResult {
    pub mv: Option<ReportedMove>,
    pub eval: Option<i64>,
    pub pv: Option<Vec<Move>>,
    pub depth: usize,
}

/// A request for a move: the position and the time left on the mover's clock.
pub struct Request {
    pub board: Board,
    pub time_left: core::time::Duration,
}

/// What the engine says of itself.
pub struct EngineInfo {
    pub name: String,
    pub eval_range: (i64, i64),
}

/// Move `m` climbs onto level 3 and wins the game.
pub open spec fn wins_now(b: BoardView, m: Move) -> bool {
    b.blocks[m.to as int] == 3
}

/// Move `m` of board `b` as the caller sees it.
pub open spec fn reported(b: BoardView, m: Move) -> ReportedMove {
    ReportedMove {
        from: m.from,
        to: m.to,
        build: if wins_now(b, m) {
            None
        } else {
            Some(m.build)
        },
    }
}

/// `r` is a correct answer for board `b`: nothing when no move is playable;
/// the first winning climb in generation order when one exists; otherwise the
/// first playable move in generation order whose score in a search `r.depth`
/// plies deep is the best of all playable moves, with that score.
pub open spec fn is_search_result(b: BoardView, r: SearchResult) -> bool {
    if !(exists|m: Move| b.playable(m)) {
        r.mv is None && r.eval is None && r.pv is None && r.depth == 0
    } else if exists|m: Move| b.playable(m) && wins_now(b, m) {
        &&& r.eval == Some(WIN_SCORE)
        &&& r.depth == 1
        &&& exists|m: Move|
            {
                &&& b.playable(m)
                &&& wins_now(b, m)
                &&& r.mv == Some(reported(b, m))
                &&& forall|m2: Move|
                    b.playable(m2) && precedes(m2, m) ==> !wins_now(b, m2)
            }
    } else {
        &&& 1 <= r.depth <= MAX_DEPTH
        &&& exists|m: Move|
            {
                &&& b.playable(m)
                &&& r.mv == Some(reported(b, m))
                &&& r.eval is Some
                &&& r.eval->0 == child_value(b, m, r.depth as nat)
                &&& forall|m2: Move|
                    b.playable(m2) ==> child_value(b, m2, r.depth as nat) <= child_value(
                        b,
                        m,
                        r.depth as nat,
                    )
                &&& forall|m2: Move|
                    b.playable(m2) && precedes(m2, m) ==> child_value(b, m2, r.depth as nat)
                        < child_value(b, m, r.depth as nat)
            }
    }
}

/// The move as reported to the caller: its build cell is dropped when the
/// destination stands at level 3.
pub fn convert_move(board: Board, internal_move: Move) -> (r: ReportedMove)
    requires
        internal_move.to < 25,
    ensures
        r == reported(board@, internal_move),
{
    let build = if board.blocks[internal_move.to] == 3 {
        None
    } else {
        Some(internal_move.build)
    };
    ReportedMove { from: internal_move.from, to: internal_move.to, build }
}

/// Chooses a move for the side to move on `board` within `budget_ms` milliseconds:
/// the first winning climb when there is one, else the first best move of the deepest
/// completed pass of iterative deepening. The one-ply pass always completes.
pub fn search(board: &Board, budget_ms: u128) -> (r: SearchResult)
    requires
        board@.wf(),
    ensures
        is_search_result(board@, r),
{
    let deadline = Deadline::new(budget_ms);
    let ghost b = board@;
    let moves = board.generate_moves();
    if moves.len() == 0 {
        proof {
            assert forall|m: Move| !b.playable(m) by {
                if b.playable(m) {
                    assert(moves@.contains(m));
                }
            }
        }
        return SearchResult { mv: None, eval: None, pv: None, depth: 0 };
    }
    assert(b.playable(moves@[0]));
    let mut i: usize = 0;
    while i < moves.len()
        invariant
            0 <= i <= moves.len(),
            board@ == b,
            b.wf(),
            forall|j: int| 0 <= j < moves.len() ==> b.playable(#[trigger] moves@[j]),
            forall|j: int| 0 <= j < i ==> !wins_now(b, #[trigger] moves@[j]),
            forall|m: Move| b.playable(m) ==> moves@.contains(m),
            forall|j: int, k: int|
                0 <= j < k < moves.len() ==> precedes(#[trigger] moves@[j], #[trigger] moves@[k]),
        decreases moves.len() - i,
    {
        if board.blocks[moves[i].to] == 3 {
            let mv = moves[i];
            proof {
                assert forall|m2: Move| b.playable(m2) && precedes(m2, mv) implies !wins_now(b, m2) by {
                    assert(moves@.contains(m2));
                    let j = choose|j: int| 0 <= j < moves.len() && moves@[j] == m2;
                    if j > i {
                        assert(precedes(moves@[i as int], moves@[j]));
                    }
                }
            }
            return SearchResult {
                mv: Some(convert_move(*board, mv)),
                eval: Some(WIN_SCORE),
                pv: None,
                depth: 1,
            };
        }
        i = i + 1;
    }
    proof {
        assert forall|m: Move| b.playable(m) implies !wins_now(b, m) by {
            assert(moves@.contains(m));
        }
    }
    let mut work = *board;
    let c: Choice = deepen(&mut work, &moves, &deadline);
    let mv = moves[c.index];
    proof {
        let d = c.depth as nat;
        assert forall|m2: Move| b.playable(m2) implies child_value(b, m2, d) <= child_value(b, mv, d) by {
            assert(moves@.contains(m2));
            let j = choose|j: int| 0 <= j < moves.len() && moves@[j] == m2;
            assert(child_value(b, moves@[j], d) <= c.score);
        }
        assert forall|m2: Move| b.playable(m2) && precedes(m2, mv) implies child_value(b, m2, d)
            < child_value(b, mv, d) by {
            assert(moves@.contains(m2));
            let j = choose|j: int| 0 <= j < moves.len() && moves@[j] == m2;
            if j > c.index {
                assert(precedes(moves@[c.index as int], moves@[j]));
            }
        }
    }
    SearchResult { mv: Some(convert_move(*board, mv)), eval: Some(c.score), pv: None, depth: c.depth }
}

/// The engine.
pub struct Flop {}

impl Flop {
    /// A new engine.
    pub fn new() -> (r: Flop) {
        Flop {  }
    }

    /// The engine's name and the range of its scores.
    pub fn get_info(&self) -> (r: EngineInfo)
        ensures
            r.name@ == "flop"@,
            r.eval_range.0 == -WIN_SCORE,
            r.eval_range.1 == WIN_SCORE,
    {
        EngineInfo { name: "flop".to_owned(), eval_range: (-WIN_SCORE, WIN_SCORE) }
    }

    /// Chooses a move for `request.board` within the thinking time that the clock
    /// in `request.time_left` allows.
    pub fn get_move(&self, request: Request) -> (r: SearchResult)
        requires
            request.board@.wf(),
        ensures
            is_search_result(request.board@, r),
    {
        let left = request.time_left.as_millis();
        let thinking_time = get_time(left);
        search(&request.board, thinking_time)
    }
}

} // verus!
