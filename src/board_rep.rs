//! Board state, move legality, move application and exact undo.
use vstd::prelude::*;

verus! {

/// Number of cells on the 5x5 board.
pub const CELLS: usize = 25;

/// Height of a capped (domed) cell.
pub const DOME: u8 = 4;

/// The side to move: `W` owns worker slots 0 and 1, `U` owns slots 2 and 3.
#[derive(Clone, Copy, Debug, PartialEq, Eq, Structural)]
pub enum Turn {
    W,
    U,
}

/// A move: the acting worker slot, its destination cell and the cell it builds on.
#[derive(Clone, Copy, Debug, PartialEq, Eq, Structural)]
pub struct Move {
    pub from: usize,
    pub to: usize,
    pub build: usize,
}

/// Why a move is illegal.
#[derive(Clone, Copy, Debug, PartialEq, Eq, Structural)]
pub enum MoveError {
    InvalidFromSquare,
    InvalidToSquare,
    InvalidBuildSquare,
    OccupiedToSquare,
    OccupiedBuildSquare,
    HeightDifferenceHigh,
}

/// Block heights of the 25 cells, the cells of the four workers and the side to move.
#[derive(Clone, Copy, Debug)]
pub struct Board {
    pub blocks: [u8; 25],
    pub workers: [usize; 4],
    pub turn: Turn,
}

/// The mathematical model of a board.
pub ghost struct BoardView {
    pub blocks: Seq<u8>,
    pub workers: Seq<usize>,
    pub turn: Turn,
}

impl View for Board {
    type V = BoardView;

    open spec fn view(&self) -> BoardView {
        BoardView { blocks: self.blocks@, workers: self.workers@, turn: self.turn }
    }
}

/// The other side.
pub open spec fn other(t: Turn) -> Turn {
    match t {
        Turn::W => Turn::U,
        Turn::U => Turn::W,
    }
}

/// First worker slot of side `t`.
pub open spec fn first_slot(t: Turn) -> int {
    match t {
        Turn::W => 0,
        Turn::U => 2,
    }
}

/// Whether worker slot `i` belongs to side `t`.
pub open spec fn owns_slot(t: Turn, i: int) -> bool {
    i == first_slot(t) || i == first_slot(t) + 1
}

/// Whether two cells are distinct neighbours on the 5x5 grid (8-neighbourhood).
pub open spec fn adjacent(a: int, c: int) -> bool {
    &&& 0 <= a < 25
    &&& 0 <= c < 25
    &&& a != c
    &&& -1 <= a / 5 - c / 5 <= 1
    &&& -1 <= a % 5 - c % 5 <= 1
}

impl BoardView {
    /// Well-formed: 25 heights of at most 4, four distinct workers on the board.
    pub open spec fn wf(self) -> bool {
        &&& self.blocks.len() == 25
        &&& self.workers.len() == 4
        &&& forall|c: int| 0 <= c < 25 ==> self.blocks[c] <= 4
        &&& forall|i: int| 0 <= i < 4 ==> self.workers[i] < 25
        &&& forall|i: int, j: int| 0 <= i < 4 && 0 <= j < 4 && i != j ==> self.workers[i] != self.workers[j]
    }

    /// Some worker stands on cell `c`.
    pub open spec fn occupied(self, c: int) -> bool {
        self.workers[0] == c || self.workers[1] == c || self.workers[2] == c || self.workers[3] == c
    }

    /// No worker stands on cell `c` and it is not capped.
    pub open spec fn free(self, c: int) -> bool {
        !self.occupied(c) && self.blocks[c] < 4
    }

    /// Cell `c` can take the build of move `m`: once the acting worker has left its
    /// cell for `m.to`, no worker stands on `c` and it is not capped.
    pub open spec fn build_free(self, m: Move) -> bool {
        &&& forall|i: int| 0 <= i < 4 && i != m.from ==> #[trigger] self.workers[i] != m.build
        &&& m.build != m.to
        &&& self.blocks[m.build as int] < 4
    }

    /// The verdict on move `m`, the checks taken in order.
    pub open spec fn legality(self, m: Move) -> Result<(), MoveError> {
        if !owns_slot(self.turn, m.from as int) {
            Err(MoveError::InvalidFromSquare)
        } else if m.to >= 25 {
            Err(MoveError::InvalidToSquare)
        } else if m.build >= 25 {
            Err(MoveError::InvalidBuildSquare)
        } else if !self.free(m.to as int) {
            Err(MoveError::OccupiedToSquare)
        } else if !self.build_free(m) {
            Err(MoveError::OccupiedBuildSquare)
        } else if self.blocks[m.to as int] as int - self.blocks[self.workers[m.from as int] as int] as int > 1 {
            Err(MoveError::HeightDifferenceHigh)
        } else {
            Ok(())
        }
    }

    /// Move `m` passes every check of `legality`.
    pub open spec fn legal(self, m: Move) -> bool {
        self.legality(m) is Ok
    }

    /// The destination of `m` is next to the acting worker's cell and the build
    /// cell is next to the destination.
    pub open spec fn reachable(self, m: Move) -> bool {
        &&& adjacent(self.workers[m.from as int] as int, m.to as int)
        &&& adjacent(m.to as int, m.build as int)
    }

    /// Move `m` can be played in the game: it is legal and its cells are
    /// neighbours in turn. These are the moves that generation yields.
    pub open spec fn playable(self, m: Move) -> bool {
        self.legal(m) && self.reachable(m)
    }

    /// The board after move `m`: the worker stands on `m.to`, `m.build` is one
    /// level higher and the other side is to move.
    pub open spec fn applied(self, m: Move) -> BoardView {
        BoardView {
            blocks: self.blocks.update(m.build as int, (self.blocks[m.build as int] + 1) as u8),
            workers: self.workers.update(m.from as int, m.to),
            turn: other(self.turn),
        }
    }

    /// The board before move `m`, whose worker came from cell `origin`.
    pub open spec fn undone(self, m: Move, origin: usize) -> BoardView {
        BoardView {
            blocks: self.blocks.update(m.build as int, (self.blocks[m.build as int] - 1) as u8),
            workers: self.workers.update(m.from as int, origin),
            turn: other(self.turn),
        }
    }
}

/// First worker slot of side `t`.
pub fn first_slot_of(t: Turn) -> (r: usize)
    ensures
        r as int == first_slot(t),
{
    match t {
        Turn::W => 0,
        Turn::U => 2,
    }
}

/// Whether cells `a` and `c` are distinct neighbours.
pub fn are_adjacent(a: usize, c: usize) -> (r: bool)
    ensures
        r == adjacent(a as int, c as int),
{
    if a >= CELLS || c >= CELLS || a == c {
        return false;
    }
    let ar = a / 5;
    let ac = a % 5;
    let cr = c / 5;
    let cc = c % 5;
    ar <= cr + 1 && cr <= ar + 1 && ac <= cc + 1 && cc <= ac + 1
}

impl Board {
    /// True iff no worker stands on `square` and it is not capped.
    pub fn square_is_free(&self, square: usize) -> (r: bool)
        requires
            square < 25,
        ensures
            r == self@.free(square as int),
    {
        self.workers[0] != square && self.workers[1] != square && self.workers[2] != square
            && self.workers[3] != square && self.blocks[square] < DOME
    }

    /// Checks move `mv` against the rules, in order, and reports the first that
    /// fails: the worker slot belongs to the side to move (`InvalidFromSquare`);
    /// the destination is a cell of the board (`InvalidToSquare`); the build cell
    /// is a cell of the board (`InvalidBuildSquare`); the destination is free
    /// (`OccupiedToSquare`); the build cell is free once the worker has moved, so
    /// the cell it leaves counts as free (`OccupiedBuildSquare`); the destination
    /// is at most one level above the worker's cell, any drop being allowed
    /// (`HeightDifferenceHigh`). Heights are compared as signed numbers.
    pub fn move_is_legal(&self, mv: Move) -> (r: Result<(), MoveError>)
        requires
            self@.wf(),
        ensures
            r == self@.legality(mv),
    {
        let first = first_slot_of(self.turn);
        if mv.from != first && mv.from != first + 1 {
            return Err(MoveError::InvalidFromSquare);
        }
        let origin = self.workers[mv.from];
        if mv.to >= CELLS {
            return Err(MoveError::InvalidToSquare);
        }
        if mv.build >= CELLS {
            return Err(MoveError::InvalidBuildSquare);
        }
        if !self.square_is_free(mv.to) {
            return Err(MoveError::OccupiedToSquare);
        }
        let blocked = (mv.from != 0 && self.workers[0] == mv.build)
            || (mv.from != 1 && self.workers[1] == mv.build)
            || (mv.from != 2 && self.workers[2] == mv.build)
            || (mv.from != 3 && self.workers[3] == mv.build);
        if blocked {
            return Err(MoveError::OccupiedBuildSquare);
        }
        assert(forall|j: int| 0 <= j < 4 && j != mv.from ==> self.workers@[j] != mv.build);
        if mv.build == mv.to || self.blocks[mv.build] >= DOME {
            return Err(MoveError::OccupiedBuildSquare);
        }
        if self.blocks[mv.to] as i16 - self.blocks[origin] as i16 > 1 {
            return Err(MoveError::HeightDifferenceHigh);
        }
        Ok(())
    }

    /// Plays move `mv`: the worker moves to `mv.to`, `mv.build` rises one level
    /// and the turn passes. A legal move keeps the board well-formed. Returns the
    /// cell the worker came from, which `undo_move` needs.
    pub fn make_move(&mut self, mv: Move) -> (origin: usize)
        requires
            mv.from < 4,
            mv.to < 25,
            mv.build < 25,
            old(self)@.blocks[mv.build as int] < 255,
        ensures
            origin == old(self)@.workers[mv.from as int],
            final(self)@ == old(self)@.applied(mv),
            old(self)@.wf() && old(self)@.legal(mv) ==> final(self)@.wf(),
    {
        let origin = self.workers[mv.from];
        self.workers[mv.from] = mv.to;
        self.blocks[mv.build] = self.blocks[mv.build] + 1;
        self.turn = match self.turn {
            Turn::W => Turn::U,
            Turn::U => Turn::W,
        };
        proof {
            let b = old(self)@;
            assert(self@.blocks =~= b.applied(mv).blocks);
            assert(self@.workers =~= b.applied(mv).workers);
            if b.wf() && b.legal(mv) {
                lemma_applied_wf(b, mv);
            }
        }
        origin
    }

    /// Takes back move `mv`, whose worker came from `origin`: the worker returns,
    /// the build cell drops one level and the turn passes back.
    pub fn undo_move(&mut self, mv: Move, origin: usize)
        requires
            mv.from < 4,
            mv.build < 25,
            old(self)@.blocks[mv.build as int] > 0,
        ensures
            final(self)@ == old(self)@.undone(mv, origin),
    {
        self.workers[mv.from] = origin;
        self.blocks[mv.build] = self.blocks[mv.build] - 1;
        self.turn = match self.turn {
            Turn::W => Turn::U,
            Turn::U => Turn::W,
        };
        proof {
            let b = old(self)@;
            assert(self@.blocks =~= b.undone(mv, origin).blocks);
            assert(self@.workers =~= b.undone(mv, origin).workers);
        }
    }
}

/// A legal move keeps a board well-formed.
pub proof fn lemma_applied_wf(b: BoardView, m: Move)
    requires
        b.wf(),
        b.legal(m),
    ensures
        b.applied(m).wf(),
{
    let a = b.applied(m);
    assert forall|i: int, j: int| 0 <= i < 4 && 0 <= j < 4 && i != j implies a.workers[i] != a.workers[j] by {
        if i == m.from {
            assert(!b.occupied(m.to as int));
            assert(b.workers[j] != m.to);
        } else if j == m.from {
            assert(!b.occupied(m.to as int));
            assert(b.workers[i] != m.to);
        }
    }
}

/// Playing a legal move and then taking it back restores the board exactly:
/// the same heights, the same worker cells and the same side to move.
pub proof fn lemma_apply_undo(b: BoardView, m: Move)
    requires
        b.wf(),
        b.legal(m),
    ensures
        b.applied(m).undone(m, b.workers[m.from as int]) == b,
{
    let r = b.applied(m).undone(m, b.workers[m.from as int]);
    assert(r.blocks =~= b.blocks);
    assert(r.workers =~= b.workers);
}

/// Whether move `m` comes before slot `f`, destination `t`, build `u` in the order
/// in which moves are generated.
pub open spec fn before(m: Move, f: int, t: int, u: int) -> bool {
    m.from < f || (m.from == f && (m.to < t || (m.to == t && m.build < u)))
}

/// Move `a` comes before move `b` in the order in which moves are generated.
pub open spec fn precedes(a: Move, b: Move) -> bool {
    before(a, b.from as int, b.to as int, b.build as int)
}

proof fn lemma_push_contains(s: Seq<Move>, v: Move)
    ensures
        s.push(v).contains(v),
        forall|m: Move| s.contains(m) ==> s.push(v).contains(m),
{
    assert(s.push(v)[s.len() as int] == v);
    assert forall|m: Move| s.contains(m) implies s.push(v).contains(m) by {
        let k = choose|k: int| 0 <= k < s.len() && s[k] == m;
        assert(s.push(v)[k] == m);
    }
}

impl Board {
    /// Every playable move of the side to move: each worker to each free
    /// neighbour it can climb to, with each neighbouring build cell that is free
    /// once it stands there. The moves come in increasing order of slot, then
    /// destination, then build cell. An empty result means the side to move has
    /// lost.
    pub fn generate_moves(&self) -> (r: Vec<Move>)
        requires
            self@.wf(),
        ensures
            forall|i: int| 0 <= i < r.len() ==> self@.playable(#[trigger] r@[i]),
            forall|m: Move| self@.playable(m) ==> r@.contains(m),
            forall|i: int, j: int| 0 <= i < j < r.len() ==> precedes(#[trigger] r@[i], #[trigger] r@[j]),
    {
        let first = first_slot_of(self.turn);
        let mut moves: Vec<Move> = Vec::new();
        let mut from = first;
        while from < first + 2
            invariant
                self@.wf(),
                first as int == first_slot(self.turn),
                first <= from <= first + 2,
                forall|i: int| 0 <= i < moves.len() ==> self@.playable(#[trigger] moves@[i]),
                forall|i: int, j: int| 0 <= i < j < moves.len() ==> precedes(#[trigger] moves@[i], #[trigger] moves@[j]),
                forall|i: int| 0 <= i < moves.len() ==> before(#[trigger] moves@[i], from as int, 0, 0),
                forall|m: Move| self@.playable(m) && before(m, from as int, 0, 0) ==> moves@.contains(m),
            decreases first + 2 - from,
        {
            let origin = self.workers[from];
            let mut to: usize = 0;
            while to < CELLS
                invariant
                    self@.wf(),
                    first as int == first_slot(self.turn),
                    first <= from < first + 2,
                    origin == self@.workers[from as int],
                    0 <= to <= 25,
                    forall|i: int| 0 <= i < moves.len() ==> self@.playable(#[trigger] moves@[i]),
                forall|i: int, j: int| 0 <= i < j < moves.len() ==> precedes(#[trigger] moves@[i], #[trigger] moves@[j]),
                forall|i: int| 0 <= i < moves.len() ==> before(#[trigger] moves@[i], from as int, to as int, 0),
                    forall|m: Move|
                        self@.playable(m) && before(m, from as int, to as int, 0) ==> moves@.contains(m),
                decreases 25 - to,
            {
                if are_adjacent(origin, to) && self.square_is_free(to) && self.blocks[to] as i16
                    - self.blocks[origin] as i16 <= 1 {
                    let mut build: usize = 0;
                    while build < CELLS
                        invariant
                            self@.wf(),
                            first as int == first_slot(self.turn),
                            first <= from < first + 2,
                            origin == self@.workers[from as int],
                            0 <= to < 25,
                            0 <= build <= 25,
                            adjacent(origin as int, to as int),
                            forall|i: int| 0 <= i < moves.len() ==> self@.playable(#[trigger] moves@[i]),
                forall|i: int, j: int| 0 <= i < j < moves.len() ==> precedes(#[trigger] moves@[i], #[trigger] moves@[j]),
                forall|i: int| 0 <= i < moves.len() ==> before(#[trigger] moves@[i], from as int, to as int, build as int),
                            forall|m: Move|
                                self@.playable(m) && before(m, from as int, to as int, build as int)
                                    ==> moves@.contains(m),
                        decreases 25 - build,
                    {
                        let mv = Move { from, to, build };
                        let near = are_adjacent(to, build);
                        match self.move_is_legal(mv) {
                            Ok(()) if near => {
                                proof {
                                    lemma_push_contains(moves@, mv);
                                }
                                moves.push(mv);
                            },
                            _ => {},
                        }
                        build = build + 1;
                    }
                }
                to = to + 1;
            }
            from = from + 1;
        }
        moves
    }
}

} // verus!
