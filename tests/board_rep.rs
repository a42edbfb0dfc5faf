use flop::board_rep::{are_adjacent, Board, Move, MoveError, Turn};

fn sample() -> Board {
    Board {
        blocks: [0, 0, 0, 0, 0,
                 0, 1, 0, 0, 0,
                 0, 4, 0, 2, 0,
                 0, 0, 0, 0, 0,
                 0, 0, 0, 0, 0],
        workers: [13, 18, 7, 12],
        turn: Turn::W,
    }
}

#[test]
fn invalid_from_square() {
    let board = sample();
    let invalid_move = Move { from: 25, to: 19, build: 14 };
    assert_eq!(board.move_is_legal(invalid_move), Err(MoveError::InvalidFromSquare));
}

#[test]
fn from_slot_of_other_side_is_rejected() {
    let board = sample();
    assert_eq!(board.move_is_legal(Move { from: 2, to: 8, build: 9 }), Err(MoveError::InvalidFromSquare));
}

#[test]
fn square_is_free_cases() {
    let board = sample();
    for &w in board.workers.iter() {
        assert!(!board.square_is_free(w));
    }
    assert!(!board.square_is_free(11));
    assert!(board.square_is_free(6));
    assert!(board.square_is_free(0));
    assert!(board.square_is_free(24));
}

#[test]
fn each_error_variant() {
    let board = sample();
    // worker 0 stands on 13 (height 2), worker 1 on 18 (height 0)
    assert_eq!(board.move_is_legal(Move { from: 0, to: 25, build: 14 }), Err(MoveError::InvalidToSquare));
    assert_eq!(board.move_is_legal(Move { from: 1, to: 30, build: 31 }), Err(MoveError::InvalidToSquare));
    assert_eq!(board.move_is_legal(Move { from: 0, to: 14, build: 25 }), Err(MoveError::InvalidBuildSquare));
    assert_eq!(board.move_is_legal(Move { from: 0, to: 12, build: 99 }), Err(MoveError::InvalidBuildSquare));
    assert_eq!(board.move_is_legal(Move { from: 0, to: 12, build: 17 }), Err(MoveError::OccupiedToSquare));
    assert_eq!(board.move_is_legal(Move { from: 1, to: 17, build: 18 }), Ok(()));
    assert_eq!(board.move_is_legal(Move { from: 0, to: 8, build: 7 }), Err(MoveError::OccupiedBuildSquare));
    assert_eq!(board.move_is_legal(Move { from: 0, to: 8, build: 8 }), Err(MoveError::OccupiedBuildSquare));
    let mut capped = sample();
    capped.blocks[12] = 4;
    capped.workers = [13, 18, 7, 20];
    assert_eq!(capped.move_is_legal(Move { from: 0, to: 8, build: 12 }), Err(MoveError::OccupiedBuildSquare));
    assert_eq!(capped.move_is_legal(Move { from: 1, to: 12, build: 17 }), Err(MoveError::OccupiedToSquare));
    let mut high = sample();
    high.blocks[17] = 2;
    assert_eq!(high.move_is_legal(Move { from: 1, to: 17, build: 16 }), Err(MoveError::HeightDifferenceHigh));
}

#[test]
fn legality_does_not_ask_for_neighbours() {
    let board = sample();
    assert_eq!(board.move_is_legal(Move { from: 0, to: 3, build: 4 }), Ok(()));
    assert_eq!(board.move_is_legal(Move { from: 0, to: 14, build: 2 }), Ok(()));
    assert_eq!(board.move_is_legal(Move { from: 0, to: 0, build: 13 }), Ok(()));
    assert_eq!(board.move_is_legal(Move { from: 0, to: 4, build: 7 }), Err(MoveError::OccupiedBuildSquare));
    let moves = board.generate_moves();
    assert!(!moves.contains(&Move { from: 0, to: 3, build: 4 }));
}

#[test]
fn moving_down_is_legal() {
    let board = sample();
    // from height 2 down to height 0
    assert_eq!(board.move_is_legal(Move { from: 0, to: 14, build: 9 }), Ok(()));
    // building on the cell just left
    assert_eq!(board.move_is_legal(Move { from: 0, to: 14, build: 13 }), Ok(()));
}

#[test]
fn make_then_undo_restores_board() {
    let mut board = sample();
    let mv = Move { from: 0, to: 14, build: 13 };
    let origin = board.make_move(mv);
    assert_eq!(origin, 13);
    assert_eq!(board.workers, [14, 18, 7, 12]);
    assert_eq!(board.blocks[13], 3);
    assert_eq!(board.turn, Turn::U);
    board.undo_move(mv, origin);
    let orig = sample();
    assert_eq!(board.blocks, orig.blocks);
    assert_eq!(board.workers, orig.workers);
    assert_eq!(board.turn, orig.turn);
}

#[test]
fn generated_moves_are_legal_and_complete() {
    let board = sample();
    let moves = board.generate_moves();
    assert!(!moves.is_empty());
    for m in moves.iter() {
        assert_eq!(board.move_is_legal(*m), Ok(()));
        assert!(m.from == 0 || m.from == 1);
        assert!(are_adjacent(board.workers[m.from], m.to));
        assert!(are_adjacent(m.to, m.build));
    }
    for w in moves.windows(2) {
        assert!((w[0].from, w[0].to, w[0].build) < (w[1].from, w[1].to, w[1].build));
    }
    let hand = [
        Move { from: 0, to: 14, build: 13 },
        Move { from: 0, to: 14, build: 9 },
        Move { from: 0, to: 8, build: 9 },
        Move { from: 1, to: 17, build: 18 },
        Move { from: 1, to: 23, build: 24 },
        Move { from: 1, to: 19, build: 14 },
    ];
    for h in hand.iter() {
        assert_eq!(board.move_is_legal(*h), Ok(()));
        assert!(moves.contains(h));
    }
    let mut count = 0;
    for from in 0..4 {
        for to in 0..26 {
            for build in 0..26 {
                if board.move_is_legal(Move { from, to, build }).is_ok()
                    && are_adjacent(board.workers[from], to)
                    && are_adjacent(to, build)
                {
                    count += 1;
                }
            }
        }
    }
    assert_eq!(count, moves.len());
}
