use std::time::Duration;

use flop::board_rep::{Board, Move, Turn};
use flop::engine::{convert_move, search, Flop, Request, ReportedMove};
use flop::eval::{evaluate, WIN_SCORE};
use flop::search::{first_best, negamax};
use flop::squares::{A1, B1, C2, C3, C4, C5, E5};
use flop::time_management::{get_time, Deadline};

fn flat(workers: [usize; 4], turn: Turn) -> Board {
    Board { blocks: [0; 25], workers, turn }
}

#[test]
fn t1() {
    let board = flat([C2, C3, C4, C5], Turn::U);
    let total_time = Duration::from_secs(60);
    let flop = Flop {};
    let mv = flop.get_move(Request { board: board, time_left: total_time });
    let chosen = mv.mv.expect("a move");
    let reported: Vec<ReportedMove> = board.generate_moves().iter().map(|m| convert_move(board, *m)).collect();
    assert!(reported.contains(&chosen));
    assert!(mv.eval.is_some());
    assert!(mv.depth >= 1);
}

#[test]
fn corners_search_returns_generated_move() {
    let board = flat([A1, 4, 20, E5], Turn::W);
    let r = search(&board, 300);
    let chosen = r.mv.unwrap();
    let reported: Vec<ReportedMove> = board.generate_moves().iter().map(|m| convert_move(board, *m)).collect();
    assert!(reported.contains(&chosen));
    let e = r.eval.unwrap();
    assert!(-WIN_SCORE <= e && e <= WIN_SCORE);
}

#[test]
fn tiny_budget_still_gives_a_depth_one_move() {
    let board = flat([A1, 4, 20, E5], Turn::W);
    let r = search(&board, 0);
    assert_eq!(r.depth, 1);
    let chosen = r.mv.unwrap();
    assert!(chosen.from <= 1);
    assert!(r.eval.is_some());
}

#[test]
fn generous_budget_goes_deeper() {
    let board = flat([A1, 4, 20, E5], Turn::W);
    let r = search(&board, 1500);
    assert!(r.depth >= 2);
    assert!(r.mv.is_some());
}

#[test]
fn winning_climb_is_chosen_without_build() {
    let mut board = flat([6, 0, 20, 24], Turn::W);
    board.blocks[6] = 2;
    board.blocks[8] = 3;
    board.blocks[12] = 3;
    let flop = Flop::new();
    let r = flop.get_move(Request { board, time_left: Duration::from_secs(10) });
    let mv = r.mv.unwrap();
    assert_eq!(mv.from, 0);
    assert_eq!(mv.to, 12);
    assert_eq!(mv.build, None);
    assert_eq!(r.eval, Some(WIN_SCORE));
}

#[test]
fn boxed_in_side_gets_no_move() {
    let mut board = flat([A1, B1, 23, 24], Turn::W);
    for c in [2usize, 5, 6, 7] {
        board.blocks[c] = 4;
    }
    assert!(board.generate_moves().is_empty());
    let r = Flop::new().get_move(Request { board, time_left: Duration::from_secs(5) });
    assert!(r.mv.is_none());
    assert!(r.eval.is_none());
    assert!(r.pv.is_none());
}

#[test]
fn evaluation_is_antisymmetric() {
    let mut board = flat([6, 0, 20, 24], Turn::W);
    board.blocks[6] = 2;
    board.blocks[24] = 1;
    let mine = evaluate(&board);
    assert_eq!(mine, 5);
    board.turn = Turn::U;
    assert_eq!(evaluate(&board), -mine);
    board.blocks[20] = 3;
    assert_eq!(evaluate(&board), WIN_SCORE);
    board.turn = Turn::W;
    assert_eq!(evaluate(&board), -WIN_SCORE);
}

#[test]
fn negamax_depth_zero_is_static_score_and_leaves_board() {
    let mut board = flat([6, 0, 20, 24], Turn::W);
    board.blocks[6] = 2;
    let d = Deadline::new(10_000);
    assert_eq!(negamax(&mut board, 0, &d), Some(10));
    let one = negamax(&mut board, 1, &d).unwrap();
    assert!(one >= -WIN_SCORE && one <= WIN_SCORE);
    assert_eq!(board.blocks[6], 2);
    assert_eq!(board.workers, [6, 0, 20, 24]);
    assert_eq!(board.turn, Turn::W);
}

#[test]
fn negamax_sees_immediate_win() {
    let mut board = flat([6, 0, 20, 24], Turn::W);
    board.blocks[6] = 2;
    board.blocks[7] = 3;
    let d = Deadline::new(10_000);
    assert_eq!(negamax(&mut board, 1, &d), Some(WIN_SCORE));
}

#[test]
fn first_best_takes_earliest_tie() {
    assert_eq!(first_best(&vec![3, 7, 1, 7]), 1);
    assert_eq!(first_best(&vec![-2]), 0);
    assert_eq!(first_best(&vec![-5, -1, -1]), 1);
}

#[test]
fn convert_move_drops_build_on_level_three() {
    let mut board = flat([6, 0, 20, 24], Turn::W);
    board.blocks[7] = 3;
    assert_eq!(convert_move(board, Move { from: 0, to: 7, build: 8 }), ReportedMove { from: 0, to: 7, build: None });
    assert_eq!(convert_move(board, Move { from: 0, to: 11, build: 12 }), ReportedMove { from: 0, to: 11, build: Some(12) });
}

#[test]
fn thinking_time_allowance() {
    assert_eq!(get_time(60_000), 3_000);
    assert_eq!(get_time(100), 10);
    assert_eq!(get_time(5), 5);
    assert_eq!(get_time(0), 1);
    assert_eq!(get_time(200), 10);
    assert_eq!(get_time(400), 20);
}

#[test]
fn engine_info() {
    let info = Flop::new().get_info();
    assert_eq!(info.name, "flop");
    assert_eq!(info.eval_range, (-46, 46));
}
