use rust_gomoku::board::{xy_to_move, Board};
use rust_gomoku::config::default_engine_settings;
use rust_gomoku::constants::{INF, WIN};
use rust_gomoku::eval::caches::EvalCaches;
use rust_gomoku::search::root::{
    new_classic_fallback_rng, root_start, root_step, AlphaBetaOutcome, RootAction, SearchResult,
};
use rust_gomoku::threats::vcf::VCFSearcher;
use rust_gomoku::threats::vct::VCTSearcher;

#[test]
fn root_start_plays_centre_on_empty_board() {
    let board = Board::new();
    let settings = default_engine_settings();
    let caches = EvalCaches::new();
    let (mut vcf, mut vct, mut rng) =
        (VCFSearcher::default(), VCTSearcher::default(), new_classic_fallback_rng());
    let (_, action, allowed) =
        root_start(&board, &settings, 4, 20, &caches, &mut vcf, &mut vct, &mut rng);
    assert_eq!(
        action,
        RootAction::Play(SearchResult { move_: xy_to_move(7, 7).unwrap(), score: 0, depth: 0, nodes: 0 })
    );
    assert!(allowed.is_none());
}

#[test]
fn root_start_plays_vcf_win_first() {
    let mut board = Board::new();
    for (x, y) in [(3, 7), (0, 0), (4, 7), (1, 0), (5, 7), (14, 14), (6, 7), (14, 13)] {
        board.play(xy_to_move(x, y).unwrap(), None).unwrap();
    }
    let settings = default_engine_settings();
    let caches = EvalCaches::new();
    let (mut vcf, mut vct, mut rng) =
        (VCFSearcher::default(), VCTSearcher::default(), new_classic_fallback_rng());
    let (_, action, _) = root_start(&board, &settings, 4, 20, &caches, &mut vcf, &mut vct, &mut rng);
    match action {
        RootAction::Play(result) => {
            assert_eq!(result.score, INF);
            assert!(result.move_ == xy_to_move(2, 7).unwrap() || result.move_ == xy_to_move(7, 7).unwrap());
        }
        other => panic!("expected a move, got {other:?}"),
    }
}

#[test]
fn root_steps_deepen_and_stop_on_a_won_score() {
    let mut board = Board::new();
    board.play(xy_to_move(7, 7).unwrap(), None).unwrap();
    board.play(xy_to_move(7, 8).unwrap(), None).unwrap();
    let settings = default_engine_settings();
    let caches = EvalCaches::new();
    let (mut vcf, mut vct, mut rng) =
        (VCFSearcher::default(), VCTSearcher::default(), new_classic_fallback_rng());
    let (state, action, allowed) =
        root_start(&board, &settings, 3, 20, &caches, &mut vcf, &mut vct, &mut rng);
    assert_eq!(action, RootAction::SearchDepth { depth: 1, root_width: 20 });
    assert!(allowed.is_none());
    let first = xy_to_move(6, 6).unwrap();
    let (state, action) = root_step(
        &board,
        &caches,
        state,
        AlphaBetaOutcome { score: 10, move_: Some(first), nodes: 5, stopped: false },
        &mut rng,
    );
    assert_eq!(action, RootAction::SearchDepth { depth: 2, root_width: 20 });
    assert_eq!(state.best_move, Some(first));
    let second = xy_to_move(8, 6).unwrap();
    let (_, action) = root_step(
        &board,
        &caches,
        state,
        AlphaBetaOutcome { score: WIN, move_: Some(second), nodes: 7, stopped: false },
        &mut rng,
    );
    assert_eq!(
        action,
        RootAction::Play(SearchResult { move_: second, score: WIN, depth: 2, nodes: 12 })
    );
}

#[test]
fn root_step_keeps_best_move_when_stopped() {
    let mut board = Board::new();
    board.play(xy_to_move(7, 7).unwrap(), None).unwrap();
    board.play(xy_to_move(7, 8).unwrap(), None).unwrap();
    let settings = default_engine_settings();
    let caches = EvalCaches::new();
    let (mut vcf, mut vct, mut rng) =
        (VCFSearcher::default(), VCTSearcher::default(), new_classic_fallback_rng());
    let (state, _, _) = root_start(&board, &settings, 5, 20, &caches, &mut vcf, &mut vct, &mut rng);
    let best = xy_to_move(6, 6).unwrap();
    let (state, _) = root_step(
        &board,
        &caches,
        state,
        AlphaBetaOutcome { score: 30, move_: Some(best), nodes: 4, stopped: false },
        &mut rng,
    );
    let (_, action) = root_step(
        &board,
        &caches,
        state,
        AlphaBetaOutcome { score: 0, move_: None, nodes: 3, stopped: true },
        &mut rng,
    );
    assert_eq!(action, RootAction::Play(SearchResult { move_: best, score: 30, depth: 1, nodes: 7 }));
}

#[test]
fn root_step_stopped_before_any_depth_takes_a_legal_fallback() {
    let mut board = Board::new();
    board.play(xy_to_move(7, 7).unwrap(), None).unwrap();
    board.play(xy_to_move(7, 8).unwrap(), None).unwrap();
    let settings = default_engine_settings();
    let caches = EvalCaches::new();
    let (mut vcf, mut vct, mut rng) =
        (VCFSearcher::default(), VCTSearcher::default(), new_classic_fallback_rng());
    let (state, _, _) = root_start(&board, &settings, 5, 20, &caches, &mut vcf, &mut vct, &mut rng);
    let (_, action) = root_step(
        &board,
        &caches,
        state,
        AlphaBetaOutcome { score: 0, move_: None, nodes: 0, stopped: true },
        &mut rng,
    );
    match action {
        RootAction::Play(result) => {
            assert!(board.is_legal_move(result.move_));
            assert_eq!((result.score, result.depth, result.nodes), (-INF, 0, 0));
        }
        other => panic!("expected a move, got {other:?}"),
    }
}
