use rust_gomoku::board::xy_to_move;
use rust_gomoku::config::{default_engine_settings, EngineProfile};
use rust_gomoku::constants::{BLACK, BOARD_SIZE, WHITE};
use rust_gomoku::controller::{EngineSearchCompletion, GameController};
use rust_gomoku::game::{ForbiddenPointSnapshot, GameMode, SearchDifficulty};
use rust_gomoku::rules::RuleSet;
use rust_gomoku::search::root::SearchResult;

fn double_three_controller(rule: RuleSet) -> GameController {
    let mut config = default_engine_settings();
    config.rule_set = rule;
    let mut controller = GameController::new(config);
    for (x, y) in [
        (6, 7),
        (0, 0),
        (8, 7),
        (0, 1),
        (7, 6),
        (0, 2),
        (7, 8),
        (0, 3),
    ] {
        controller
            .board
            .play_for_rule(xy_to_move(x, y).unwrap(), None, rule)
            .unwrap();
    }
    controller
}

fn shallow_controller() -> GameController {
    let mut config = default_engine_settings();
    config.root_search.depth = 1;
    config.root_search.wide = 8;
    GameController::new(config)
}

/// The engine's answer to a task: the given point, as a search would report it.
fn engine_answer(x: usize, y: usize, generation: u64) -> EngineSearchCompletion {
    EngineSearchCompletion::new(
        SearchResult {
            move_: xy_to_move(x, y).unwrap(),
            score: 0,
            depth: 1,
            nodes: 1,
        },
        generation,
    )
}

#[test]
fn renju_black_turn_exposes_and_rejects_forbidden_points() {
    let mut controller = double_three_controller(RuleSet::Renju);
    let snapshot = controller.snapshot();

    assert!(snapshot.forbidden_points.contains(&ForbiddenPointSnapshot {
        x: 7,
        y: 7,
        kind: "double_three",
    }));
    let move_count = controller.board.move_count();
    assert!(!controller.play_human(7, 7));
    assert_eq!(controller.board.move_count(), move_count);
    assert!(controller.snapshot().error.unwrap().contains("三三禁手"));
}

#[test]
fn freestyle_and_white_turn_do_not_expose_forbidden_points() {
    assert!(double_three_controller(RuleSet::Freestyle)
        .snapshot()
        .forbidden_points
        .is_empty());

    let mut controller = shallow_controller();
    assert!(controller.new_game(BLACK, RuleSet::Renju, GameMode::VsEngine));
    assert!(controller.play_human(7, 7));
    assert!(controller.snapshot().forbidden_points.is_empty());
}

#[test]
fn stale_search_completion_does_not_mutate_new_game() {
    let mut controller = shallow_controller();
    assert!(controller.new_game(WHITE, RuleSet::Freestyle, GameMode::VsEngine));
    let task = controller.prepare_engine_search().unwrap();
    assert!(controller.new_game(BLACK, RuleSet::Renju, GameMode::VsEngine));

    let center = BOARD_SIZE / 2;
    assert!(!controller.commit_engine_search(engine_answer(center, center, task.generation)));
    let snapshot = controller.snapshot();
    assert_eq!(snapshot.move_count, 0);
    assert_eq!(snapshot.human_side, BLACK);
    assert_eq!(snapshot.params.rule, "renju");
    assert!(!snapshot.engine_thinking);
}

#[test]
fn undo_and_profile_switch_keep_controller_consistent() {
    let mut controller = shallow_controller();
    assert!(controller.new_game(BLACK, RuleSet::Freestyle, GameMode::VsEngine));
    assert!(controller.play_human(7, 7));
    let task = controller.prepare_engine_search().unwrap();
    assert!(controller.commit_engine_search(engine_answer(8, 8, task.generation)));
    controller.undo_turn();
    controller.set_profile(EngineProfile::Fast);

    let snapshot = controller.snapshot();
    assert_eq!(snapshot.move_count, 0);
    assert_eq!(snapshot.params.profile, "fast");
    assert!(snapshot.can_play);
}

#[test]
fn difficulty_presets_update_search_and_tactical_settings() {
    let mut controller = GameController::new(default_engine_settings());
    assert_eq!(controller.snapshot().params.difficulty, "master");

    for (difficulty, name, depth, width, tactical) in [
        (SearchDifficulty::Beginner, "beginner", 1, 10, false),
        (SearchDifficulty::Junior, "junior", 2, 10, false),
        (SearchDifficulty::Intermediate, "intermediate", 4, 20, false),
        (SearchDifficulty::Senior, "senior", 6, 30, true),
        (SearchDifficulty::Master, "master", 8, 40, true),
    ] {
        controller.set_difficulty(difficulty);
        let params = controller.snapshot().params;
        assert_eq!(params.difficulty, name);
        assert_eq!(params.depth, depth);
        assert_eq!(params.width, width);
        assert_eq!(params.compute_vcf, tactical);
        assert_eq!(params.compute_vct, tactical);
    }
}

#[test]
fn difficulty_switch_is_rejected_while_searching() {
    let mut controller = shallow_controller();
    assert!(controller.new_game(WHITE, RuleSet::Freestyle, GameMode::VsEngine));
    let _task = controller.prepare_engine_search().unwrap();
    controller.set_difficulty(SearchDifficulty::Junior);

    let snapshot = controller.snapshot();
    assert_eq!(snapshot.params.difficulty, "custom");
    assert!(snapshot.error.unwrap().contains("暂不能切换难度"));
}

#[test]
fn invalid_human_side_does_not_reset_the_game() {
    let mut controller = shallow_controller();
    assert!(controller.new_game(BLACK, RuleSet::Freestyle, GameMode::VsEngine));
    assert!(controller.play_human(7, 7));
    let move_count = controller.board.move_count();

    assert!(!controller.new_game(0, RuleSet::Renju, GameMode::VsEngine));
    let snapshot = controller.snapshot();
    assert_eq!(snapshot.move_count, move_count);
    assert_eq!(snapshot.params.rule, "freestyle");
    assert!(snapshot.error.unwrap().contains("黑方或白方"));
}

#[test]
fn two_player_alternates_without_engine_and_reports_mode() {
    let mut controller = shallow_controller();
    assert!(controller.new_game(BLACK, RuleSet::Freestyle, GameMode::TwoPlayer));
    assert_eq!(controller.snapshot().params.mode, "two_player");

    assert!(!controller.play_human(7, 7));
    let snapshot = controller.snapshot();
    assert_eq!(snapshot.move_count, 1);
    assert_eq!(snapshot.side_to_move, WHITE);
    assert!(!snapshot.engine_thinking);
    assert!(snapshot.can_play);
    assert!(controller.prepare_engine_search().is_none());

    assert!(!controller.play_human(8, 8));
    assert_eq!(controller.snapshot().side_to_move, BLACK);
}

#[test]
fn two_player_renju_exposes_and_rejects_black_forbidden_points() {
    let mut controller = double_three_controller(RuleSet::Renju);
    controller.mode = GameMode::TwoPlayer;
    controller.human_side = WHITE;
    let snapshot = controller.snapshot();

    assert!(snapshot.forbidden_points.contains(&ForbiddenPointSnapshot {
        x: 7,
        y: 7,
        kind: "double_three",
    }));
    let move_count = controller.board.move_count();
    assert!(!controller.play_human(7, 7));
    assert_eq!(controller.board.move_count(), move_count);
    assert!(controller.snapshot().error.unwrap().contains("三三禁手"));
}

#[test]
fn two_player_undo_reverts_single_ply() {
    let mut controller = shallow_controller();
    assert!(controller.new_game(BLACK, RuleSet::Freestyle, GameMode::TwoPlayer));
    assert!(!controller.play_human(7, 7));
    assert!(!controller.play_human(8, 8));
    assert_eq!(controller.board.move_count(), 2);

    controller.undo_turn();
    let snapshot = controller.snapshot();
    assert_eq!(snapshot.move_count, 1);
    assert_eq!(snapshot.side_to_move, WHITE);
}

#[test]
fn two_player_declares_the_winning_side() {
    let mut controller = shallow_controller();
    assert!(controller.new_game(BLACK, RuleSet::Freestyle, GameMode::TwoPlayer));
    for x in 0..4 {
        assert!(!controller.play_human(x, 0));
        assert!(!controller.play_human(x, 5));
    }
    assert!(!controller.play_human(4, 0));
    let snapshot = controller.snapshot();
    assert_eq!(snapshot.winner, BLACK);
    assert_eq!(snapshot.status, "黑方胜。");
    assert!(!snapshot.can_play);
}

#[test]
fn new_controller_waits_for_a_side_and_reports_defaults() {
    let controller = GameController::new(default_engine_settings());
    let snapshot = controller.snapshot();
    assert_eq!(snapshot.status, "请选择执黑或执白，然后开始对局。");
    assert_eq!(snapshot.board_size, 15);
    assert_eq!(snapshot.cells.len(), 225);
    assert!(snapshot.can_play);
    assert_eq!(snapshot.params.mode, "vs_engine");
    assert_eq!(snapshot.params.profile, "base");
    assert_eq!(snapshot.params.rule, "freestyle");
    assert_eq!(snapshot.last_mark, None);
    assert_eq!(snapshot.last_result, None);
}

#[test]
fn new_game_messages_name_the_rule_and_sides() {
    let mut controller = shallow_controller();
    assert!(controller.new_game(BLACK, RuleSet::Renju, GameMode::VsEngine));
    assert_eq!(controller.snapshot().status, "新局开始（有禁手）：你执黑，请落子。");
    assert!(controller.new_game(WHITE, RuleSet::Freestyle, GameMode::VsEngine));
    assert_eq!(controller.snapshot().status, "新局开始（无禁手）：你执白，引擎执黑思考中。");
    assert!(controller.new_game(WHITE, RuleSet::Freestyle, GameMode::TwoPlayer));
    assert_eq!(controller.snapshot().status, "新局开始（双人 / 无禁手）：黑方先行。");
}

#[test]
fn engine_move_is_committed_and_shown() {
    let mut controller = shallow_controller();
    assert!(controller.new_game(WHITE, RuleSet::Renju, GameMode::VsEngine));
    assert!(!controller.play_human(7, 7));
    assert_eq!(controller.snapshot().error.unwrap(), "现在不能落子。");
    let task = controller.prepare_engine_search().unwrap();
    assert_eq!(task.board.move_count(), 0);
    assert_eq!(task.max_depth, 1);
    assert_eq!(task.root_width, 8);
    assert!(controller.snapshot().engine_thinking);
    assert_eq!(controller.snapshot().status, "引擎思考中...");
    assert!(controller.prepare_engine_search().is_none());
    assert!(controller.commit_engine_search(engine_answer(7, 7, task.generation)));
    let snapshot = controller.snapshot();
    assert_eq!(snapshot.move_count, 1);
    assert_eq!(snapshot.last_mark, Some([7, 7]));
    assert_eq!(snapshot.last_result.unwrap().move_xy, [7, 7]);
    assert_eq!(snapshot.status, "引擎已落子，轮到你。");
    assert!(snapshot.can_play);
}

#[test]
fn engine_move_on_a_stone_is_reported() {
    let mut controller = shallow_controller();
    assert!(controller.new_game(BLACK, RuleSet::Freestyle, GameMode::VsEngine));
    assert!(controller.play_human(7, 7));
    let task = controller.prepare_engine_search().unwrap();
    assert!(controller.commit_engine_search(engine_answer(7, 7, task.generation)));
    let snapshot = controller.snapshot();
    assert_eq!(snapshot.move_count, 1);
    assert_eq!(snapshot.error.unwrap(), "引擎返回禁手或非法落子。");
    assert_eq!(snapshot.status, "引擎落子失败。");
    assert!(!snapshot.engine_thinking);
}

#[test]
fn human_move_errors_say_why() {
    let mut controller = shallow_controller();
    assert!(controller.new_game(BLACK, RuleSet::Freestyle, GameMode::TwoPlayer));
    assert!(!controller.play_human(15, 0));
    assert_eq!(controller.snapshot().error.unwrap(), "缺少坐标或坐标超出棋盘。");
    assert!(!controller.play_human(7, 7));
    assert_eq!(controller.snapshot().error, None);
    assert!(!controller.play_human(7, 7));
    assert_eq!(controller.snapshot().error.unwrap(), "非法落子：IllegalMove(112)");
    assert_eq!(controller.snapshot().move_count, 1);
}

#[test]
fn vs_engine_undo_takes_back_the_engine_reply_and_the_human_move() {
    let mut controller = shallow_controller();
    assert!(controller.new_game(BLACK, RuleSet::Freestyle, GameMode::VsEngine));
    controller.undo_turn();
    assert_eq!(controller.snapshot().error.unwrap(), "当前没有可悔棋步。");
    assert!(controller.play_human(7, 7));
    let task = controller.prepare_engine_search().unwrap();
    controller.undo_turn();
    assert_eq!(controller.snapshot().error.unwrap(), "引擎思考中，暂不能悔棋。");
    assert!(controller.commit_engine_search(engine_answer(8, 8, task.generation)));
    assert!(controller.play_human(9, 9));
    controller.undo_turn();
    let snapshot = controller.snapshot();
    assert_eq!(snapshot.move_count, 2);
    assert_eq!(snapshot.last_mark, Some([8, 8]));
    assert_eq!(snapshot.status, "已悔棋，请继续落子。");
    assert_eq!(snapshot.error, None);
}

#[test]
fn white_human_undo_withdraws_the_engine_opening() {
    let mut controller = shallow_controller();
    assert!(controller.new_game(WHITE, RuleSet::Freestyle, GameMode::VsEngine));
    let task = controller.prepare_engine_search().unwrap();
    assert!(controller.commit_engine_search(engine_answer(7, 7, task.generation)));
    controller.undo_turn();
    let snapshot = controller.snapshot();
    assert_eq!(snapshot.move_count, 0);
    assert_eq!(
        snapshot.status,
        "已撤回引擎首手；点击“我执白”可重新让引擎开局。"
    );
}

#[test]
fn switching_difficulty_and_profile_report_the_settings() {
    let mut controller = shallow_controller();
    controller.set_difficulty(SearchDifficulty::Senior);
    assert_eq!(
        controller.snapshot().status,
        "已切换到高级难度（d6/w30，VCF/VCT 开启），下一次引擎思考生效。"
    );
    controller.set_difficulty(SearchDifficulty::Beginner);
    assert_eq!(
        controller.snapshot().status,
        "已切换到入门难度（d1/w10，VCF/VCT 关闭），下一次引擎思考生效。"
    );
    controller.set_profile(EngineProfile::Base);
    assert_eq!(
        controller.snapshot().status,
        "已切换到 Base 模式，当前棋局不变，下一次引擎思考生效。"
    );
    controller.set_error("busy".to_string());
    assert_eq!(controller.snapshot().error.unwrap(), "busy");
}
