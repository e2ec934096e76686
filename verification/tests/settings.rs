use rust_gomoku::board::{xy_to_move, Board};
use rust_gomoku::config::{
    apply_profile_to_runtime, default_engine_settings, default_runtime_options, EngineProfile,
    DEFAULT_DYNAMIC_BOARD_MARGIN, DEFAULT_OPPONENT_VCF_DEPTH, DEFAULT_ROOT_VCF_DEPTH,
    DEFAULT_ROOT_VCT_DEPTH, DEFAULT_VCT_VERIFY_OPPONENT_VCF_DEPTH,
};
use rust_gomoku::constants::{BLACK, WHITE};
use rust_gomoku::game::{
    board_cells, forbidden_code, forbidden_name, last_move_xy, move_snapshots,
    visible_forbidden_points, GameMode, SearchDifficulty,
};
use rust_gomoku::rules::{ForbiddenKind, RuleSet};

#[test]
fn engine_profiles_parse_and_apply() {
    assert_eq!("Classic".parse::<EngineProfile>(), Ok(EngineProfile::Base));
    assert_eq!("classic/BASE".parse::<EngineProfile>(), Ok(EngineProfile::Base));
    assert_eq!("FAST".parse::<EngineProfile>(), Ok(EngineProfile::Fast));
    assert_eq!(
        "turbo".parse::<EngineProfile>(),
        Err("unknown engine profile: turbo".to_string())
    );
    assert_eq!(EngineProfile::Fast.as_str(), "fast");
    let mut runtime = default_runtime_options(false);
    assert!(runtime.vcf_multi_reply);
    assert!(!runtime.fast_history_ordering);
    apply_profile_to_runtime(&mut runtime, EngineProfile::Fast);
    assert!(runtime.fast_history_ordering);
    apply_profile_to_runtime(&mut runtime, EngineProfile::Base);
    assert!(!runtime.fast_history_ordering);
    assert_eq!(runtime.root_vcf_depth, 8);
    assert_eq!(runtime.dynamic_board_margin, 4);
}

#[test]
fn difficulty_presets_round_trip() {
    let mut config = default_engine_settings();
    assert_eq!(config.root_search.depth, 8);
    assert_eq!(config.root_search.wide, 40);
    for d in [
        SearchDifficulty::Beginner,
        SearchDifficulty::Junior,
        SearchDifficulty::Intermediate,
        SearchDifficulty::Senior,
        SearchDifficulty::Master,
    ] {
        d.apply_to_config(&mut config);
        let (root, runtime) = (config.root_search, config.runtime);
        let (depth, width, tactical) = d.settings();
        assert_eq!((root.depth, root.wide, root.timed_max_wide), (depth, width, width));
        assert_eq!(runtime.compute_vcf, tactical);
        assert_eq!(
            SearchDifficulty::detect(root.depth, root.wide, runtime.compute_vcf, runtime.compute_vct),
            Some(d)
        );
        assert_eq!(d.as_str().parse::<SearchDifficulty>(), Ok(d));
    }
    assert_eq!(SearchDifficulty::detect(3, 10, false, false), None);
    assert_eq!("HARD".parse::<SearchDifficulty>(), Ok(SearchDifficulty::Master));
    assert_eq!("easy".parse::<SearchDifficulty>(), Ok(SearchDifficulty::Junior));
    assert_eq!(
        "custom".parse::<SearchDifficulty>(),
        Err("unknown search difficulty: custom".to_string())
    );
    assert_eq!(SearchDifficulty::default(), SearchDifficulty::Intermediate);
    assert_eq!(SearchDifficulty::Master.label(), "大师");
    assert_eq!(GameMode::default().as_str(), "vs_engine");
    assert_eq!(GameMode::TwoPlayer.as_str(), "two_player");
}

#[test]
fn board_records_for_front_ends() {
    let mut board = Board::new();
    assert_eq!(last_move_xy(&board), None);
    board.play(xy_to_move(3, 4).unwrap(), None).unwrap();
    board.play(xy_to_move(5, 6).unwrap(), None).unwrap();
    let moves = move_snapshots(&board);
    assert_eq!(moves.len(), 2);
    assert_eq!((moves[0].x, moves[0].y, moves[0].side, moves[0].number), (3, 4, BLACK, 1));
    assert_eq!((moves[1].x, moves[1].y, moves[1].side, moves[1].number), (5, 6, WHITE, 2));
    assert_eq!(last_move_xy(&board), Some((5, 6)));
    let cells = board_cells(&board);
    assert_eq!(cells.len(), 225);
    assert_eq!(cells[4 * 15 + 3], BLACK);
    assert_eq!(cells[6 * 15 + 5], WHITE);
}

#[test]
fn renju_black_turn_exposes_forbidden_points() {
    let mut board = Board::new();
    for (x, y) in [(6, 6), (8, 6), (6, 8), (8, 8)] {
        board.set_grid_cell(x, y, BLACK);
    }
    let points = visible_forbidden_points(&board, RuleSet::Renju);
    assert!(points.iter().any(|p| p.x == 7 && p.y == 7 && p.kind == "double_three"));
    assert!(visible_forbidden_points(&board, RuleSet::Freestyle).is_empty());
    board.force_side_to_move(WHITE).unwrap();
    assert!(visible_forbidden_points(&board, RuleSet::Renju).is_empty());
    assert_eq!(forbidden_name(ForbiddenKind::DoubleThree), "三三禁手");
    assert_eq!(forbidden_code(ForbiddenKind::Overline), "overline");
}

#[test]
fn default_settings_and_tactical_presets_use_documented_root_vct_depth() {
    let config = default_engine_settings();
    let runtime = config.runtime;
    assert_eq!(runtime.root_vcf_depth, 8);
    assert_eq!(runtime.opponent_vcf_depth, 7);
    assert_eq!(runtime.vct_verify_opponent_vcf_depth, 4);
    assert_eq!(runtime.root_vct_depth, 4);
    assert_eq!(runtime.dynamic_board_margin, 4);
    assert!(runtime.compute_vcf && runtime.compute_vct);
    for d in [SearchDifficulty::Senior, SearchDifficulty::Master] {
        let mut c = default_engine_settings();
        c.runtime.root_vct_depth = 11;
        d.apply_to_config(&mut c);
        assert_eq!(c.runtime.root_vct_depth, 4);
        assert!(c.runtime.compute_vcf && c.runtime.compute_vct);
    }
    let mut c = default_engine_settings();
    c.runtime.root_vct_depth = 11;
    SearchDifficulty::Junior.apply_to_config(&mut c);
    assert_eq!(c.runtime.root_vct_depth, 11);
    assert!(!c.runtime.compute_vcf && !c.runtime.compute_vct);
}

#[test]
fn runtime_defaults_match_reference() {
    let config = default_engine_settings();
    assert!(!config.runtime.read_config_each_move);
    assert!(config.runtime.compute_vcf);
    assert_eq!(config.runtime.root_vcf_depth, DEFAULT_ROOT_VCF_DEPTH);
    assert_eq!(config.runtime.opponent_vcf_depth, DEFAULT_OPPONENT_VCF_DEPTH);
    assert_eq!(
        config.runtime.vct_verify_opponent_vcf_depth,
        DEFAULT_VCT_VERIFY_OPPONENT_VCF_DEPTH
    );
    assert!(!config.runtime.nonroot_vcf);
    assert!(config.runtime.static_board);
    assert_eq!(config.runtime.dynamic_board_margin, DEFAULT_DYNAMIC_BOARD_MARGIN);
    assert!(config.runtime.compute_vct);
    assert_eq!(config.runtime.root_vct_depth, DEFAULT_ROOT_VCT_DEPTH);
}
