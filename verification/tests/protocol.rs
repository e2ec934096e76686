use rust_gomoku::config::{
    EngineProfile, DEFAULT_DYNAMIC_BOARD_MARGIN, DEFAULT_OPPONENT_VCF_DEPTH,
    DEFAULT_OVERLAP_VCT_ALPHABETA, DEFAULT_ROOT_PROFILE, DEFAULT_ROOT_VCF_DEPTH,
    DEFAULT_ROOT_VCT_DEPTH, DEFAULT_VCF_MULTI_REPLY, DEFAULT_VCT_STRICT_AND_MEMO_KEY,
    DEFAULT_VCT_VERIFY_OPPONENT_VCF_DEPTH,
};
use rust_gomoku::protocol::gomocup::{GomocupProtocol, ProtocolReply, TimeSetting};
use rust_gomoku::rules::RuleSet;

fn proto() -> GomocupProtocol {
    GomocupProtocol::new(None)
}

fn lines(reply: ProtocolReply) -> Vec<String> {
    match reply {
        ProtocolReply::Lines(v) => v,
        other => panic!("expected reply lines, got {other:?}"),
    }
}

#[test]
fn protocol_start_accepts_15() {
    let mut proto = proto();
    assert_eq!(lines(proto.handle_line("START 15")), ["OK"]);
}

#[test]
fn protocol_start_rejects_other_sizes() {
    let mut proto = proto();
    assert_eq!(lines(proto.handle_line("START 20")), ["ERROR Size error."]);
}

#[test]
fn protocol_start_rejects_non_numeric_size() {
    let mut proto = proto();
    assert_eq!(lines(proto.handle_line("START foo")), ["ERROR Size error."]);
}

#[test]
fn protocol_rectstart_rejects_non_numeric_size() {
    let mut proto = proto();
    assert_eq!(lines(proto.handle_line("RECTSTART 15,foo")), ["ERROR Size error."]);
}

#[test]
fn protocol_turn_rejects_illegal_repeat_move() {
    let mut proto = proto();
    proto.handle_line("START 15");
    proto.handle_line("TURN 7,7");
    assert_eq!(lines(proto.handle_line("TURN 7,7")), ["ERROR Illegal move."]);
}

#[test]
fn protocol_turn_rejects_non_numeric_coordinates() {
    let mut proto = proto();
    proto.handle_line("START 15");
    assert_eq!(lines(proto.handle_line("TURN a,b")), ["ERROR Turn format error."]);
}

#[test]
fn protocol_turn_rejects_out_of_range_coordinates() {
    let mut proto = proto();
    proto.handle_line("START 15");
    assert_eq!(lines(proto.handle_line("TURN 15,15")),
        ["ERROR Turn format error."]
    );
}

#[test]
fn protocol_about_returns_metadata() {
    let mut proto = proto();
    let response = lines(proto.handle_line("ABOUT"));
    assert_eq!(response.len(), 1);
    assert!(response[0].contains("rust_gomoku"));
}

#[test]
fn protocol_takeback_on_empty_board_returns_ok() {
    let mut proto = proto();
    proto.handle_line("START 15");
    assert_eq!(lines(proto.handle_line("TAKEBACK")), ["OK"]);
}

#[test]
fn protocol_board_mode_rejects_non_numeric_triplet() {
    let mut proto = proto();
    proto.handle_line("START 15");
    proto.handle_line("BOARD");
    assert_eq!(lines(proto.handle_line("7,7,foo")), ["ERROR Board format error."]);
}

#[test]
fn protocol_board_mode_rejects_out_of_range_coordinates() {
    let mut proto = proto();
    proto.handle_line("START 15");
    proto.handle_line("BOARD");
    assert_eq!(lines(proto.handle_line("15,0,1")), ["ERROR Board format error."]);
}

#[test]
fn protocol_board_mode_reconstructs_interleaved_color_order_as_expected() {
    let mut proto = proto();
    proto.handle_line("START 15");
    proto.handle_line("BOARD");
    for line in ["7,7,1", "5,5,2", "6,7,1", "5,6,2"] {
        assert_eq!(lines(proto.handle_line(line)), Vec::<String>::new());
    }
    proto.handle_line("DONE");
    let moves: Vec<_> = proto
        .board
        .move_history()
        .iter()
        .take(4)
        .map(|entry| (entry.move_ % 15, entry.move_ / 15, entry.side))
        .collect();
    assert_eq!(moves, vec![(7, 7, 1), (5, 5, -1), (6, 7, 1), (5, 6, -1)]);
}

#[test]
fn protocol_info_static_updates_runtime() {
    let mut proto = proto();
    proto.handle_line("INFO static 0");
    assert!(!proto.config.runtime.static_board);
}

#[test]
fn protocol_info_dynamic_board_margin_updates_runtime() {
    let mut proto = proto();
    proto.handle_line("INFO dynamic_board_margin 2");
    assert_eq!(proto.config.runtime.dynamic_board_margin, 2);
}

#[test]
fn protocol_info_dynamic_board_margin_negative_clamps_to_zero() {
    let mut proto = proto();
    proto.handle_line("INFO dynamic_board_margin -1");
    assert_eq!(proto.config.runtime.dynamic_board_margin, 0);
}

#[test]
fn protocol_info_compute_vcf_updates_runtime() {
    let mut proto = proto();
    proto.handle_line("INFO compute_vcf 0");
    assert!(!proto.config.runtime.compute_vcf);
}

#[test]
fn protocol_info_vcf_depths_update_runtime() {
    let mut proto = proto();
    proto.handle_line("INFO root_vcf_depth 9");
    proto.handle_line("INFO opponent_vcf_depth 6");
    proto.handle_line("INFO vct_verify_opponent_vcf_depth 3");
    assert_eq!(proto.config.runtime.root_vcf_depth, 9);
    assert_eq!(proto.config.runtime.opponent_vcf_depth, 6);
    assert_eq!(proto.config.runtime.vct_verify_opponent_vcf_depth, 3);
}

#[test]
fn protocol_info_nonroot_vcf_updates_runtime() {
    let mut proto = proto();
    proto.handle_line("INFO nonroot_vcf 1");
    assert!(proto.config.runtime.nonroot_vcf);
    proto.handle_line("INFO nonroot_vcf 0");
    assert!(!proto.config.runtime.nonroot_vcf);
}

#[test]
fn protocol_info_vcf_multi_reply_updates_runtime() {
    let mut proto = proto();
    proto.handle_line("INFO vcf_multi_reply 1");
    assert!(proto.config.runtime.vcf_multi_reply);
    proto.handle_line("INFO vcf_multi_reply 0");
    assert!(!proto.config.runtime.vcf_multi_reply);
}

#[test]
fn protocol_info_compute_vct_updates_runtime() {
    let mut proto = proto();
    proto.handle_line("INFO compute_vct 0");
    assert!(!proto.config.runtime.compute_vct);
}

#[test]
fn protocol_info_root_vct_depth_updates_runtime() {
    let mut proto = proto();
    proto.handle_line("INFO root_vct_depth 9");
    assert_eq!(proto.config.runtime.root_vct_depth, 9);
}

#[test]
fn protocol_info_root_vct_depth_negative_clamps_to_zero() {
    let mut proto = proto();
    proto.handle_line("INFO root_vct_depth -3");
    assert_eq!(proto.config.runtime.root_vct_depth, 0);
}

#[test]
fn protocol_info_vct_strict_and_memo_key_updates_runtime() {
    let mut proto = proto();
    proto.handle_line("INFO vct_strict_and_memo_key 1");
    assert!(proto.config.runtime.vct_strict_and_memo_key);
    proto.handle_line("INFO vct_strict_and_memo_key 0");
    assert!(!proto.config.runtime.vct_strict_and_memo_key);
}

#[test]
fn protocol_info_overlap_vct_alphabeta_updates_runtime() {
    let mut proto = proto();
    proto.handle_line("INFO overlap_vct_alphabeta 1");
    assert!(proto.config.runtime.overlap_vct_alphabeta);
    proto.handle_line("INFO overlap_vct_alphabeta 0");
    assert!(!proto.config.runtime.overlap_vct_alphabeta);
}

#[test]
fn protocol_info_fast_history_ordering_updates_runtime() {
    let mut proto = proto();
    assert!(!proto.config.runtime.fast_history_ordering);
    proto.handle_line("INFO fast_history_ordering 1");
    assert!(proto.config.runtime.fast_history_ordering);
    proto.handle_line("INFO fast_history_ordering 0");
    assert!(!proto.config.runtime.fast_history_ordering);
}

#[test]
fn protocol_info_tt_bits_updates_engine_option() {
    let mut proto = proto();
    proto.handle_line("INFO tt_bits 24");
    assert_eq!(proto.tt_bits, Some(24));
}

#[test]
fn protocol_info_profile_updates_config_profile() {
    let mut proto = proto();
    assert_eq!(proto.config.profile, EngineProfile::Base);
    proto.handle_line("INFO profile fast");
    assert_eq!(proto.config.profile, EngineProfile::Fast);
    assert!(proto.config.runtime.vcf_multi_reply);
    assert!(proto.config.runtime.fast_history_ordering);
    proto.handle_line("INFO profile classic");
    assert_eq!(proto.config.profile, EngineProfile::Base);
    assert_eq!(
        proto.config.runtime.vcf_multi_reply,
        DEFAULT_VCF_MULTI_REPLY
    );
    assert!(!proto.config.runtime.fast_history_ordering);
}

#[test]
fn protocol_info_root_profile_updates_runtime() {
    let mut proto = proto();
    proto.handle_line("INFO root_profile 1");
    assert!(proto.config.runtime.root_profile);
    proto.handle_line("INFO root_profile 0");
    assert!(!proto.config.runtime.root_profile);
}

#[test]
fn protocol_info_max_node_zero_means_unlimited() {
    let mut proto = proto();
    proto.handle_line("INFO max_node 0");
    assert_eq!(proto.node_limit, None);
}

#[test]
fn protocol_unknown_command_silently_ignored_as_expected() {
    let mut proto = proto();
    assert_eq!(lines(proto.handle_line("FOOBAR")), Vec::<String>::new());
    assert_eq!(lines(proto.handle_line("XYZZY 123")), Vec::<String>::new());
}

#[test]
fn protocol_end_marks_protocol_ended() {
    let mut proto = proto();
    assert_eq!(lines(proto.handle_line("END")), Vec::<String>::new());
    assert!(proto.ended);
}

#[test]
fn begin_asks_for_a_search_and_finish_plays_it() {
    let mut proto = proto();
    proto.handle_line("START 15");
    assert_eq!(proto.handle_line("BEGIN"), ProtocolReply::Search);
    assert_eq!(proto.finish_search(7 * 15 + 7), ["7,7"]);
    assert_eq!(proto.board.move_count(), 1);
    // An illegal searched move falls back to the first playable point.
    assert_eq!(proto.finish_search(7 * 15 + 7), ["0,0"]);
    assert_eq!(proto.board.move_count(), 2);
}

#[test]
fn takeback_with_a_point_must_name_the_last_move() {
    let mut proto = proto();
    proto.handle_line("START 15");
    proto.handle_line("TURN 3,4");
    assert_eq!(lines(proto.handle_line("TAKEBACK 4,3")), ["ERROR Takeback error."]);
    assert_eq!(lines(proto.handle_line("TAKEBACK 3,4")), ["OK"]);
    assert_eq!(proto.board.move_count(), 0);
    assert_eq!(lines(proto.handle_line("TAKEBACK 3,4")), ["ERROR Takeback error."]);
}

#[test]
fn time_settings_are_handed_back_with_their_text() {
    let mut proto = proto();
    assert_eq!(
        proto.handle_line("INFO timeout_turn 5000"),
        ProtocolReply::Time(TimeSetting::TimeoutTurn, "5000".chars().collect())
    );
    assert_eq!(
        proto.handle_line("info TIME_LEFT 12"),
        ProtocolReply::Time(TimeSetting::TimeLeft, "12".chars().collect())
    );
}

#[test]
fn oversized_tt_bits_is_reported_at_the_next_search() {
    let mut proto = proto();
    proto.handle_line("INFO tt_bits 40");
    assert_eq!(proto.tt_bits, None);
    assert_eq!(lines(proto.handle_line("BEGIN")), ["ERROR tt_bits must be between 0 and 31."]);
    assert_eq!(proto.handle_line("BEGIN"), ProtocolReply::Search);
}

#[test]
fn rule_changes_only_before_the_first_move() {
    let mut proto = proto();
    proto.engine_reset = false;
    proto.handle_line("INFO rule renju");
    assert_eq!(proto.config.rule_set, RuleSet::Renju);
    assert!(proto.engine_reset);
    proto.handle_line("TURN 7,7");
    proto.handle_line("INFO rule 0");
    assert_eq!(proto.config.rule_set, RuleSet::Renju);
}

#[test]
fn board_with_unbalanced_colours_is_rejected() {
    let mut proto = proto();
    proto.handle_line("BOARD");
    proto.handle_line("1,1,1");
    proto.handle_line("2,2,1");
    assert_eq!(lines(proto.handle_line("DONE")), ["ERROR Board error."]);
    assert!(!proto.board_mode);
    assert!(proto.board_lines.is_empty());
}

#[test]
fn board_with_a_repeated_point_is_rejected() {
    let mut proto = proto();
    proto.handle_line("BOARD");
    proto.handle_line("1,1,1");
    proto.handle_line("1,1,2");
    assert_eq!(lines(proto.handle_line("done")), ["ERROR Board error."]);
    assert_eq!(proto.board.move_count(), 0);
}

#[test]
fn restart_resets_the_board() {
    let mut proto = proto();
    proto.handle_line("TURN 7,7");
    assert_eq!(lines(proto.handle_line("RESTART")), ["OK"]);
    assert_eq!(proto.board.move_count(), 0);
    assert_eq!(lines(proto.handle_line("RECTSTART 15,15")), ["OK"]);
    assert_eq!(lines(proto.handle_line("  ")), Vec::<String>::new());
}

#[test]
fn a_full_board_cannot_be_searched() {
    let mut proto = proto();
    for y in 0..15 {
        for x in 0..15 {
            let side = if (x + 2 * y) % 4 < 2 { 1 } else { -1 };
            proto.board.set_grid_cell(x, y, side);
        }
    }
    assert_eq!(lines(proto.handle_line("BEGIN")), ["ERROR Board is full."]);
}

#[test]
fn protocol_takeback_undoes_last_move() {
    let mut proto = proto();
    proto.handle_line("START 15");
    assert_eq!(proto.handle_line("BEGIN"), ProtocolReply::Search);
    proto.finish_search(7 * 15 + 7);
    assert_eq!(proto.board.move_count(), 1);
    assert_eq!(lines(proto.handle_line("TAKEBACK")), ["OK"]);
    assert_eq!(proto.board.move_count(), 0);
}

#[test]
fn protocol_info_invalid_numeric_values_are_ignored() {
    let mut proto = proto();
    proto.handle_line("INFO timeout_turn 500");
    proto.handle_line("INFO timeout_turn foo");
    proto.handle_line("INFO time_left bar");
    proto.handle_line("INFO max_node baz");
    proto.handle_line("INFO compute_vcf qux");
    proto.handle_line("INFO root_vcf_depth nope");
    proto.handle_line("INFO opponent_vcf_depth nope");
    proto.handle_line("INFO vct_verify_opponent_vcf_depth nope");
    proto.handle_line("INFO vcf_multi_reply nope");
    proto.handle_line("INFO nonroot_vcf nope");
    proto.handle_line("INFO compute_vct nope");
    proto.handle_line("INFO root_vct_depth nope");
    proto.handle_line("INFO vct_strict_and_memo_key nope");
    proto.handle_line("INFO overlap_vct_alphabeta nope");
    proto.handle_line("INFO profile nope");
    proto.handle_line("INFO root_profile nope");
    proto.handle_line("INFO static zed");
    proto.handle_line("INFO dynamic_board_margin hmm");
    assert_eq!(proto.node_limit, None);
    assert!(proto.config.runtime.compute_vcf);
    assert_eq!(proto.config.runtime.root_vcf_depth, DEFAULT_ROOT_VCF_DEPTH);
    assert_eq!(proto.config.runtime.opponent_vcf_depth, DEFAULT_OPPONENT_VCF_DEPTH);
    assert_eq!(
        proto.config.runtime.vct_verify_opponent_vcf_depth,
        DEFAULT_VCT_VERIFY_OPPONENT_VCF_DEPTH
    );
    assert_eq!(proto.config.runtime.vcf_multi_reply, DEFAULT_VCF_MULTI_REPLY);
    assert!(!proto.config.runtime.nonroot_vcf);
    assert!(proto.config.runtime.compute_vct);
    assert_eq!(proto.config.runtime.root_vct_depth, DEFAULT_ROOT_VCT_DEPTH);
    assert_eq!(
        proto.config.runtime.vct_strict_and_memo_key,
        DEFAULT_VCT_STRICT_AND_MEMO_KEY
    );
    assert_eq!(proto.config.runtime.overlap_vct_alphabeta, DEFAULT_OVERLAP_VCT_ALPHABETA);
    assert_eq!(proto.config.runtime.root_profile, DEFAULT_ROOT_PROFILE);
    assert_eq!(proto.config.profile, EngineProfile::Base);
    assert!(proto.config.runtime.static_board);
    assert_eq!(proto.config.runtime.dynamic_board_margin, DEFAULT_DYNAMIC_BOARD_MARGIN);
}
