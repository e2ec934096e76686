use rust_gomoku::cli::{
    apply_gui_request, browser_url, html_response, http_response, parse_case_file_arg,
    parse_engine_args, parse_gui_args,
    parse_gui_request, parse_probe_args, parse_side, query_param, replay_case, split_target,
    text_response, CaseMove, CaseSide, GuiReply, GuiRequest, DEFAULT_GUI_ADDR,
};
use rust_gomoku::config::{default_engine_settings, EngineProfile};
use rust_gomoku::constants::{BLACK, WHITE};
use rust_gomoku::controller::GameController;
use rust_gomoku::rules::RuleSet;

fn strings(args: &[&str]) -> Vec<String> {
    args.iter().map(|a| a.to_string()).collect()
}

fn chars(s: &str) -> Vec<char> {
    s.chars().collect()
}

#[test]
fn browser_url_rewrites_unspecified_bind_addresses() {
    assert_eq!(browser_url("0.0.0.0:18080"), "http://127.0.0.1:18080");
    assert_eq!(browser_url("[::]:18080"), "http://[::1]:18080");
    assert_eq!(browser_url("127.0.0.1:18080"), "http://127.0.0.1:18080");
}

#[test]
fn engine_command_line_reads_limits_switches_and_profile() {
    let args = parse_engine_args(&strings(&[
        "--depth", "6", "--width", "12", "--no-root-profile", "--fast-history-ordering",
        "--tt-bits", "20", "--profile", "FAST", "--unknown",
    ]))
    .unwrap();
    assert_eq!(args.depth, Some(6));
    assert_eq!(args.width, Some(12));
    assert_eq!(args.root_profile, Some(false));
    assert_eq!(args.fast_history_ordering, Some(true));
    assert_eq!(args.tt_bits, Some(20));
    assert_eq!(args.profile, EngineProfile::Fast);

    let defaults = parse_engine_args(&Vec::new()).unwrap();
    assert_eq!(defaults.depth, None);
    assert_eq!(defaults.profile, EngineProfile::Base);

    // A value that is no number is consumed and ignored.
    let skipped = parse_engine_args(&strings(&["--depth", "deep", "--root-profile"])).unwrap();
    assert_eq!(skipped.depth, None);
    assert_eq!(skipped.root_profile, Some(true));
    // A missing value ends the line.
    assert_eq!(parse_engine_args(&strings(&["--width"])).unwrap().width, None);
}

#[test]
fn engine_command_line_rejects_bad_profiles() {
    assert_eq!(
        parse_engine_args(&strings(&["--profile"])),
        Err("--profile requires base or fast".to_string())
    );
    assert_eq!(
        parse_engine_args(&strings(&["--profile", "turbo"])),
        Err("unknown engine profile: turbo".to_string())
    );
}

#[test]
fn gui_command_line_reads_address_limits_and_browser_switch() {
    let args = parse_gui_args(&strings(&[
        "--addr", "0.0.0.0:9000", "--depth", "0", "--width", "-5", "--no-open-browser",
    ]));
    assert_eq!(args.addr, "0.0.0.0:9000");
    assert_eq!(args.depth, Some(1));
    assert_eq!(args.width, Some(1));
    assert!(!args.open_browser);

    let defaults = parse_gui_args(&Vec::new());
    assert_eq!(defaults.addr, DEFAULT_GUI_ADDR);
    assert_eq!(defaults.depth, None);
    assert!(defaults.open_browser);
    assert_eq!(parse_gui_args(&strings(&["--depth", "7"])).depth, Some(7));
}

#[test]
fn request_targets_split_into_path_and_parameters() {
    let (path, query) = split_target(&chars("/play?x=7&y=8"));
    assert_eq!(path, chars("/play"));
    assert_eq!(query, chars("x=7&y=8"));
    let (path, query) = split_target(&chars("/state"));
    assert_eq!(path, chars("/state"));
    assert!(query.is_empty());

    assert_eq!(query_param(&chars("x=7&y=8"), "y"), Some(chars("8")));
    assert_eq!(query_param(&chars("x=7&y=8&y=9"), "y"), Some(chars("8")));
    assert_eq!(query_param(&chars("flag&x=a=b"), "x"), Some(chars("a=b")));
    assert_eq!(query_param(&chars("x=7"), "z"), None);

    assert_eq!(parse_side(&chars("white")), Some(WHITE));
    assert_eq!(parse_side(&chars("-1")), Some(WHITE));
    assert_eq!(parse_side(&chars("1")), Some(BLACK));
    assert_eq!(parse_side(&chars("White")), None);
}

#[test]
fn gui_requests_are_read_from_the_first_line() {
    assert_eq!(parse_gui_request(""), None);
    assert_eq!(parse_gui_request("GET / HTTP/1.1\r\nHost: x\r\n\r\n"), Some(GuiRequest::Page));
    assert_eq!(parse_gui_request("GET /state HTTP/1.1\r\n"), Some(GuiRequest::State));
    assert_eq!(
        parse_gui_request("POST /new?side=white&rule=renju HTTP/1.1\r\n"),
        Some(GuiRequest::NewGame { side: WHITE, rule: RuleSet::Renju })
    );
    assert_eq!(
        parse_gui_request("POST /new HTTP/1.1\r\n"),
        Some(GuiRequest::NewGame { side: BLACK, rule: RuleSet::Freestyle })
    );
    assert_eq!(
        parse_gui_request("POST /play?x=7&y=ab HTTP/1.1\r\n"),
        Some(GuiRequest::Play { x: Some(7), y: None })
    );
    assert_eq!(parse_gui_request("POST /undo HTTP/1.1"), Some(GuiRequest::Undo));
    assert_eq!(
        parse_gui_request("POST /profile?value=fast HTTP/1.1\r\n"),
        Some(GuiRequest::Profile(Some(EngineProfile::Fast)))
    );
    assert_eq!(parse_gui_request("GET /new HTTP/1.1\r\n"), Some(GuiRequest::NotFound));
    assert_eq!(parse_gui_request("\r\n"), Some(GuiRequest::NotFound));
    assert_eq!(parse_gui_request("GET"), Some(GuiRequest::Page));
}

#[test]
fn gui_requests_drive_the_controller() {
    let mut controller = GameController::new(default_engine_settings());
    assert_eq!(
        apply_gui_request(
            &mut controller,
            GuiRequest::NewGame { side: WHITE, rule: RuleSet::Renju }
        ),
        GuiReply::Snapshot { start_engine: true }
    );
    assert_eq!(controller.snapshot().params.rule, "renju");

    assert!(controller.new_game(BLACK, RuleSet::Freestyle, rust_gomoku::game::GameMode::VsEngine));
    assert_eq!(
        apply_gui_request(&mut controller, GuiRequest::Play { x: Some(7), y: Some(7) }),
        GuiReply::Snapshot { start_engine: true }
    );
    assert_eq!(
        apply_gui_request(&mut controller, GuiRequest::Play { x: None, y: Some(7) }),
        GuiReply::Snapshot { start_engine: false }
    );
    assert_eq!(controller.snapshot().error.unwrap(), "缺少坐标。");
    apply_gui_request(&mut controller, GuiRequest::Profile(None));
    assert_eq!(controller.snapshot().error.unwrap(), "未知模式，请选择 base 或 fast。");
    apply_gui_request(&mut controller, GuiRequest::Undo);
    assert_eq!(controller.snapshot().move_count, 0);
    assert_eq!(apply_gui_request(&mut controller, GuiRequest::NotFound), GuiReply::NotFound);
    assert_eq!(apply_gui_request(&mut controller, GuiRequest::Page), GuiReply::Page);
}

#[test]
fn http_replies_carry_status_type_and_byte_length() {
    assert_eq!(
        text_response(404, "not found"),
        "HTTP/1.1 404 Not Found\r\nContent-Type: text/plain; charset=utf-8\r\nContent-Length: 9\r\nConnection: close\r\n\r\nnot found"
    );
    assert_eq!(
        html_response("黑"),
        "HTTP/1.1 200 OK\r\nContent-Type: text/html; charset=utf-8\r\nContent-Length: 3\r\nConnection: close\r\n\r\n黑"
    );
    assert_eq!(
        http_response(500, "a", ""),
        "HTTP/1.1 500 OK\r\nContent-Type: a\r\nContent-Length: 0\r\nConnection: close\r\n\r\n"
    );
}

#[test]
fn probe_command_line_needs_one_case_and_valid_numbers() {
    let args = parse_probe_args(&strings(&[
        "--case-json", "{}", "--profile", "fast", "--depth", "-3", "--width", "9", "--tt-bits", "12",
        "--root-profile", "--no-vct-strict-and-memo-key",
    ]))
    .unwrap();
    assert_eq!(args.case_json, Some("{}".to_string()));
    assert_eq!(args.case_path, None);
    assert_eq!(args.profile, EngineProfile::Fast);
    assert_eq!(args.depth, Some(-3));
    assert_eq!(args.width, Some(9));
    assert_eq!(args.tt_bits, Some(12));
    assert!(args.root_profile);
    assert_eq!(args.vct_strict_and_memo_key, Some(false));

    let failure = |a: &[&str]| parse_probe_args(&strings(a)).err().unwrap();
    assert_eq!(failure(&[]), "provide exactly one of --case or --case-json");
    assert_eq!(failure(&["--case", "a", "--case-json", "{}"]), "provide exactly one of --case or --case-json");
    assert_eq!(failure(&["--case"]), "--case requires a path");
    assert_eq!(failure(&["--case", "a", "--width", "-1"]), "invalid --width: -1");
    assert_eq!(failure(&["--case", "a", "--depth"]), "--depth requires an integer");
    assert_eq!(failure(&["--tt-bits", "x", "--case", "a"]), "invalid --tt-bits: x");
    assert_eq!(failure(&["--case", "a", "--profile", "slow"]), "unknown engine profile: slow");
    assert!(parse_probe_args(&strings(&["--case", "cases/a.json"])).is_ok());
}

#[test]
fn case_moves_replay_alternately_and_report_the_first_fault() {
    let mv = |x: i32, y: i32, side: Option<CaseSide>| CaseMove { x, y, side };
    let board = replay_case(
        &vec![mv(7, 7, Some(CaseSide::Black)), mv(8, 8, Some(CaseSide::Value(-1))), mv(9, 9, None)],
        Some(CaseSide::White),
    )
    .unwrap();
    assert_eq!(board.move_count(), 3);
    assert_eq!(board.side_to_move(), WHITE);

    let failure = |moves: Vec<CaseMove>, side: Option<CaseSide>| replay_case(&moves, side).err().unwrap();
    assert_eq!(failure(vec![mv(7, 7, Some(CaseSide::White))], None), "move 1 side does not alternate");
    assert_eq!(failure(vec![mv(7, 7, Some(CaseSide::Value(2)))], None), "invalid side value: 2");
    assert_eq!(failure(vec![mv(7, 7, None), mv(-1, 3, None)], None), "move 2 is out of bounds: [-1,3]");
    assert_eq!(failure(vec![mv(7, 7, None), mv(7, 7, None)], None), "move 2 is illegal: IllegalMove(112)");
    assert_eq!(
        failure(vec![mv(7, 7, None)], Some(CaseSide::Black)),
        "side_to_move black does not match 1 moves"
    );
    assert_eq!(CaseSide::Value(-1).to_side(), Ok(WHITE));
}

#[test]
fn rule_probe_command_line_is_exactly_the_case_file() {
    assert_eq!(
        parse_case_file_arg(&strings(&["--case-file", "fixtures.jsonl"])),
        Some("fixtures.jsonl".to_string())
    );
    assert_eq!(parse_case_file_arg(&strings(&["--case-file"])), None);
    assert_eq!(parse_case_file_arg(&strings(&["--case", "a"])), None);
    assert_eq!(parse_case_file_arg(&strings(&["--case-file", "a", "b"])), None);
}
