//! The command lines of the Gomocup engine and of the browser front end,
//! and the browser front end's requests and replies.
use vstd::prelude::*;
use vstd::string::{StringExecFns, StringSliceAdditionalSpecFns};

use crate::board::Board;
use crate::config::EngineProfile;
use crate::constants::{BLACK, WHITE};
use crate::protocol::tokens::{
    char_fields, copy_chars, fields, first_index_of, parse_i32_chars, parse_integer, parse_u32_chars,
    parse_usize_chars, split_once_at, split_words, views, words,
};
use crate::referee::{empty_position, play_checked, play_position, position_of, Position};
use crate::rules::RuleSet;
use crate::controller::{
    human_move_step, new_game_step, profile_step, rejected, text_of, undo_step, GameController,
};
use crate::game::GameMode;
use crate::text::{append_decimal, append_signed_decimal, chars_of, decimal_spec, signed_decimal_spec};
use crate::types::{Move, Side};

verus! {

/// `s` begins with `p`.
pub open spec fn begins_with(s: Seq<char>, p: Seq<char>) -> bool {
    p.len() <= s.len() && s.take(p.len() as int) == p
}

/// Whether `s` begins with `p`.
pub fn begins_with_text(s: &Vec<char>, p: &str) -> (b: bool)
    ensures
        b == begins_with(s@, p@),
{
    let pc = chars_of(p);
    if pc.len() > s.len() {
        return false;
    }
    let mut i: usize = 0;
    while i < pc.len()
        invariant
            pc@ == p@,
            pc@.len() <= s@.len(),
            i <= pc@.len(),
            forall|j: int| 0 <= j < i ==> s@[j] == #[trigger] pc@[j],
        decreases pc@.len() - i,
    {
        if s[i] != pc[i] {
            assert(s@.take(pc@.len() as int)[i as int] != pc@[i as int]);
            return false;
        }
        i = i + 1;
    }
    assert(s@.take(pc@.len() as int) =~= pc@);
    true
}

/// Whether `s` is `p`.
pub fn is_text(s: &Vec<char>, p: &str) -> (b: bool)
    ensures
        b == (s@ == p@),
{
    let pc = chars_of(p);
    if pc.len() != s.len() {
        return false;
    }
    let mut i: usize = 0;
    while i < pc.len()
        invariant
            pc@ == p@,
            pc@.len() == s@.len(),
            i <= pc@.len(),
            forall|j: int| 0 <= j < i ==> s@[j] == #[trigger] pc@[j],
        decreases pc@.len() - i,
    {
        if s[i] != pc[i] {
            return false;
        }
        i = i + 1;
    }
    assert(s@ =~= pc@);
    true
}

// ---------------------------------------------------------------------------
// The address the browser is sent to.
// ---------------------------------------------------------------------------

/// The page address for a server bound to `addr`: an unspecified bind
/// address is replaced by the loopback address of its family.
pub open spec fn browser_url_spec(addr: Seq<char>) -> Seq<char> {
    if begins_with(addr, "0.0.0.0:"@) {
        "http://127.0.0.1:"@ + addr.skip("0.0.0.0:"@.len() as int)
    } else if begins_with(addr, "[::]:"@) {
        "http://[::1]:"@ + addr.skip("[::]:"@.len() as int)
    } else {
        "http://"@ + addr
    }
}

pub fn browser_url(addr: &str) -> (url: String)
    ensures
        url@ == browser_url_spec(addr@),
{
    let cs = chars_of(addr);
    let n = cs.len();
    if begins_with_text(&cs, "0.0.0.0:") {
        let k = "0.0.0.0:".unicode_len();
        String::from_str("http://127.0.0.1:").concat(addr.substring_char(k, n))
    } else if begins_with_text(&cs, "[::]:") {
        let k = "[::]:".unicode_len();
        String::from_str("http://[::1]:").concat(addr.substring_char(k, n))
    } else {
        String::from_str("http://").concat(addr)
    }
}

// ---------------------------------------------------------------------------
// The engine's command line.
// ---------------------------------------------------------------------------

/// The engine's command-line settings.
#[derive(Clone, Copy, Debug, PartialEq, Eq, Structural)]
pub struct EngineArgs {
    pub depth: Option<i32>,
    pub width: Option<usize>,
    pub root_profile: Option<bool>,
    pub fast_history_ordering: Option<bool>,
    pub tt_bits: Option<u32>,
    pub profile: EngineProfile,
}

pub open spec fn arg_views(args: Seq<String>) -> Seq<Seq<char>> {
    args.map_values(|a: String| a@)
}

/// The settings from `args[i..]` on top of `acc`: `--depth`, `--width` and
/// `--tt-bits` take the next argument as a number and ignore it when it is
/// none; `--profile` needs a profile name; the switches set their flag;
/// anything else is skipped.
pub open spec fn engine_args_from(args: Seq<Seq<char>>, i: int, acc: EngineArgs) -> Result<EngineArgs, Seq<char>>
    decreases args.len() - i,
{
    if i < 0 || i >= args.len() {
        Ok(acc)
    } else {
        let a = args[i];
        let has_next = i + 1 < args.len();
        let next = args[i + 1];
        if a == "--depth"@ {
            if !has_next {
                Ok(acc)
            } else {
                let acc2 = match parse_integer(next, true, i32::MIN as int, i32::MAX as int) {
                    Some(v) => EngineArgs { depth: Some(v as i32), ..acc },
                    None => acc,
                };
                engine_args_from(args, i + 2, acc2)
            }
        } else if a == "--width"@ {
            if !has_next {
                Ok(acc)
            } else {
                let acc2 = match parse_integer(next, false, 0, usize::MAX as int) {
                    Some(v) => EngineArgs { width: Some(v as usize), ..acc },
                    None => acc,
                };
                engine_args_from(args, i + 2, acc2)
            }
        } else if a == "--root-profile"@ {
            engine_args_from(args, i + 1, EngineArgs { root_profile: Some(true), ..acc })
        } else if a == "--no-root-profile"@ {
            engine_args_from(args, i + 1, EngineArgs { root_profile: Some(false), ..acc })
        } else if a == "--fast-history-ordering"@ {
            engine_args_from(args, i + 1, EngineArgs { fast_history_ordering: Some(true), ..acc })
        } else if a == "--no-fast-history-ordering"@ {
            engine_args_from(args, i + 1, EngineArgs { fast_history_ordering: Some(false), ..acc })
        } else if a == "--tt-bits"@ {
            if !has_next {
                Ok(acc)
            } else {
                let acc2 = match parse_integer(next, false, 0, u32::MAX as int) {
                    Some(v) => EngineArgs { tt_bits: Some(v as u32), ..acc },
                    None => acc,
                };
                engine_args_from(args, i + 2, acc2)
            }
        } else if a == "--profile"@ {
            if !has_next {
                Err("--profile requires base or fast"@)
            } else {
                match EngineProfile::named(next) {
                    Some(p) => engine_args_from(args, i + 2, EngineArgs { profile: p, ..acc }),
                    None => Err("unknown engine profile"@ + ": "@ + next),
                }
            }
        } else {
            engine_args_from(args, i + 1, acc)
        }
    }
}

pub open spec fn default_engine_args() -> EngineArgs {
    EngineArgs {
        depth: None,
        width: None,
        root_profile: None,
        fast_history_ordering: None,
        tt_bits: None,
        profile: EngineProfile::Base,
    }
}

/// Reads the engine's command line (the arguments after the program name).
pub fn parse_engine_args(args: &Vec<String>) -> (r: Result<EngineArgs, String>)
    ensures
        match engine_args_from(arg_views(args@), 0, default_engine_args()) {
            Ok(a) => r == Ok::<EngineArgs, String>(a),
            Err(m) => r matches Err(e) && e@ == m,
        },
{
    let ghost views = arg_views(args@);
    let mut acc = EngineArgs {
        depth: None,
        width: None,
        root_profile: None,
        fast_history_ordering: None,
        tt_bits: None,
        profile: EngineProfile::Base,
    };
    let n = args.len();
    let mut i: usize = 0;
    while i < n
        invariant
            n == args@.len(),
            views == arg_views(args@),
            i <= n,
            engine_args_from(views, i as int, acc) == engine_args_from(views, 0, default_engine_args()),
        decreases n - i,
    {
        let a = chars_of(args[i].as_str());
        let has_next = i + 1 < n;
        assert(a@ == views[i as int]);
        if is_text(&a, "--depth") {
            if !has_next {
                return Ok(acc);
            }
            assert(views[i + 1] == args@[i + 1]@);
            match parse_i32_chars(&chars_of(args[i + 1].as_str())) {
                Some(v) => {
                    acc.depth = Some(v);
                },
                None => {},
            }
            i = i + 2;
        } else if is_text(&a, "--width") {
            if !has_next {
                return Ok(acc);
            }
            assert(views[i + 1] == args@[i + 1]@);
            match parse_usize_chars(&chars_of(args[i + 1].as_str())) {
                Some(v) => {
                    acc.width = Some(v);
                },
                None => {},
            }
            i = i + 2;
        } else if is_text(&a, "--root-profile") {
            acc.root_profile = Some(true);
            i = i + 1;
        } else if is_text(&a, "--no-root-profile") {
            acc.root_profile = Some(false);
            i = i + 1;
        } else if is_text(&a, "--fast-history-ordering") {
            acc.fast_history_ordering = Some(true);
            i = i + 1;
        } else if is_text(&a, "--no-fast-history-ordering") {
            acc.fast_history_ordering = Some(false);
            i = i + 1;
        } else if is_text(&a, "--tt-bits") {
            if !has_next {
                return Ok(acc);
            }
            assert(views[i + 1] == args@[i + 1]@);
            match parse_u32_chars(&chars_of(args[i + 1].as_str())) {
                Some(v) => {
                    acc.tt_bits = Some(v);
                },
                None => {},
            }
            i = i + 2;
        } else if is_text(&a, "--profile") {
            if !has_next {
                return Err(String::from_str("--profile requires base or fast"));
            }
            assert(views[i + 1] == args@[i + 1]@);
            match EngineProfile::parse(args[i + 1].as_str()) {
                Ok(p) => {
                    acc.profile = p;
                },
                Err(e) => {
                    return Err(e);
                },
            }
            i = i + 2;
        } else {
            i = i + 1;
        }
    }
    Ok(acc)
}

// ---------------------------------------------------------------------------
// The browser front end's command line.
// ---------------------------------------------------------------------------

pub const DEFAULT_GUI_ADDR: &'static str = "127.0.0.1:18080";

/// The browser front end's command-line settings.
pub struct GuiArgs {
    pub addr: String,
    pub depth: Option<i32>,
    pub width: Option<i32>,
    pub open_browser: bool,
}

/// The settings from `args[i..]` on top of `acc` (address, depth, width,
/// whether to open a browser): `--addr` takes the next argument, `--depth`
/// and `--width` the next as a number raised to at least one, ignored when
/// it is none; anything else but `--no-open-browser` is skipped.
pub open spec fn gui_args_from(
    args: Seq<Seq<char>>,
    i: int,
    acc: (Seq<char>, Option<i32>, Option<i32>, bool),
) -> (Seq<char>, Option<i32>, Option<i32>, bool)
    decreases args.len() - i,
{
    if i < 0 || i >= args.len() {
        acc
    } else {
        let a = args[i];
        let has_next = i + 1 < args.len();
        let next = args[i + 1];
        let at_least_one = |v: int| if v < 1 { 1i32 } else { v as i32 };
        if a == "--addr"@ {
            if has_next {
                gui_args_from(args, i + 2, (next, acc.1, acc.2, acc.3))
            } else {
                acc
            }
        } else if a == "--depth"@ {
            if has_next {
                let acc2 = match parse_integer(next, true, i32::MIN as int, i32::MAX as int) {
                    Some(v) => (acc.0, Some(at_least_one(v)), acc.2, acc.3),
                    None => acc,
                };
                gui_args_from(args, i + 2, acc2)
            } else {
                acc
            }
        } else if a == "--width"@ {
            if has_next {
                let acc2 = match parse_integer(next, true, i32::MIN as int, i32::MAX as int) {
                    Some(v) => (acc.0, acc.1, Some(at_least_one(v)), acc.3),
                    None => acc,
                };
                gui_args_from(args, i + 2, acc2)
            } else {
                acc
            }
        } else if a == "--no-open-browser"@ {
            gui_args_from(args, i + 1, (acc.0, acc.1, acc.2, false))
        } else {
            gui_args_from(args, i + 1, acc)
        }
    }
}

/// Reads the browser front end's command line (the arguments after the
/// program name).
pub fn parse_gui_args(args: &Vec<String>) -> (r: GuiArgs)
    ensures
        (r.addr@, r.depth, r.width, r.open_browser) == gui_args_from(
            arg_views(args@),
            0,
            (DEFAULT_GUI_ADDR@, None, None, true),
        ),
{
    let ghost views = arg_views(args@);
    let mut result = GuiArgs {
        addr: String::from_str(DEFAULT_GUI_ADDR),
        depth: None,
        width: None,
        open_browser: true,
    };
    let n = args.len();
    let mut i: usize = 0;
    while i < n
        invariant
            n == args@.len(),
            views == arg_views(args@),
            i <= n,
            gui_args_from(views, i as int, (result.addr@, result.depth, result.width, result.open_browser))
                == gui_args_from(views, 0, (DEFAULT_GUI_ADDR@, None, None, true)),
        decreases n - i,
    {
        let a = chars_of(args[i].as_str());
        let has_next = i + 1 < n;
        assert(a@ == views[i as int]);
        if is_text(&a, "--addr") {
            if !has_next {
                return result;
            }
            assert(views[i + 1] == args@[i + 1]@);
            result.addr = args[i + 1].clone();
            i = i + 2;
        } else if is_text(&a, "--depth") || is_text(&a, "--width") {
            if !has_next {
                return result;
            }
            assert(views[i + 1] == args@[i + 1]@);
            let is_depth = is_text(&a, "--depth");
            match parse_i32_chars(&chars_of(args[i + 1].as_str())) {
                Some(v) => {
                    let raised = if v < 1 {
                        1
                    } else {
                        v
                    };
                    if is_depth {
                        result.depth = Some(raised);
                    } else {
                        result.width = Some(raised);
                    }
                },
                None => {},
            }
            i = i + 2;
        } else if is_text(&a, "--no-open-browser") {
            result.open_browser = false;
            i = i + 1;
        } else {
            i = i + 1;
        }
    }
    result
}

// ---------------------------------------------------------------------------
// The browser front end's requests.
// ---------------------------------------------------------------------------

/// A request target split at its first `?` into path and query.
pub open spec fn split_target_spec(t: Seq<char>) -> (Seq<char>, Seq<char>) {
    let k = first_index_of(t, '?');
    if k < t.len() {
        (t.take(k), t.skip(k + 1))
    } else {
        (t, Seq::empty())
    }
}

pub fn split_target(target: &Vec<char>) -> (r: (Vec<char>, Vec<char>))
    ensures
        (r.0@, r.1@) == split_target_spec(target@),
{
    match split_once_at(target, '?') {
        Some(parts) => parts,
        None => (copy_chars(target), Vec::new()),
    }
}

/// The value of the first `key=value` piece among `parts[i..]` whose key is
/// `key`.
pub open spec fn param_in(parts: Seq<Seq<char>>, key: Seq<char>, i: int) -> Option<Seq<char>>
    decreases parts.len() - i,
{
    if i < 0 || i >= parts.len() {
        None
    } else {
        let p = parts[i];
        let k = first_index_of(p, '=');
        if k < p.len() && p.take(k) == key {
            Some(p.skip(k + 1))
        } else {
            param_in(parts, key, i + 1)
        }
    }
}

/// The value of `key` in a query of `&`-separated `key=value` pieces.
pub open spec fn query_param_spec(query: Seq<char>, key: Seq<char>) -> Option<Seq<char>> {
    param_in(fields(query, |c: char| c == '&'), key, 0)
}

pub fn query_param(query: &Vec<char>, key: &str) -> (r: Option<Vec<char>>)
    ensures
        match query_param_spec(query@, key@) {
            Some(v) => r matches Some(w) && w@ == v,
            None => r.is_none(),
        },
{
    let parts = char_fields(query, '&');
    let ghost ps = fields(query@, |c: char| c == '&');
    let n = parts.len();
    let mut i: usize = 0;
    while i < n
        invariant
            n == parts@.len(),
            views(parts@) == ps,
            ps == fields(query@, |c: char| c == '&'),
            i <= n,
            param_in(ps, key@, i as int) == query_param_spec(query@, key@),
        decreases n - i,
    {
        assert(ps[i as int] == parts@[i as int]@);
        match split_once_at(&parts[i], '=') {
            Some((k, v)) => {
                if is_text(&k, key) {
                    return Some(v);
                }
            },
            None => {},
        }
        i = i + 1;
    }
    None
}

/// The side a request names: `black` or `1`, `white` or `-1`.
pub open spec fn side_named(v: Seq<char>) -> Option<Side> {
    if v == "black"@ || v == "1"@ {
        Some(BLACK)
    } else if v == "white"@ || v == "-1"@ {
        Some(WHITE)
    } else {
        None
    }
}

pub fn parse_side(value: &Vec<char>) -> (r: Option<Side>)
    ensures
        r == side_named(value@),
{
    if is_text(value, "black") || is_text(value, "1") {
        Some(BLACK)
    } else if is_text(value, "white") || is_text(value, "-1") {
        Some(WHITE)
    } else {
        None
    }
}

/// What a request to the browser front end asks for.
#[derive(Clone, Copy, Debug, PartialEq, Eq, Structural)]
pub enum GuiRequest {
    /// The page itself.
    Page,
    /// The game state.
    State,
    /// A new game with the human on `side` under `rule`.
    NewGame { side: Side, rule: RuleSet },
    /// A human move; a coordinate is missing when it was not given as a
    /// number.
    Play { x: Option<usize>, y: Option<usize> },
    /// A take-back.
    Undo,
    /// A profile switch; none when the name is unknown.
    Profile(Option<EngineProfile>),
    /// Anything else.
    NotFound,
}

/// The words of a request's first line.
pub open spec fn request_line_words(req: Seq<char>) -> Seq<Seq<char>> {
    words(req.take(first_index_of(req, '\n')))
}

pub open spec fn number_param(query: Seq<char>, key: Seq<char>) -> Option<usize> {
    match query_param_spec(query, key) {
        Some(v) => match parse_integer(v, false, 0, usize::MAX as int) {
            Some(n) => Some(n as usize),
            None => None,
        },
        None => None,
    }
}

/// The request in `req`: none for an empty request; otherwise by the method
/// and path of its first line (the method missing, the target `/`).
pub open spec fn gui_request_spec(req: Seq<char>) -> Option<GuiRequest> {
    if req.len() == 0 {
        None
    } else {
        let ws = request_line_words(req);
        let method = if ws.len() > 0 {
            ws[0]
        } else {
            Seq::<char>::empty()
        };
        let target = if ws.len() > 1 {
            ws[1]
        } else {
            "/"@
        };
        let path = split_target_spec(target).0;
        let query = split_target_spec(target).1;
        Some(
            if method == "GET"@ && path == "/"@ {
                GuiRequest::Page
            } else if method == "GET"@ && path == "/state"@ {
                GuiRequest::State
            } else if method == "POST"@ && path == "/new"@ {
                GuiRequest::NewGame {
                    side: match query_param_spec(query, "side"@) {
                        Some(v) => match side_named(v) {
                            Some(side) => side,
                            None => BLACK,
                        },
                        None => BLACK,
                    },
                    rule: match query_param_spec(query, "rule"@) {
                        Some(v) => match RuleSet::named(v) {
                            Some(rule) => rule,
                            None => RuleSet::Freestyle,
                        },
                        None => RuleSet::Freestyle,
                    },
                }
            } else if method == "POST"@ && path == "/play"@ {
                GuiRequest::Play { x: number_param(query, "x"@), y: number_param(query, "y"@) }
            } else if method == "POST"@ && path == "/undo"@ {
                GuiRequest::Undo
            } else if method == "POST"@ && path == "/profile"@ {
                GuiRequest::Profile(
                    match query_param_spec(query, "value"@) {
                        Some(v) => EngineProfile::named(v),
                        None => None,
                    },
                )
            } else {
                GuiRequest::NotFound
            },
        )
    }
}

fn number_param_of(query: &Vec<char>, key: &str) -> (r: Option<usize>)
    ensures
        r == number_param(query@, key@),
{
    match query_param(query, key) {
        Some(v) => parse_usize_chars(&v),
        None => None,
    }
}

/// Reads a request to the browser front end.
pub fn parse_gui_request(request: &str) -> (r: Option<GuiRequest>)
    ensures
        r == gui_request_spec(request@),
{
    let text = chars_of(request);
    if text.len() == 0 {
        return None;
    }
    let line = match split_once_at(&text, '\n') {
        Some((first, _)) => first,
        None => {
            assert(text@.take(text@.len() as int) =~= text@);
            copy_chars(&text)
        },
    };
    let ws = split_words(&line);
    assert(views(ws@) == request_line_words(request@));
    let method: Vec<char> = if ws.len() > 0 {
        copy_chars(&ws[0])
    } else {
        Vec::new()
    };
    let target: Vec<char> = if ws.len() > 1 {
        copy_chars(&ws[1])
    } else {
        chars_of("/")
    };
    proof {
        if ws@.len() > 0 {
            assert(views(ws@)[0] == ws@[0]@);
        }
        if ws@.len() > 1 {
            assert(views(ws@)[1] == ws@[1]@);
        }
    }
    let (path, query) = split_target(&target);
    let get = is_text(&method, "GET");
    let post = is_text(&method, "POST");
    let request = if get && is_text(&path, "/") {
        GuiRequest::Page
    } else if get && is_text(&path, "/state") {
        GuiRequest::State
    } else if post && is_text(&path, "/new") {
        let side = match query_param(&query, "side") {
            Some(v) => match parse_side(&v) {
                Some(side) => side,
                None => BLACK,
            },
            None => BLACK,
        };
        let rule = match query_param(&query, "rule") {
            Some(v) => match RuleSet::from_chars(&v) {
                Some(rule) => rule,
                None => RuleSet::Freestyle,
            },
            None => RuleSet::Freestyle,
        };
        GuiRequest::NewGame { side, rule }
    } else if post && is_text(&path, "/play") {
        GuiRequest::Play { x: number_param_of(&query, "x"), y: number_param_of(&query, "y") }
    } else if post && is_text(&path, "/undo") {
        GuiRequest::Undo
    } else if post && is_text(&path, "/profile") {
        GuiRequest::Profile(
            match query_param(&query, "value") {
                Some(v) => EngineProfile::from_chars(&v),
                None => None,
            },
        )
    } else {
        GuiRequest::NotFound
    };
    Some(request)
}

/// What the browser front end answers after a request.
#[derive(Clone, Copy, Debug, PartialEq, Eq, Structural)]
pub enum GuiReply {
    /// The page itself.
    Page,
    /// The game state; the engine is to be started first when asked.
    Snapshot { start_engine: bool },
    /// Not found.
    NotFound,
}

/// Carries out a request on the controller.
pub fn apply_gui_request(controller: &mut GameController, request: GuiRequest) -> (reply: GuiReply)
    requires
        old(controller).wf(),
    ensures
        final(controller).wf(),
        match request {
            GuiRequest::Page => *final(controller) == *old(controller) && reply == GuiReply::Page,
            GuiRequest::State => *final(controller) == *old(controller) && reply == (GuiReply::Snapshot {
                start_engine: false,
            }),
            GuiRequest::NewGame { side, rule } => {
                &&& new_game_step(
                    *old(controller),
                    side,
                    rule,
                    GameMode::VsEngine,
                    *final(controller),
                    side == BLACK || side == WHITE,
                )
                &&& reply == (GuiReply::Snapshot { start_engine: side == WHITE })
            },
            GuiRequest::Play { x, y } => match (x, y) {
                (Some(x), Some(y)) => reply matches GuiReply::Snapshot { start_engine } && human_move_step(
                    *old(controller),
                    x as int,
                    y as int,
                    *final(controller),
                    start_engine,
                ),
                _ => rejected(*old(controller), *final(controller), "缺少坐标。"@) && reply == (
                GuiReply::Snapshot { start_engine: false }),
            },
            GuiRequest::Undo => undo_step(*old(controller), *final(controller)) && reply == (
            GuiReply::Snapshot { start_engine: false }),
            GuiRequest::Profile(Some(profile)) => profile_step(*old(controller), profile, *final(controller))
                && reply == (GuiReply::Snapshot { start_engine: false }),
            GuiRequest::Profile(None) => rejected(
                *old(controller),
                *final(controller),
                "未知模式，请选择 base 或 fast。"@,
            ) && reply == (GuiReply::Snapshot { start_engine: false }),
            GuiRequest::NotFound => *final(controller) == *old(controller) && reply == GuiReply::NotFound,
        },
{
    match request {
        GuiRequest::Page => GuiReply::Page,
        GuiRequest::State => GuiReply::Snapshot { start_engine: false },
        GuiRequest::NewGame { side, rule } => {
            controller.new_game(side, rule, GameMode::VsEngine);
            GuiReply::Snapshot { start_engine: side == WHITE }
        },
        GuiRequest::Play { x, y } => {
            let start_engine = match (x, y) {
                (Some(x), Some(y)) => controller.play_human(x, y),
                _ => {
                    controller.set_error(String::from_str("缺少坐标。"));
                    false
                },
            };
            GuiReply::Snapshot { start_engine }
        },
        GuiRequest::Undo => {
            controller.undo_turn();
            GuiReply::Snapshot { start_engine: false }
        },
        GuiRequest::Profile(profile) => {
            match profile {
                Some(profile) => controller.set_profile(profile),
                None => controller.set_error(String::from_str("未知模式，请选择 base 或 fast。")),
            }
            GuiReply::Snapshot { start_engine: false }
        },
        GuiRequest::NotFound => GuiReply::NotFound,
    }
}

// ---------------------------------------------------------------------------
// Replies over HTTP.
// ---------------------------------------------------------------------------

pub open spec fn reason_phrase(status: u16) -> Seq<char> {
    if status == 404 {
        "Not Found"@
    } else {
        "OK"@
    }
}

/// An HTTP/1.1 reply with the given status, content type and body; the
/// length is the body's length in bytes (`str::len`).
pub open spec fn http_response_spec(status: u16, content_type: Seq<char>, body: &str) -> Seq<char> {
    "HTTP/1.1 "@ + decimal_spec(status as nat) + " "@ + reason_phrase(status) + "\r\nContent-Type: "@
        + content_type + "\r\nContent-Length: "@ + decimal_spec(body.len() as nat)
        + "\r\nConnection: close\r\n\r\n"@ + body@
}

pub fn http_response(status: u16, content_type: &str, body: &str) -> (r: String)
    ensures
        r@ == http_response_spec(status, content_type@, body),
{
    let reason = if status == 404 {
        "Not Found"
    } else {
        "OK"
    };
    let mut r = String::from_str("HTTP/1.1 ");
    append_decimal(&mut r, status as u64);
    r.append(" ");
    r.append(reason);
    r.append("\r\nContent-Type: ");
    r.append(content_type);
    r.append("\r\nContent-Length: ");
    append_decimal(&mut r, body.len() as u64);
    r.append("\r\nConnection: close\r\n\r\n");
    r.append(body);
    r
}

pub fn html_response(body: &str) -> (r: String)
    ensures
        r@ == http_response_spec(200, "text/html; charset=utf-8"@, body),
{
    http_response(200, "text/html; charset=utf-8", body)
}

pub fn json_response(body: &str) -> (r: String)
    ensures
        r@ == http_response_spec(200, "application/json; charset=utf-8"@, body),
{
    http_response(200, "application/json; charset=utf-8", body)
}

pub fn text_response(status: u16, body: &str) -> (r: String)
    ensures
        r@ == http_response_spec(status, "text/plain; charset=utf-8"@, body),
{
    http_response(status, "text/plain; charset=utf-8", body)
}

// ---------------------------------------------------------------------------
// The search probe's command line.
// ---------------------------------------------------------------------------

/// The search probe's command-line settings: the case (a file or the JSON
/// text itself), the profile, the limits and the switches.
pub struct ProbeArgs {
    pub case_path: Option<String>,
    pub case_json: Option<String>,
    pub profile: EngineProfile,
    pub depth: Option<i32>,
    pub width: Option<usize>,
    pub tt_bits: Option<u32>,
    pub root_profile: bool,
    pub vct_strict_and_memo_key: Option<bool>,
}

pub ghost struct ProbeArgsModel {
    pub case_path: Option<Seq<char>>,
    pub case_json: Option<Seq<char>>,
    pub profile: EngineProfile,
    pub depth: Option<i32>,
    pub width: Option<usize>,
    pub tt_bits: Option<u32>,
    pub root_profile: bool,
    pub vct_strict_and_memo_key: Option<bool>,
}

impl ProbeArgs {
    pub open spec fn model(&self) -> ProbeArgsModel {
        ProbeArgsModel {
            case_path: text_of(self.case_path),
            case_json: text_of(self.case_json),
            profile: self.profile,
            depth: self.depth,
            width: self.width,
            tt_bits: self.tt_bits,
            root_profile: self.root_profile,
            vct_strict_and_memo_key: self.vct_strict_and_memo_key,
        }
    }
}

pub open spec fn default_probe_args() -> ProbeArgsModel {
    ProbeArgsModel {
        case_path: None,
        case_json: None,
        profile: EngineProfile::Base,
        depth: None,
        width: None,
        tt_bits: None,
        root_profile: false,
        vct_strict_and_memo_key: None,
    }
}

/// The settings from `args[i..]` on top of `acc`: an option that takes a
/// value fails without one, and a number option fails on a value that is
/// no number of its type; anything unknown is skipped. At the end exactly
/// one of `--case` and `--case-json` must have been given.
pub open spec fn probe_args_from(args: Seq<Seq<char>>, i: int, acc: ProbeArgsModel) -> Result<ProbeArgsModel, Seq<char>>
    decreases args.len() - i,
{
    if i < 0 || i >= args.len() {
        if acc.case_path.is_some() == acc.case_json.is_some() {
            Err("provide exactly one of --case or --case-json"@)
        } else {
            Ok(acc)
        }
    } else {
        let a = args[i];
        let has_next = i + 1 < args.len();
        let v = args[i + 1];
        if a == "--case"@ {
            if !has_next {
                Err("--case requires a path"@)
            } else {
                probe_args_from(args, i + 2, ProbeArgsModel { case_path: Some(v), ..acc })
            }
        } else if a == "--case-json"@ {
            if !has_next {
                Err("--case-json requires a JSON object"@)
            } else {
                probe_args_from(args, i + 2, ProbeArgsModel { case_json: Some(v), ..acc })
            }
        } else if a == "--profile"@ {
            if !has_next {
                Err("--profile requires base or fast"@)
            } else {
                match EngineProfile::named(v) {
                    Some(p) => probe_args_from(args, i + 2, ProbeArgsModel { profile: p, ..acc }),
                    None => Err("unknown engine profile"@ + ": "@ + v),
                }
            }
        } else if a == "--depth"@ {
            if !has_next {
                Err("--depth requires an integer"@)
            } else {
                match parse_integer(v, true, i32::MIN as int, i32::MAX as int) {
                    Some(n) => probe_args_from(args, i + 2, ProbeArgsModel { depth: Some(n as i32), ..acc }),
                    None => Err("invalid --depth: "@ + v),
                }
            }
        } else if a == "--width"@ {
            if !has_next {
                Err("--width requires an integer"@)
            } else {
                match parse_integer(v, false, 0, usize::MAX as int) {
                    Some(n) => probe_args_from(args, i + 2, ProbeArgsModel { width: Some(n as usize), ..acc }),
                    None => Err("invalid --width: "@ + v),
                }
            }
        } else if a == "--tt-bits"@ {
            if !has_next {
                Err("--tt-bits requires an integer"@)
            } else {
                match parse_integer(v, false, 0, u32::MAX as int) {
                    Some(n) => probe_args_from(args, i + 2, ProbeArgsModel { tt_bits: Some(n as u32), ..acc }),
                    None => Err("invalid --tt-bits: "@ + v),
                }
            }
        } else if a == "--root-profile"@ {
            probe_args_from(args, i + 1, ProbeArgsModel { root_profile: true, ..acc })
        } else if a == "--vct-strict-and-memo-key"@ {
            probe_args_from(args, i + 1, ProbeArgsModel { vct_strict_and_memo_key: Some(true), ..acc })
        } else if a == "--no-vct-strict-and-memo-key"@ {
            probe_args_from(args, i + 1, ProbeArgsModel { vct_strict_and_memo_key: Some(false), ..acc })
        } else {
            probe_args_from(args, i + 1, acc)
        }
    }
}

/// Reads the search probe's command line (the arguments after the program
/// name).
pub fn parse_probe_args(args: &Vec<String>) -> (r: Result<ProbeArgs, String>)
    ensures
        match probe_args_from(arg_views(args@), 0, default_probe_args()) {
            Ok(m) => r matches Ok(a) && a.model() == m,
            Err(m) => r matches Err(e) && e@ == m,
        },
{
    let ghost views = arg_views(args@);
    let mut acc = ProbeArgs {
        case_path: None,
        case_json: None,
        profile: EngineProfile::Base,
        depth: None,
        width: None,
        tt_bits: None,
        root_profile: false,
        vct_strict_and_memo_key: None,
    };
    let n = args.len();
    let mut i: usize = 0;
    while i < n
        invariant
            n == args@.len(),
            views == arg_views(args@),
            i <= n,
            probe_args_from(views, i as int, acc.model()) == probe_args_from(views, 0, default_probe_args()),
        decreases n - i,
    {
        let a = chars_of(args[i].as_str());
        let has_next = i + 1 < n;
        assert(a@ == views[i as int]);
        if is_text(&a, "--case") {
            if !has_next {
                return Err(String::from_str("--case requires a path"));
            }
            assert(views[i + 1] == args@[i + 1]@);
            acc.case_path = Some(args[i + 1].clone());
            i = i + 2;
        } else if is_text(&a, "--case-json") {
            if !has_next {
                return Err(String::from_str("--case-json requires a JSON object"));
            }
            assert(views[i + 1] == args@[i + 1]@);
            acc.case_json = Some(args[i + 1].clone());
            i = i + 2;
        } else if is_text(&a, "--profile") {
            if !has_next {
                return Err(String::from_str("--profile requires base or fast"));
            }
            assert(views[i + 1] == args@[i + 1]@);
            match EngineProfile::parse(args[i + 1].as_str()) {
                Ok(p) => {
                    acc.profile = p;
                },
                Err(e) => {
                    return Err(e);
                },
            }
            i = i + 2;
        } else if is_text(&a, "--depth") {
            if !has_next {
                return Err(String::from_str("--depth requires an integer"));
            }
            assert(views[i + 1] == args@[i + 1]@);
            match parse_i32_chars(&chars_of(args[i + 1].as_str())) {
                Some(v) => {
                    acc.depth = Some(v);
                },
                None => {
                    return Err(String::from_str("invalid --depth: ").concat(args[i + 1].as_str()));
                },
            }
            i = i + 2;
        } else if is_text(&a, "--width") {
            if !has_next {
                return Err(String::from_str("--width requires an integer"));
            }
            assert(views[i + 1] == args@[i + 1]@);
            match parse_usize_chars(&chars_of(args[i + 1].as_str())) {
                Some(v) => {
                    acc.width = Some(v);
                },
                None => {
                    return Err(String::from_str("invalid --width: ").concat(args[i + 1].as_str()));
                },
            }
            i = i + 2;
        } else if is_text(&a, "--tt-bits") {
            if !has_next {
                return Err(String::from_str("--tt-bits requires an integer"));
            }
            assert(views[i + 1] == args@[i + 1]@);
            match parse_u32_chars(&chars_of(args[i + 1].as_str())) {
                Some(v) => {
                    acc.tt_bits = Some(v);
                },
                None => {
                    return Err(String::from_str("invalid --tt-bits: ").concat(args[i + 1].as_str()));
                },
            }
            i = i + 2;
        } else if is_text(&a, "--root-profile") {
            acc.root_profile = true;
            i = i + 1;
        } else if is_text(&a, "--vct-strict-and-memo-key") {
            acc.vct_strict_and_memo_key = Some(true);
            i = i + 1;
        } else if is_text(&a, "--no-vct-strict-and-memo-key") {
            acc.vct_strict_and_memo_key = Some(false);
            i = i + 1;
        } else {
            i = i + 1;
        }
    }
    if acc.case_path.is_some() == acc.case_json.is_some() {
        return Err(String::from_str("provide exactly one of --case or --case-json"));
    }
    Ok(acc)
}

// ---------------------------------------------------------------------------
// The search probe's cases.
// ---------------------------------------------------------------------------

/// A side as a case gives it: by name or by value.
#[derive(Clone, Copy, Debug, PartialEq, Eq, Structural)]
pub enum CaseSide {
    Black,
    White,
    Value(i8),
}

/// The side a case names: black is `Black` or 1, white `White` or -1.
pub open spec fn case_side(s: CaseSide) -> Result<Side, Seq<char>> {
    match s {
        CaseSide::Black => Ok(BLACK),
        CaseSide::White => Ok(WHITE),
        CaseSide::Value(v) => if v == BLACK {
            Ok(BLACK)
        } else if v == WHITE {
            Ok(WHITE)
        } else {
            Err("invalid side value: "@ + signed_decimal_spec(v as int))
        },
    }
}

impl CaseSide {
    pub fn to_side(self) -> (r: Result<Side, String>)
        ensures
            match case_side(self) {
                Ok(side) => r == Ok::<Side, String>(side),
                Err(m) => r matches Err(e) && e@ == m,
            },
    {
        match self {
            CaseSide::Black => Ok(BLACK),
            CaseSide::White => Ok(WHITE),
            CaseSide::Value(v) => {
                if v == BLACK {
                    Ok(BLACK)
                } else if v == WHITE {
                    Ok(WHITE)
                } else {
                    let mut m = String::from_str("invalid side value: ");
                    append_signed_decimal(&mut m, v as i64);
                    Err(m)
                }
            },
        }
    }
}

/// A move of a case: its point, and the side that plays it if the case
/// says.
#[derive(Clone, Copy, Debug, PartialEq, Eq, Structural)]
pub struct CaseMove {
    pub x: i32,
    pub y: i32,
    pub side: Option<CaseSide>,
}

pub open spec fn alternate_side(i: int) -> Side {
    if i % 2 == 0 {
        BLACK
    } else {
        WHITE
    }
}

pub open spec fn side_word(side: Side) -> Seq<char> {
    if side == BLACK {
        "black"@
    } else {
        "white"@
    }
}

/// Replaying the case moves `moves[i..]` from `p` with freestyle play, black
/// first: the position reached or the message of the first move that fails
/// (a side out of turn, a point off the board or a refused play).
pub open spec fn case_replay_from(p: Position, moves: Seq<CaseMove>, i: int) -> Result<Position, Seq<char>>
    decreases moves.len() - i,
{
    if i < 0 || i >= moves.len() {
        Ok(p)
    } else {
        let mv = moves[i];
        let expected = alternate_side(i);
        let number = decimal_spec((i + 1) as nat);
        let side_check: Result<(), Seq<char>> = match mv.side {
            Some(s) => match case_side(s) {
                Err(m) => Err(m),
                Ok(given) => if given != expected {
                    Err("move "@ + number + " side does not alternate"@)
                } else {
                    Ok(())
                },
            },
            None => Ok(()),
        };
        match side_check {
            Err(m) => Err(m),
            Ok(_) => if !(0 <= mv.x < 15 && 0 <= mv.y < 15) {
                Err(
                    "move "@ + number + " is out of bounds: ["@ + signed_decimal_spec(mv.x as int) + ","@
                        + signed_decimal_spec(mv.y as int) + "]"@,
                )
            } else {
                match play_position(p, (mv.y * 15 + mv.x) as Move, expected, RuleSet::Freestyle) {
                    Err(e) => Err("move "@ + number + " is illegal: "@ + e.debug_spec()),
                    Ok(next) => case_replay_from(next, moves, i + 1),
                }
            },
        }
    }
}

/// The position of a case: its moves replayed, then the side to move it
/// states checked against the number of moves.
pub open spec fn case_position(moves: Seq<CaseMove>, side_to_move: Option<CaseSide>) -> Result<Position, Seq<char>> {
    match case_replay_from(empty_position(), moves, 0) {
        Err(m) => Err(m),
        Ok(p) => match side_to_move {
            None => Ok(p),
            Some(s) => match case_side(s) {
                Err(m) => Err(m),
                Ok(given) => if given != alternate_side(moves.len() as int) {
                    Err(
                        "side_to_move "@ + side_word(given) + " does not match "@ + decimal_spec(
                            moves.len(),
                        ) + " moves"@,
                    )
                } else {
                    Ok(p)
                },
            },
        },
    }
}

/// Sets up the board of a case.
pub fn replay_case(moves: &Vec<CaseMove>, side_to_move: Option<CaseSide>) -> (r: Result<Board, String>)
    ensures
        match case_position(moves@, side_to_move) {
            Ok(p) => r matches Ok(b) && b.wf() && position_of(b@) == p && b@.history.len() == moves@.len(),
            Err(m) => r matches Err(e) && e@ == m,
        },
{
    let mut board = Board::new();
    assert(position_of(board@) == empty_position());
    let n = moves.len();
    let mut i: usize = 0;
    while i < n
        invariant
            board.wf(),
            n == moves@.len(),
            i <= n,
            board@.history.len() == i,
            case_replay_from(position_of(board@), moves@, i as int) == case_replay_from(
                empty_position(),
                moves@,
                0,
            ),
        decreases n - i,
    {
        let mv = moves[i];
        let expected: Side = if i % 2 == 0 {
            BLACK
        } else {
            WHITE
        };
        match mv.side {
            Some(s) => {
                let given = match s.to_side() {
                    Ok(side) => side,
                    Err(m) => {
                        return Err(m);
                    },
                };
                if given != expected {
                    let mut m = String::from_str("move ");
                    append_decimal(&mut m, (i + 1) as u64);
                    m.append(" side does not alternate");
                    return Err(m);
                }
            },
            None => {},
        }
        if mv.x < 0 || mv.y < 0 || mv.x >= 15 || mv.y >= 15 {
            let mut m = String::from_str("move ");
            append_decimal(&mut m, (i + 1) as u64);
            m.append(" is out of bounds: [");
            append_signed_decimal(&mut m, mv.x as i64);
            m.append(",");
            append_signed_decimal(&mut m, mv.y as i64);
            m.append("]");
            return Err(m);
        }
        let point = (mv.y * 15 + mv.x) as Move;
        match play_checked(&mut board, point, expected, RuleSet::Freestyle) {
            Ok(()) => {},
            Err(err) => {
                let mut m = String::from_str("move ");
                append_decimal(&mut m, (i + 1) as u64);
                m.append(" is illegal: ");
                let m = m.concat(err.debug_text().as_str());
                return Err(m);
            },
        }
        i = i + 1;
    }
    match side_to_move {
        Some(s) => {
            let given = match s.to_side() {
                Ok(side) => side,
                Err(m) => {
                    return Err(m);
                },
            };
            let expected: Side = if n % 2 == 0 {
                BLACK
            } else {
                WHITE
            };
            if given != expected {
                let mut m = String::from_str("side_to_move ");
                m.append(if given == BLACK {
                    "black"
                } else {
                    "white"
                });
                m.append(" does not match ");
                append_decimal(&mut m, n as u64);
                m.append(" moves");
                return Err(m);
            }
        },
        None => {},
    }
    Ok(board)
}

// ---------------------------------------------------------------------------
// The rule probe's command line.
// ---------------------------------------------------------------------------

/// The fixture file of the rule probe's command line, which must be exactly
/// `--case-file` and a path.
pub open spec fn case_file_arg_spec(args: Seq<Seq<char>>) -> Option<Seq<char>> {
    if args.len() == 2 && args[0] == "--case-file"@ {
        Some(args[1])
    } else {
        None
    }
}

pub fn parse_case_file_arg(args: &Vec<String>) -> (r: Option<String>)
    ensures
        text_of(r) == case_file_arg_spec(arg_views(args@)),
{
    if args.len() != 2 {
        return None;
    }
    let flag = chars_of(args[0].as_str());
    assert(arg_views(args@)[0] == args@[0]@);
    assert(arg_views(args@)[1] == args@[1]@);
    if !is_text(&flag, "--case-file") {
        return None;
    }
    Some(args[1].clone())
}

} // verus!
