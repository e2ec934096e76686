//! Engine configuration: profiles, runtime options and root search defaults.
use vstd::prelude::*;

use crate::rules::RuleSet;
use crate::text::{chars_of, is_lower_word, matches_lower, unknown_name_message};

verus! {

pub const DEFAULT_ENGINE_PROFILE: EngineProfile = EngineProfile::Base;

pub const DEFAULT_RULE_SET: RuleSet = RuleSet::Freestyle;

pub const DEFAULT_SEARCH_DEPTH: i32 = 8;

pub const DEFAULT_SEARCH_WIDTH: i32 = 40;

pub const DEFAULT_TIMED_SEARCH_MAX_DEPTH: i32 = 25;

pub const DEFAULT_TIMED_SEARCH_MAX_WIDTH: i32 = DEFAULT_SEARCH_WIDTH;

pub const DEFAULT_CHILD_WIDTH_RATIO_NUM: i32 = 1;

pub const DEFAULT_CHILD_WIDTH_RATIO_DEN: i32 = 1;

pub const DEFAULT_DYNAMIC_BOARD_MARGIN: i32 = 4;

pub const DEFAULT_ROOT_VCF_DEPTH: i32 = 8;

pub const DEFAULT_OPPONENT_VCF_DEPTH: i32 = 7;

pub const DEFAULT_VCT_VERIFY_OPPONENT_VCF_DEPTH: i32 = 4;

pub const DEFAULT_VCF_MULTI_REPLY: bool = true;

pub const DEFAULT_ROOT_VCT_DEPTH: i32 = 4;

pub const DEFAULT_VCT_STRICT_AND_MEMO_KEY: bool = true;

pub const DEFAULT_ROOT_PROFILE: bool = false;

pub const DEFAULT_OVERLAP_VCT_ALPHABETA: bool = false;

pub const DEFAULT_FAST_HISTORY_ORDERING: bool = false;

pub const DEFAULT_FAST_PROFILE_HISTORY_ORDERING: bool = true;

pub const DEFAULT_FAST_KILLER_BONUS: i32 = 512;

pub const DEFAULT_FAST_HISTORY_BONUS_SCALE: i32 = 4;

pub const DEFAULT_FAST_HISTORY_BONUS_CAP: i32 = 1_024;

#[derive(Clone, Copy, Debug, PartialEq, Eq, Structural)]
pub enum EngineProfile {
    Base,
    Fast,
}

impl EngineProfile {
    pub fn as_str(self) -> (s: &'static str)
        ensures
            self == EngineProfile::Base ==> s@ == "base"@,
            self == EngineProfile::Fast ==> s@ == "fast"@,
    {
        match self {
            EngineProfile::Base => "base",
            EngineProfile::Fast => "fast",
        }
    }

    /// A profile by name, ignoring ASCII case: `base` (also `classic` and
    /// `classic/base`) or `fast`.
    pub open spec fn named(raw: Seq<char>) -> Option<EngineProfile> {
        if matches_lower(raw, "base"@) || matches_lower(raw, "classic"@) || matches_lower(raw, "classic/base"@) {
            Some(EngineProfile::Base)
        } else if matches_lower(raw, "fast"@) {
            Some(EngineProfile::Fast)
        } else {
            None
        }
    }

    /// The profile named by the characters `raw`.
    pub fn from_chars(raw: &Vec<char>) -> (r: Option<EngineProfile>)
        ensures
            r == EngineProfile::named(raw@),
    {
        if is_lower_word(raw, "base") || is_lower_word(raw, "classic") || is_lower_word(raw, "classic/base") {
            Some(EngineProfile::Base)
        } else if is_lower_word(raw, "fast") {
            Some(EngineProfile::Fast)
        } else {
            None
        }
    }

    /// The profile named by `raw`, or a message naming what was given.
    pub fn parse(raw: &str) -> (r: Result<EngineProfile, String>)
        ensures
            match EngineProfile::named(raw@) {
                Some(profile) => r == Ok::<EngineProfile, String>(profile),
                None => r matches Err(m) && m@ == "unknown engine profile"@ + ": "@ + raw@,
            },
    {
        match EngineProfile::from_chars(&chars_of(raw)) {
            Some(profile) => Ok(profile),
            None => Err(unknown_name_message("unknown engine profile", raw)),
        }
    }
}

impl std::str::FromStr for EngineProfile {
    type Err = String;

    fn from_str(raw: &str) -> (r: Result<Self, Self::Err>)
        ensures
            match EngineProfile::named(raw@) {
                Some(profile) => r == Ok::<EngineProfile, String>(profile),
                None => r matches Err(m) && m@ == "unknown engine profile"@ + ": "@ + raw@,
            },
    {
        EngineProfile::parse(raw)
    }
}

#[derive(Clone, Copy, Debug, PartialEq, Eq, Structural)]
pub struct RuntimeOptions {
    pub read_config_each_move: bool,
    pub compute_vcf: bool,
    pub root_vcf_depth: i32,
    pub opponent_vcf_depth: i32,
    pub vct_verify_opponent_vcf_depth: i32,
    pub vcf_multi_reply: bool,
    pub nonroot_vcf: bool,
    pub static_board: bool,
    pub dynamic_board_margin: i32,
    pub compute_vct: bool,
    pub root_vct_depth: i32,
    pub vct_strict_and_memo_key: bool,
    pub overlap_vct_alphabeta: bool,
    pub fast_history_ordering: bool,
    pub fast_killer_bonus: i32,
    pub fast_history_bonus_scale: i32,
    pub fast_history_bonus_cap: i32,
    /// Optional root candidate timing probe. Defaults to off and must not
    /// affect search decisions.
    pub root_profile: bool,
}

#[derive(Clone, Copy, Debug, PartialEq, Eq, Structural)]
pub struct RootSearchDefaults {
    pub depth: i32,
    pub wide: i32,
    pub timed_max_depth: i32,
    pub timed_max_wide: i32,
    pub ratio_num: i32,
    pub ratio_den: i32,
}

pub open spec fn default_runtime_spec(read_config_each_move: bool) -> RuntimeOptions {
    RuntimeOptions {
        read_config_each_move,
        compute_vcf: true,
        root_vcf_depth: DEFAULT_ROOT_VCF_DEPTH,
        opponent_vcf_depth: DEFAULT_OPPONENT_VCF_DEPTH,
        vct_verify_opponent_vcf_depth: DEFAULT_VCT_VERIFY_OPPONENT_VCF_DEPTH,
        vcf_multi_reply: DEFAULT_VCF_MULTI_REPLY,
        nonroot_vcf: false,
        static_board: true,
        dynamic_board_margin: DEFAULT_DYNAMIC_BOARD_MARGIN,
        compute_vct: true,
        root_vct_depth: DEFAULT_ROOT_VCT_DEPTH,
        vct_strict_and_memo_key: DEFAULT_VCT_STRICT_AND_MEMO_KEY,
        overlap_vct_alphabeta: DEFAULT_OVERLAP_VCT_ALPHABETA,
        fast_history_ordering: DEFAULT_FAST_HISTORY_ORDERING,
        fast_killer_bonus: DEFAULT_FAST_KILLER_BONUS,
        fast_history_bonus_scale: DEFAULT_FAST_HISTORY_BONUS_SCALE,
        fast_history_bonus_cap: DEFAULT_FAST_HISTORY_BONUS_CAP,
        root_profile: DEFAULT_ROOT_PROFILE,
    }
}

/// The default runtime options; whether the configuration is re-read before
/// every move comes from the bundled parameters.
pub fn default_runtime_options(read_config_each_move: bool) -> (r: RuntimeOptions)
    ensures
        r == default_runtime_spec(read_config_each_move),
{
    RuntimeOptions {
        read_config_each_move,
        compute_vcf: true,
        root_vcf_depth: DEFAULT_ROOT_VCF_DEPTH,
        opponent_vcf_depth: DEFAULT_OPPONENT_VCF_DEPTH,
        vct_verify_opponent_vcf_depth: DEFAULT_VCT_VERIFY_OPPONENT_VCF_DEPTH,
        vcf_multi_reply: DEFAULT_VCF_MULTI_REPLY,
        nonroot_vcf: false,
        static_board: true,
        dynamic_board_margin: DEFAULT_DYNAMIC_BOARD_MARGIN,
        compute_vct: true,
        root_vct_depth: DEFAULT_ROOT_VCT_DEPTH,
        vct_strict_and_memo_key: DEFAULT_VCT_STRICT_AND_MEMO_KEY,
        overlap_vct_alphabeta: DEFAULT_OVERLAP_VCT_ALPHABETA,
        fast_history_ordering: DEFAULT_FAST_HISTORY_ORDERING,
        fast_killer_bonus: DEFAULT_FAST_KILLER_BONUS,
        fast_history_bonus_scale: DEFAULT_FAST_HISTORY_BONUS_SCALE,
        fast_history_bonus_cap: DEFAULT_FAST_HISTORY_BONUS_CAP,
        root_profile: DEFAULT_ROOT_PROFILE,
    }
}

pub fn default_root_search() -> (r: RootSearchDefaults)
    ensures
        r == (RootSearchDefaults {
            depth: 8,
            wide: 40,
            timed_max_depth: 25,
            timed_max_wide: 40,
            ratio_num: 1,
            ratio_den: 1,
        }),
{
    RootSearchDefaults {
        depth: DEFAULT_SEARCH_DEPTH,
        wide: DEFAULT_SEARCH_WIDTH,
        timed_max_depth: DEFAULT_TIMED_SEARCH_MAX_DEPTH,
        timed_max_wide: DEFAULT_TIMED_SEARCH_MAX_WIDTH,
        ratio_num: DEFAULT_CHILD_WIDTH_RATIO_NUM,
        ratio_den: DEFAULT_CHILD_WIDTH_RATIO_DEN,
    }
}

/// The runtime settings a profile fixes: multi-reply VCF, and history
/// ordering for the fast profile only.
pub fn apply_profile_to_runtime(runtime: &mut RuntimeOptions, profile: EngineProfile)
    ensures
        *final(runtime) == (RuntimeOptions {
            vcf_multi_reply: if profile == EngineProfile::Base {
                DEFAULT_VCF_MULTI_REPLY
            } else {
                true
            },
            fast_history_ordering: if profile == EngineProfile::Base {
                DEFAULT_FAST_HISTORY_ORDERING
            } else {
                DEFAULT_FAST_PROFILE_HISTORY_ORDERING
            },
            ..*old(runtime)
        }),
{
    match profile {
        EngineProfile::Base => {
            runtime.vcf_multi_reply = DEFAULT_VCF_MULTI_REPLY;
            runtime.fast_history_ordering = DEFAULT_FAST_HISTORY_ORDERING;
        },
        EngineProfile::Fast => {
            runtime.vcf_multi_reply = true;
            runtime.fast_history_ordering = DEFAULT_FAST_PROFILE_HISTORY_ORDERING;
        },
    }
}

/// The integer part of the engine configuration.
#[derive(Clone, Copy, Debug, PartialEq, Eq, Structural)]
pub struct EngineSettings {
    pub profile: EngineProfile,
    pub rule_set: RuleSet,
    pub runtime: RuntimeOptions,
    pub root_search: RootSearchDefaults,
}

/// The bundled defaults: base profile, freestyle, default runtime options
/// (the configuration is read once) and root search defaults.
pub open spec fn default_settings_spec() -> EngineSettings {
    EngineSettings {
        profile: EngineProfile::Base,
        rule_set: RuleSet::Freestyle,
        runtime: default_runtime_spec(false),
        root_search: RootSearchDefaults {
            depth: 8,
            wide: 40,
            timed_max_depth: 25,
            timed_max_wide: 40,
            ratio_num: 1,
            ratio_den: 1,
        },
    }
}

pub fn default_engine_settings() -> (s: EngineSettings)
    ensures
        s == default_settings_spec(),
{
    EngineSettings {
        profile: DEFAULT_ENGINE_PROFILE,
        rule_set: DEFAULT_RULE_SET,
        runtime: default_runtime_options(false),
        root_search: default_root_search(),
    }
}

/// The settings after switching to `profile`.
pub open spec fn with_profile(s: EngineSettings, profile: EngineProfile) -> EngineSettings {
    EngineSettings {
        profile,
        runtime: RuntimeOptions {
            vcf_multi_reply: if profile == EngineProfile::Base {
                DEFAULT_VCF_MULTI_REPLY
            } else {
                true
            },
            fast_history_ordering: if profile == EngineProfile::Base {
                DEFAULT_FAST_HISTORY_ORDERING
            } else {
                DEFAULT_FAST_PROFILE_HISTORY_ORDERING
            },
            ..s.runtime
        },
        ..s
    }
}

/// Switches to `profile`: records it and sets the runtime options it fixes.
pub fn apply_engine_profile(settings: &mut EngineSettings, profile: EngineProfile)
    ensures
        *final(settings) == with_profile(*old(settings), profile),
{
    settings.profile = profile;
    apply_profile_to_runtime(&mut settings.runtime, profile);
}

} // verus!
