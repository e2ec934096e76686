//! Shared threat-search result types.
use vstd::prelude::*;

use crate::types::Move;

verus! {

/// Threat levels in increasing strength: open three, four, open four, five.
#[derive(Clone, Copy, Debug, PartialEq, Eq, PartialOrd, Ord, Structural)]
pub enum ThreatLevel {
    A3,
    B4,
    A4,
    WIN5,
}

/// The strength rank of a level (1 for an open three up to 4 for a five).
pub open spec fn level_rank(level: ThreatLevel) -> int {
    match level {
        ThreatLevel::A3 => 1,
        ThreatLevel::B4 => 2,
        ThreatLevel::A4 => 3,
        ThreatLevel::WIN5 => 4,
    }
}

impl ThreatLevel {
    pub fn rank(self) -> (r: u8)
        ensures
            r == level_rank(self),
    {
        match self {
            ThreatLevel::A3 => 1,
            ThreatLevel::B4 => 2,
            ThreatLevel::A4 => 3,
            ThreatLevel::WIN5 => 4,
        }
    }
}

#[derive(Clone, Debug, PartialEq, Eq)]
pub struct AttackMove {
    pub move_: Move,
    pub level: ThreatLevel,
    pub defenses: Vec<Move>,
}

} // verus!
