//! Shared value types used across the engine.
use vstd::prelude::*;

verus! {

/// A board point encoded as `row * BOARD_SIZE + column`.
pub type Move = u16;

/// A stone colour: `BLACK` (1), `WHITE` (-1) or `EMPTY` (0).
pub type Side = i8;

#[derive(Clone, Copy, Debug, PartialEq, Eq, Structural)]
pub struct PlayedMove {
    pub move_: Move,
    pub side: Side,
}

/// A side that can hold a stone.
pub open spec fn valid_side(side: Side) -> bool {
    side == 1 || side == -1
}

/// A value a board cell can hold.
pub open spec fn valid_cell(value: Side) -> bool {
    value == 1 || value == -1 || value == 0
}

pub fn is_valid_side(side: Side) -> (valid: bool)
    ensures
        valid == valid_side(side),
{
    side == 1 || side == -1
}

pub fn opposite_side(side: Side) -> (other: Side)
    requires
        side > i8::MIN,
    ensures
        other == -side,
{
    -side
}

} // verus!
