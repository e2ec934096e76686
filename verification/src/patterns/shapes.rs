//! Packed shape labels and direction identifiers.
use vstd::prelude::*;

verus! {

#[derive(Clone, Copy, Debug, PartialEq, Eq, PartialOrd, Ord, Structural)]
pub enum ShapeLabel {
    L0,
    L1S,
    L1,
    L2S,
    L2BB,
    L2B,
    L2,
    L3S,
    L3B,
    L3,
    L4S,
    L4,
    L5,
    L6,
}

/// The number of each label, in declaration order from 0.
pub open spec fn label_number(label: ShapeLabel) -> int {
    match label {
        ShapeLabel::L0 => 0,
        ShapeLabel::L1S => 1,
        ShapeLabel::L1 => 2,
        ShapeLabel::L2S => 3,
        ShapeLabel::L2BB => 4,
        ShapeLabel::L2B => 5,
        ShapeLabel::L2 => 6,
        ShapeLabel::L3S => 7,
        ShapeLabel::L3B => 8,
        ShapeLabel::L3 => 9,
        ShapeLabel::L4S => 10,
        ShapeLabel::L4 => 11,
        ShapeLabel::L5 => 12,
        ShapeLabel::L6 => 13,
    }
}

impl ShapeLabel {
    /// The label numbered `raw`; numbers outside `0..=13` give `L0`.
    pub fn from_raw(raw: i32) -> (label: Self)
        ensures
            0 <= raw <= 13 ==> label_number(label) == raw,
            !(0 <= raw <= 13) ==> label == ShapeLabel::L0,
    {
        match raw {
            0 => ShapeLabel::L0,
            1 => ShapeLabel::L1S,
            2 => ShapeLabel::L1,
            3 => ShapeLabel::L2S,
            4 => ShapeLabel::L2BB,
            5 => ShapeLabel::L2B,
            6 => ShapeLabel::L2,
            7 => ShapeLabel::L3S,
            8 => ShapeLabel::L3B,
            9 => ShapeLabel::L3,
            10 => ShapeLabel::L4S,
            11 => ShapeLabel::L4,
            12 => ShapeLabel::L5,
            13 => ShapeLabel::L6,
            _ => ShapeLabel::L0,
        }
    }

    /// The label's number.
    pub fn number(self) -> (n: i32)
        ensures
            n == label_number(self),
    {
        match self {
            ShapeLabel::L0 => 0,
            ShapeLabel::L1S => 1,
            ShapeLabel::L1 => 2,
            ShapeLabel::L2S => 3,
            ShapeLabel::L2BB => 4,
            ShapeLabel::L2B => 5,
            ShapeLabel::L2 => 6,
            ShapeLabel::L3S => 7,
            ShapeLabel::L3B => 8,
            ShapeLabel::L3 => 9,
            ShapeLabel::L4S => 10,
            ShapeLabel::L4 => 11,
            ShapeLabel::L5 => 12,
            ShapeLabel::L6 => 13,
        }
    }
}

/// Reading a label's number back gives the label.
pub proof fn lemma_label_number_roundtrip(label: ShapeLabel)
    ensures
        0 <= label_number(label) <= 13,
{
}

pub const HORIZONTAL: i32 = 0;

pub const VERTICAL: i32 = 1;

pub const DIAGONAL_DOWN: i32 = 2;

pub const DIAGONAL_UP: i32 = 3;

/// The four direction identifiers in cache order.
pub const DIRECTION_IDS: (i32, i32, i32, i32) = (0, 1, 2, 3);

/// A shape word: the label in bits 16..20 and an auxiliary count in bits 0..4.
#[derive(Clone, Copy, Debug, Default, PartialEq, Eq, Structural)]
pub struct PackedShape {
    pub raw: i32,
}

impl PackedShape {
    /// The label field; the unused values 14 and 15 read as `L0`.
    pub fn label(self) -> (label: ShapeLabel)
        ensures
            ((self.raw >> 16i32) & 0xFi32) <= 13 ==> label_number(label) == (self.raw >> 16i32)
                & 0xFi32,
            ((self.raw >> 16i32) & 0xFi32) > 13 ==> label == ShapeLabel::L0,
    {
        let raw = self.raw;
        let n = (raw >> 16i32) & 0xFi32;
        assert(0 <= n <= 15) by (bit_vector)
            requires
                n == (raw >> 16i32) & 0xFi32,
        ;
        ShapeLabel::from_raw(n)
    }

    pub fn aux(self) -> (aux: i32)
        ensures
            aux == self.raw & 0xFi32,
            0 <= aux <= 15,
    {
        let raw = self.raw;
        let a = raw & 0xFi32;
        assert(0 <= a <= 15) by (bit_vector)
            requires
                a == raw & 0xFi32,
        ;
        a
    }
}

} // verus!
