use vstd::prelude::*;

verus! {

/// Fixed-point denominator: a scale ratio of exactly one, and the number of
/// fixed-point steps in one device unit or one degree.
pub const SCALE_ONE: u64 = 1000;

/// A cardinal direction. Up is negative y, left is negative x.
#[derive(PartialEq, Eq, Structural, Debug, Clone, Copy)]
pub enum Direction {
    Up,
    Down,
    Left,
    Right,
}

/// In means the scale grows (1.0 -> 1.5), Out means it shrinks (1.0 -> 0.5).
#[derive(PartialEq, Eq, Structural, Debug, Clone, Copy)]
pub enum PinchDirection {
    In,
    Out,
}

#[derive(PartialEq, Eq, Structural, Debug, Clone, Copy)]
pub enum RotateDirection {
    Clockwise,
    Anticlockwise,
}

/// The direction of any directional trigger, tagged by its family.
#[derive(PartialEq, Eq, Structural, Debug, Clone, Copy)]
pub enum AnyDirection {
    Cardinal(Direction),
    Pinch(PinchDirection),
    Rotate(RotateDirection),
}

} // verus!
