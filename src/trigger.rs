//! Triggers, and the predicates that decide whether a gesture matches one.

use vstd::prelude::*;
use crate::common::{AnyDirection, Direction, PinchDirection, RotateDirection, SCALE_ONE};
use crate::gesture::{HoldGesture, PinchGesture, SwipeGesture};

verus! {

/// A trigger: a kind of gesture, a finger count, a direction and a threshold.
#[derive(PartialEq, Eq, Structural, Debug, Clone, Copy)]
pub enum Trigger {
    Swipe(CardinalTrigger),
    Pinch(PinchTrigger),
    /// Fingers translating during a pinch; the direction is that of the
    /// translation.
    Shear(CardinalTrigger),
    /// Rotation during a pinch.
    Rotate(RotateTrigger),
    Hold(HoldTrigger),
}

/// A trigger in a direction over a distance: swipes and shears.
#[derive(PartialEq, Eq, Structural, Debug, Clone, Copy)]
pub struct CardinalTrigger {
    pub fingers: i32,
    pub direction: Direction,
    pub distance: u64,
    pub repeated: bool,
}

/// `scale` is the multiplicative ratio to reach, over `SCALE_ONE`.
#[derive(PartialEq, Eq, Structural, Debug, Clone, Copy)]
pub struct PinchTrigger {
    pub fingers: i32,
    pub direction: PinchDirection,
    pub scale: u64,
    pub repeated: bool,
}

/// `distance` is in thousandths of a degree.
#[derive(PartialEq, Eq, Structural, Debug, Clone, Copy)]
pub struct RotateTrigger {
    pub fingers: i32,
    pub direction: RotateDirection,
    pub distance: u64,
    pub repeated: bool,
}

/// `time` is in milliseconds.
#[derive(PartialEq, Eq, Structural, Debug, Clone, Copy)]
pub struct HoldTrigger {
    pub fingers: i32,
    pub time: u32,
}

/// The moving zero of the current gesture.
#[derive(PartialEq, Eq, Structural, Debug, Clone, Copy)]
pub struct Origin {
    pub x: i64,
    pub y: i64,
    pub scale: u64,
    pub rotation: i64,
}

/// The origin at rest: no offset, a scale of one, no rotation.
pub open spec fn rest_origin() -> Origin {
    Origin { x: 0, y: 0, scale: SCALE_ONE, rotation: 0 }
}

pub open spec fn abs(x: int) -> int {
    if x < 0 { -x } else { x }
}

/// The 90 degree cone of a direction, boundaries included.
pub open spec fn in_cone(d: Direction, dx: int, dy: int) -> bool {
    match d {
        Direction::Up => dy <= dx && dy <= -dx,
        Direction::Down => dy >= dx && dy >= -dx,
        Direction::Right => dx >= dy && dx >= -dy,
        Direction::Left => dx <= dy && dx <= -dy,
    }
}

/// A cardinal trigger matches a displacement `(dx, dy)` from the origin.
pub open spec fn cardinal_match(t: CardinalTrigger, fingers: i32, dx: int, dy: int) -> bool {
    &&& t.fingers == fingers
    &&& in_cone(t.direction, dx, dy)
    &&& (abs(dx) >= t.distance || abs(dy) >= t.distance)
}

pub open spec fn pinch_match(t: PinchTrigger, g: PinchGesture, origin: u64) -> bool {
    &&& t.fingers == g.fingers
    &&& match t.direction {
        PinchDirection::In => origin * t.scale <= g.scale * SCALE_ONE,
        PinchDirection::Out => origin * SCALE_ONE >= g.scale * t.scale,
    }
}

pub open spec fn rotate_match(t: RotateTrigger, g: PinchGesture, origin: i64) -> bool {
    let a = g.angle - origin;
    &&& t.fingers == g.fingers
    &&& match t.direction {
        RotateDirection::Clockwise => a > 0,
        RotateDirection::Anticlockwise => a < 0,
    }
    &&& abs(a) >= t.distance
}

/// Milliseconds from `begin` to `now`, zero when the clock went backwards.
pub open spec fn elapsed(now: u32, begin: u32) -> int {
    if now >= begin { now - begin } else { 0 }
}

pub open spec fn hold_match(t: HoldTrigger, g: HoldGesture, ctime: u32) -> bool {
    t.fingers == g.fingers && elapsed(ctime, g.begin_time) >= t.time
}

pub open spec fn repeated_of(t: Trigger) -> bool {
    match t {
        Trigger::Swipe(s) => s.repeated,
        Trigger::Pinch(p) => p.repeated,
        Trigger::Shear(s) => s.repeated,
        Trigger::Rotate(r) => r.repeated,
        Trigger::Hold(_) => true,
    }
}

pub open spec fn direction_of(t: Trigger) -> Option<AnyDirection> {
    match t {
        Trigger::Swipe(s) => Some(AnyDirection::Cardinal(s.direction)),
        Trigger::Pinch(p) => Some(AnyDirection::Pinch(p.direction)),
        Trigger::Shear(s) => Some(AnyDirection::Cardinal(s.direction)),
        Trigger::Rotate(r) => Some(AnyDirection::Rotate(r.direction)),
        Trigger::Hold(_) => None,
    }
}

fn abs_i128(x: i128) -> (r: i128)
    requires
        x > i128::MIN,
    ensures
        r == abs(x as int),
{
    if x < 0 { -x } else { x }
}

impl Direction {
    /// Whether the displacement lies in this direction's cone.
    pub fn matches(&self, dx: i128, dy: i128) -> (r: bool)
        requires
            dx > i128::MIN,
            dy > i128::MIN,
        ensures
            r == in_cone(*self, dx as int, dy as int),
    {
        match self {
            Direction::Up => dy <= dx && dy <= -dx,
            Direction::Down => dy >= dx && dy >= -dx,
            Direction::Right => dx >= dy && dx >= -dy,
            Direction::Left => dx <= dy && dx <= -dy,
        }
    }
}

impl RotateDirection {
    /// Whether an angle of this sign turns in this direction.
    pub fn matches(&self, angle: i128) -> (r: bool)
        ensures
            r == match *self {
                RotateDirection::Clockwise => angle > 0,
                RotateDirection::Anticlockwise => angle < 0,
            },
    {
        match self {
            RotateDirection::Anticlockwise => angle < 0,
            RotateDirection::Clockwise => angle > 0,
        }
    }
}

impl CardinalTrigger {
    fn matches_displacement(&self, fingers: i32, dx: i128, dy: i128) -> (r: bool)
        requires
            dx > i128::MIN,
            dy > i128::MIN,
        ensures
            r == cardinal_match(*self, fingers, dx as int, dy as int),
    {
        let d = self.distance as i128;
        self.fingers == fingers && self.direction.matches(dx, dy) && (abs_i128(dx) >= d
            || abs_i128(dy) >= d)
    }

    /// A swipe matches when its displacement from the origin lies in the
    /// direction's cone and reaches the distance on either axis.
    pub fn matches_swipe(&self, gest: &SwipeGesture, o: Origin) -> (r: bool)
        ensures
            r == cardinal_match(*self, gest.fingers, gest.dx - o.x, gest.dy - o.y),
    {
        self.matches_displacement(
            gest.fingers,
            gest.dx as i128 - o.x as i128,
            gest.dy as i128 - o.y as i128,
        )
    }

    /// The same rule as `matches_swipe`, over a pinch's translation.
    pub fn matches_shear(&self, gest: &PinchGesture, o: Origin) -> (r: bool)
        ensures
            r == cardinal_match(*self, gest.fingers, gest.dx - o.x, gest.dy - o.y),
    {
        self.matches_displacement(
            gest.fingers,
            gest.dx as i128 - o.x as i128,
            gest.dy as i128 - o.y as i128,
        )
    }
}

proof fn lemma_product_fits(a: u64, b: u64)
    ensures
        0 <= (a as int) * (b as int) <= u128::MAX,
{
    assert(0 <= (a as int) * (b as int) <= (u64::MAX as int) * (u64::MAX as int))
        by (nonlinear_arith)
        requires
            0 <= a <= u64::MAX,
            0 <= b <= u64::MAX,
    ;
}

impl PinchTrigger {
    /// `In` matches once the scale has grown by the trigger's ratio from the
    /// origin's scale; `Out` once it has shrunk by it.
    pub fn matches(&self, gest: &PinchGesture, origin: u64) -> (r: bool)
        ensures
            r == pinch_match(*self, *gest, origin),
    {
        proof {
            lemma_product_fits(origin, self.scale);
            lemma_product_fits(gest.scale, SCALE_ONE);
            lemma_product_fits(origin, SCALE_ONE);
            lemma_product_fits(gest.scale, self.scale);
        }
        self.fingers == gest.fingers && match self.direction {
            PinchDirection::In => (origin as u128) * (self.scale as u128) <= (gest.scale as u128)
                * (SCALE_ONE as u128),
            PinchDirection::Out => (origin as u128) * (SCALE_ONE as u128) >= (gest.scale as u128)
                * (self.scale as u128),
        }
    }
}

impl RotateTrigger {
    /// Matches when the angle turned since the origin has the direction's
    /// sign and reaches the distance.
    pub fn matches(&self, gest: &PinchGesture, origin: i64) -> (r: bool)
        ensures
            r == rotate_match(*self, *gest, origin),
    {
        let angle = gest.angle as i128 - origin as i128;
        self.fingers == gest.fingers && self.direction.matches(angle) && abs_i128(angle)
            >= self.distance as i128
    }
}

impl HoldTrigger {
    /// Matches once the hold has lasted `time`; a clock that went backwards
    /// counts as no time at all.
    pub fn matches(&self, gest: &HoldGesture, ctime: u32) -> (r: bool)
        ensures
            r == hold_match(*self, *gest, ctime),
    {
        self.fingers == gest.fingers && ctime.saturating_sub(gest.begin_time) >= self.time
    }
}

impl Trigger {
    /// Whether the trigger may fire more than once in a gesture. Holds count
    /// as repeated: a hold ends with its gesture anyway.
    pub fn repeated(&self) -> (r: bool)
        ensures
            r == repeated_of(*self),
    {
        match self {
            Trigger::Swipe(s) => s.repeated,
            Trigger::Pinch(p) => p.repeated,
            Trigger::Shear(s) => s.repeated,
            Trigger::Rotate(r) => r.repeated,
            Trigger::Hold(_) => true,
        }
    }

    /// The trigger's direction, tagged by family; holds have none.
    pub fn direction(&self) -> (r: Option<AnyDirection>)
        ensures
            r == direction_of(*self),
    {
        match self {
            Trigger::Swipe(s) => Some(AnyDirection::Cardinal(s.direction)),
            Trigger::Pinch(p) => Some(AnyDirection::Pinch(p.direction)),
            Trigger::Shear(s) => Some(AnyDirection::Cardinal(s.direction)),
            Trigger::Rotate(r) => Some(AnyDirection::Rotate(r.direction)),
            Trigger::Hold(_) => None,
        }
    }
}

} // verus!
