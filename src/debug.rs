//! The built-in trigger set of the gesture-debugging mode.

use vstd::prelude::*;
use crate::common::{Direction, PinchDirection, RotateDirection, SCALE_ONE};
use crate::trigger::{CardinalTrigger, HoldTrigger, PinchTrigger, RotateTrigger, Trigger};

verus! {

/// The swipe and shear distance of the debugging set, in device units.
pub const DEBUG_DISTANCE: u64 = 100;

/// The pinch ratio of the debugging set, 1.3.
pub const DEBUG_SCALE: u64 = 1300;

/// The rotation of the debugging set, in degrees.
pub const DEBUG_ROTATION: u64 = 45;

/// How long a hold of the debugging set lasts, in milliseconds.
pub const DEBUG_HOLD: u32 = 50;

pub open spec fn cardinal(fingers: i32, direction: Direction, repeated: bool) -> CardinalTrigger {
    CardinalTrigger { fingers, direction, distance: (DEBUG_DISTANCE * SCALE_ONE) as u64, repeated }
}

/// Every directional trigger for a finger count, single-fire or repeated.
pub open spec fn debug_block(fingers: i32, repeated: bool) -> Seq<Trigger> {
    seq![
        Trigger::Swipe(cardinal(fingers, Direction::Up, repeated)),
        Trigger::Swipe(cardinal(fingers, Direction::Down, repeated)),
        Trigger::Swipe(cardinal(fingers, Direction::Left, repeated)),
        Trigger::Swipe(cardinal(fingers, Direction::Right, repeated)),
        Trigger::Pinch(PinchTrigger { fingers, direction: PinchDirection::In, scale: DEBUG_SCALE, repeated }),
        Trigger::Pinch(PinchTrigger { fingers, direction: PinchDirection::Out, scale: DEBUG_SCALE, repeated }),
        Trigger::Shear(cardinal(fingers, Direction::Up, repeated)),
        Trigger::Shear(cardinal(fingers, Direction::Down, repeated)),
        Trigger::Shear(cardinal(fingers, Direction::Left, repeated)),
        Trigger::Shear(cardinal(fingers, Direction::Right, repeated)),
        Trigger::Rotate(RotateTrigger {
            fingers,
            direction: RotateDirection::Anticlockwise,
            distance: (DEBUG_ROTATION * SCALE_ONE) as u64,
            repeated,
        }),
        Trigger::Rotate(RotateTrigger {
            fingers,
            direction: RotateDirection::Clockwise,
            distance: (DEBUG_ROTATION * SCALE_ONE) as u64,
            repeated,
        }),
    ]
}

/// The triggers for one finger count: single-fire, repeated, then a hold.
pub open spec fn debug_fingers(fingers: i32) -> Seq<Trigger> {
    debug_block(fingers, false) + debug_block(fingers, true) + seq![
        Trigger::Hold(HoldTrigger { fingers, time: DEBUG_HOLD }),
    ]
}

/// The triggers for two fingers up to `f - 1` fingers.
pub open spec fn debug_upto(f: int) -> Seq<Trigger>
    decreases f,
{
    if f <= 2 {
        Seq::empty()
    } else {
        debug_upto(f - 1) + debug_fingers((f - 1) as i32)
    }
}

fn push_block(v: &mut Vec<Trigger>, fingers: i32, repeated: bool)
    ensures
        final(v)@ == old(v)@ + debug_block(fingers, repeated),
{
    let d = DEBUG_DISTANCE * SCALE_ONE;
    let r = DEBUG_ROTATION * SCALE_ONE;
    v.push(Trigger::Swipe(CardinalTrigger { fingers, direction: Direction::Up, distance: d, repeated }));
    v.push(Trigger::Swipe(CardinalTrigger { fingers, direction: Direction::Down, distance: d, repeated }));
    v.push(Trigger::Swipe(CardinalTrigger { fingers, direction: Direction::Left, distance: d, repeated }));
    v.push(Trigger::Swipe(CardinalTrigger { fingers, direction: Direction::Right, distance: d, repeated }));
    v.push(Trigger::Pinch(PinchTrigger { fingers, direction: PinchDirection::In, scale: DEBUG_SCALE, repeated }));
    v.push(Trigger::Pinch(PinchTrigger { fingers, direction: PinchDirection::Out, scale: DEBUG_SCALE, repeated }));
    v.push(Trigger::Shear(CardinalTrigger { fingers, direction: Direction::Up, distance: d, repeated }));
    v.push(Trigger::Shear(CardinalTrigger { fingers, direction: Direction::Down, distance: d, repeated }));
    v.push(Trigger::Shear(CardinalTrigger { fingers, direction: Direction::Left, distance: d, repeated }));
    v.push(Trigger::Shear(CardinalTrigger { fingers, direction: Direction::Right, distance: d, repeated }));
    v.push(Trigger::Rotate(RotateTrigger { fingers, direction: RotateDirection::Anticlockwise, distance: r, repeated }));
    v.push(Trigger::Rotate(RotateTrigger { fingers, direction: RotateDirection::Clockwise, distance: r, repeated }));
    assert(v@ =~= old(v)@ + debug_block(fingers, repeated));
}

/// The triggers that the gesture-debugging mode watches for: for two, three
/// and four fingers, every swipe, pinch, shear and rotation, single-fire and
/// repeated, then a hold.
pub fn debug_events() -> (r: Vec<Trigger>)
    ensures
        r@ == debug_upto(5),
        r@.len() == 75,
{
    let mut ts: Vec<Trigger> = Vec::new();
    let mut fingers: i32 = 2;
    while fingers < 5
        invariant
            2 <= fingers <= 5,
            ts@ == debug_upto(fingers as int),
            ts@.len() == 25 * (fingers - 2),
        decreases 5 - fingers,
    {
        let ghost before = ts@;
        push_block(&mut ts, fingers, false);
        push_block(&mut ts, fingers, true);
        ts.push(Trigger::Hold(HoldTrigger { fingers, time: DEBUG_HOLD }));
        assert(ts@ =~= before + debug_fingers(fingers));
        fingers += 1;
    }
    ts
}

} // verus!
