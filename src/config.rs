//! The configuration model, and how it turns into the matcher's triggers and
//! the actions bound to them.

use vstd::prelude::*;
use crate::common::{Direction, PinchDirection, RotateDirection, SCALE_ONE};
use crate::trigger::{CardinalTrigger, HoldTrigger, PinchTrigger, RotateTrigger};
use crate::trigger::Trigger as GestureTrigger;

verus! {

/// How long a configured hold lasts before it fires, in milliseconds.
pub const HOLD_TIME: u32 = 1;

/// A trigger as configured: its distance comes from the configuration's
/// defaults.
#[derive(PartialEq, Eq, Structural, Debug, Clone, Copy)]
pub enum Trigger {
    Swipe { fingers: u32, direction: Direction, repeated: bool },
    Shear { fingers: u32, direction: Direction, repeated: bool },
    Pinch { fingers: u32, direction: PinchDirection, repeated: bool },
    Rotate { fingers: u32, direction: RotateDirection, repeated: bool },
    Hold { fingers: u32 },
}

/// An action as configured. Key names are those of the key table.
#[derive(PartialEq, Eq, Debug, Clone)]
pub enum ConfigAction {
    UinputAction { modifiers: Vec<String>, sequence: Vec<String> },
    CommandAction { path: String, args: Vec<String> },
    ShellAction { command: String },
}

/// A configured trigger with its action.
#[derive(PartialEq, Eq, Debug, Clone)]
pub struct ConfigTrigger {
    pub trigger: Trigger,
    pub action: ConfigAction,
}

/// The configuration: default thresholds, and the triggers for any display
/// server, for X11 and for Wayland. Swipe and shear distances are in device
/// units; the pinch ratio and the rotation (in degrees) are fixed-point over
/// `SCALE_ONE`.
#[derive(PartialEq, Eq, Debug, Clone)]
pub struct Config {
    pub swipe_distance: u32,
    pub shear_distance: u32,
    pub pinch_distance: u64,
    pub rotation_distance: u64,
    pub global_triggers: Vec<ConfigTrigger>,
    pub x11_triggers: Vec<ConfigTrigger>,
    pub wayland_triggers: Vec<ConfigTrigger>,
}

/// The default swipe and shear distance, in device units.
pub fn default_distance() -> (r: u32)
    ensures
        r == 100,
{
    100
}

/// The default pinch ratio, 1.4.
pub fn default_pinch() -> (r: u64)
    ensures
        r == 1400,
{
    1400
}

/// The default rotation, 60 degrees.
pub fn default_rotation() -> (r: u64)
    ensures
        r == 60 * SCALE_ONE,
{
    60 * SCALE_ONE
}

/// No triggers.
pub fn default_triggers() -> (r: Vec<ConfigTrigger>)
    ensures
        r@.len() == 0,
{
    Vec::new()
}

pub open spec fn fingers_of(t: Trigger) -> u32 {
    match t {
        Trigger::Swipe { fingers, .. } => fingers,
        Trigger::Shear { fingers, .. } => fingers,
        Trigger::Pinch { fingers, .. } => fingers,
        Trigger::Rotate { fingers, .. } => fingers,
        Trigger::Hold { fingers } => fingers,
    }
}

/// The matcher's trigger for a configured one, given the thresholds.
pub open spec fn made(t: Trigger, swipe: u32, shear: u32, pinch: u64, rotate: u64) -> GestureTrigger {
    match t {
        Trigger::Swipe { fingers, direction, repeated } => GestureTrigger::Swipe(
            CardinalTrigger {
                fingers: fingers as i32,
                direction,
                distance: (swipe * SCALE_ONE) as u64,
                repeated,
            },
        ),
        Trigger::Shear { fingers, direction, repeated } => GestureTrigger::Shear(
            CardinalTrigger {
                fingers: fingers as i32,
                direction,
                distance: (shear * SCALE_ONE) as u64,
                repeated,
            },
        ),
        Trigger::Pinch { fingers, direction, repeated } => GestureTrigger::Pinch(
            PinchTrigger { fingers: fingers as i32, direction, scale: pinch, repeated },
        ),
        Trigger::Rotate { fingers, direction, repeated } => GestureTrigger::Rotate(
            RotateTrigger { fingers: fingers as i32, direction, distance: rotate, repeated },
        ),
        Trigger::Hold { fingers } => GestureTrigger::Hold(
            HoldTrigger { fingers: fingers as i32, time: HOLD_TIME },
        ),
    }
}

impl Trigger {
    /// The matcher's trigger, with the thresholds for its kind.
    pub fn make(self, swipe_distance: u32, shear_distance: u32, pinch_distance: u64, rotate_distance: u64) -> (r: GestureTrigger)
        requires
            fingers_of(self) <= i32::MAX,
        ensures
            r == made(self, swipe_distance, shear_distance, pinch_distance, rotate_distance),
    {
        match self {
            Trigger::Swipe { fingers, direction, repeated } => GestureTrigger::Swipe(
                CardinalTrigger {
                    fingers: fingers as i32,
                    direction,
                    distance: swipe_distance as u64 * SCALE_ONE,
                    repeated,
                },
            ),
            Trigger::Shear { fingers, direction, repeated } => GestureTrigger::Shear(
                CardinalTrigger {
                    fingers: fingers as i32,
                    direction,
                    distance: shear_distance as u64 * SCALE_ONE,
                    repeated,
                },
            ),
            Trigger::Pinch { fingers, direction, repeated } => GestureTrigger::Pinch(
                PinchTrigger { fingers: fingers as i32, direction, scale: pinch_distance, repeated },
            ),
            Trigger::Rotate { fingers, direction, repeated } => GestureTrigger::Rotate(
                RotateTrigger {
                    fingers: fingers as i32,
                    direction,
                    distance: rotate_distance,
                    repeated,
                },
            ),
            Trigger::Hold { fingers } => GestureTrigger::Hold(
                HoldTrigger { fingers: fingers as i32, time: HOLD_TIME },
            ),
        }
    }
}

impl Config {
    /// The configured triggers in force: the global ones, then those of the
    /// display server in use.
    pub open spec fn active(&self, is_wayland: bool) -> Seq<ConfigTrigger> {
        self.global_triggers@ + if is_wayland {
            self.wayland_triggers@
        } else {
            self.x11_triggers@
        }
    }

    /// Every configured finger count fits the matcher's.
    pub open spec fn fingers_fit(&self, is_wayland: bool) -> bool {
        forall|i: int|
            0 <= i < self.active(is_wayland).len() ==> fingers_of(
                #[trigger] self.active(is_wayland)[i].trigger,
            ) <= i32::MAX
    }

    /// Whether the finger counts of the triggers in force fit the matcher's.
    pub fn check_fingers(&self, is_wayland: bool) -> (r: bool)
        ensures
            r == self.fingers_fit(is_wayland),
    {
        let chosen = if is_wayland {
            &self.wayland_triggers
        } else {
            &self.x11_triggers
        };
        let mut i: usize = 0;
        while i < self.global_triggers.len()
            invariant
                0 <= i <= self.global_triggers@.len(),
                forall|k: int| 0 <= k < i ==> fingers_of(#[trigger] self.global_triggers@[k].trigger) <= i32::MAX,
            decreases self.global_triggers@.len() - i,
        {
            if fingers_of_exec(&self.global_triggers[i].trigger) > i32::MAX as u32 {
                assert(self.active(is_wayland)[i as int] == self.global_triggers@[i as int]);
                return false;
            }
            i += 1;
        }
        let mut j: usize = 0;
        while j < chosen.len()
            invariant
                0 <= j <= chosen@.len(),
                chosen@ == if is_wayland { self.wayland_triggers@ } else { self.x11_triggers@ },
                forall|k: int| 0 <= k < self.global_triggers@.len() ==> fingers_of(#[trigger] self.global_triggers@[k].trigger) <= i32::MAX,
                forall|k: int| 0 <= k < j ==> fingers_of(#[trigger] chosen@[k].trigger) <= i32::MAX,
            decreases chosen@.len() - j,
        {
            if fingers_of_exec(&chosen[j].trigger) > i32::MAX as u32 {
                assert(self.active(is_wayland)[self.global_triggers@.len() + j] == chosen@[j as int]);
                return false;
            }
            j += 1;
        }
        assert forall|i: int| 0 <= i < self.active(is_wayland).len() implies fingers_of(
            #[trigger] self.active(is_wayland)[i].trigger,
        ) <= i32::MAX by {
            if i < self.global_triggers@.len() {
                assert(self.active(is_wayland)[i] == self.global_triggers@[i]);
            } else {
                assert(self.active(is_wayland)[i] == chosen@[i - self.global_triggers@.len()]);
            }
        }
        true
    }

    /// The triggers in force, made with the configured thresholds, and the
    /// action bound to each, at the same index.
    pub fn make_triggers(self, is_wayland: bool) -> (r: (Vec<GestureTrigger>, Vec<ConfigAction>))
        requires
            self.fingers_fit(is_wayland),
        ensures
            r.0@.len() == self.active(is_wayland).len(),
            r.1@.len() == self.active(is_wayland).len(),
            forall|i: int|
                0 <= i < r.0@.len() ==> #[trigger] r.0@[i] == made(
                    self.active(is_wayland)[i].trigger,
                    self.swipe_distance,
                    self.shear_distance,
                    self.pinch_distance,
                    self.rotation_distance,
                ),
            forall|i: int|
                0 <= i < r.1@.len() ==> #[trigger] r.1@[i] == self.active(is_wayland)[i].action,
    {
        let ghost all = self.active(is_wayland);
        let Config {
            swipe_distance,
            shear_distance,
            pinch_distance,
            rotation_distance,
            global_triggers,
            x11_triggers,
            wayland_triggers,
        } = self;
        let mut list = global_triggers;
        let mut chosen = if is_wayland {
            wayland_triggers
        } else {
            x11_triggers
        };
        list.append(&mut chosen);
        assert(list@ =~= all);
        let mut triggers: Vec<GestureTrigger> = Vec::new();
        let mut actions: Vec<ConfigAction> = Vec::new();
        let ghost n = list@.len();
        while list.len() > 0
            invariant
                triggers@.len() == actions@.len(),
                triggers@.len() + list@.len() == n,
                n == all.len(),
                list@ =~= all.subrange(triggers@.len() as int, n as int),
                forall|i: int| 0 <= i < all.len() ==> fingers_of(#[trigger] all[i].trigger) <= i32::MAX,
                forall|i: int|
                    0 <= i < triggers@.len() ==> #[trigger] triggers@[i] == made(
                        all[i].trigger,
                        swipe_distance,
                        shear_distance,
                        pinch_distance,
                        rotation_distance,
                    ),
                forall|i: int| 0 <= i < actions@.len() ==> #[trigger] actions@[i] == all[i].action,
            decreases list@.len(),
        {
            let ct = list.remove(0);
            assert(ct == all[triggers@.len() as int]);
            triggers.push(
                ct.trigger.make(swipe_distance, shear_distance, pinch_distance, rotation_distance),
            );
            actions.push(ct.action);
        }
        (triggers, actions)
    }
}

fn fingers_of_exec(t: &Trigger) -> (r: u32)
    ensures
        r == fingers_of(*t),
{
    match t {
        Trigger::Swipe { fingers, .. } => *fingers,
        Trigger::Shear { fingers, .. } => *fingers,
        Trigger::Pinch { fingers, .. } => *fingers,
        Trigger::Rotate { fingers, .. } => *fingers,
        Trigger::Hold { fingers } => *fingers,
    }
}

} // verus!
