//! The tracker's view of an in-flight gesture, the raw events that drive it,
//! and the events it emits.

use vstd::prelude::*;

verus! {

/// A swipe: cumulative translation since the gesture began.
#[derive(PartialEq, Eq, Structural, Debug, Clone, Copy)]
pub struct SwipeGesture {
    pub begin_time: u32,
    pub fingers: i32,
    pub dx: i64,
    pub dy: i64,
}

/// A pinch: latest scale ratio, cumulative rotation (positive is clockwise)
/// and cumulative translation.
#[derive(PartialEq, Eq, Structural, Debug, Clone, Copy)]
pub struct PinchGesture {
    pub begin_time: u32,
    pub fingers: i32,
    pub scale: u64,
    pub angle: i64,
    pub dx: i64,
    pub dy: i64,
}

#[derive(PartialEq, Eq, Structural, Debug, Clone, Copy)]
pub struct HoldGesture {
    pub begin_time: u32,
    pub fingers: i32,
}

/// The gesture in flight; `Idle` is the quiescent state.
#[derive(PartialEq, Eq, Structural, Debug, Clone, Copy)]
pub enum Gesture {
    Idle,
    Swipe(SwipeGesture),
    Pinch(PinchGesture),
    Hold(HoldGesture),
}

/// A raw gesture event from the touchpad, as plain values. Updates carry
/// increments of translation and angle and the current scale.
#[derive(PartialEq, Eq, Structural, Debug, Clone, Copy)]
pub enum RawEvent {
    SwipeBegin { time: u32, fingers: i32 },
    SwipeUpdate { time: u32, dx: i64, dy: i64 },
    SwipeEnd { time: u32, cancelled: bool },
    PinchBegin { time: u32, fingers: i32, scale: u64 },
    PinchUpdate { time: u32, dx: i64, dy: i64, scale: u64, angle_delta: i64 },
    PinchEnd { time: u32, scale: u64, cancelled: bool },
    HoldBegin { time: u32, fingers: i32 },
    HoldEnd { time: u32, cancelled: bool },
    /// Any other gesture event.
    Other { time: u32 },
}

/// What one raw event did to the gesture in flight.
#[derive(PartialEq, Eq, Structural, Debug, Clone, Copy)]
pub enum GestureState {
    /// The gesture goes on; the argument is the event's time.
    Ongoing(u32),
    /// The gesture that just finished, and the time it finished.
    Ended(Gesture, u32),
    /// The gesture that was just cancelled, and the time it was.
    Cancelled(Gesture, u32),
}

/// The event the tracker emits, with the latest time.
#[derive(PartialEq, Eq, Structural, Debug, Clone, Copy)]
pub enum InputEvent {
    Ongoing(Gesture, u32),
    Ended(Gesture, u32),
    Cancelled(Gesture, u32),
}

/// `a + b`, held within the range of `i64`.
pub open spec fn sat_add(a: i64, b: i64) -> i64 {
    if a + b > i64::MAX {
        i64::MAX
    } else if a + b < i64::MIN {
        i64::MIN
    } else {
        (a + b) as i64
    }
}

pub open spec fn coords_added(g: Gesture, dx: i64, dy: i64) -> Gesture {
    match g {
        Gesture::Swipe(s) => Gesture::Swipe(SwipeGesture { dx: sat_add(s.dx, dx), dy: sat_add(s.dy, dy), ..s }),
        Gesture::Pinch(p) => Gesture::Pinch(PinchGesture { dx: sat_add(p.dx, dx), dy: sat_add(p.dy, dy), ..p }),
        _ => g,
    }
}

pub open spec fn scale_set(g: Gesture, scale: u64) -> Gesture {
    match g {
        Gesture::Pinch(p) => Gesture::Pinch(PinchGesture { scale, ..p }),
        _ => g,
    }
}

pub open spec fn angle_added(g: Gesture, delta: i64) -> Gesture {
    match g {
        Gesture::Pinch(p) => Gesture::Pinch(PinchGesture { angle: sat_add(p.angle, delta), ..p }),
        _ => g,
    }
}

/// The gesture as an event leaves it, before an end takes it out.
pub open spec fn updated(g: Gesture, ev: RawEvent) -> Gesture {
    match ev {
        RawEvent::SwipeBegin { time, fingers } => Gesture::Swipe(
            SwipeGesture { begin_time: time, fingers, dx: 0, dy: 0 },
        ),
        RawEvent::SwipeUpdate { dx, dy, .. } => if g is Swipe {
            coords_added(g, dx, dy)
        } else {
            g
        },
        RawEvent::PinchBegin { time, fingers, scale } => Gesture::Pinch(
            PinchGesture { begin_time: time, fingers, scale, angle: 0, dx: 0, dy: 0 },
        ),
        RawEvent::PinchUpdate { dx, dy, scale, angle_delta, .. } => if g is Pinch {
            angle_added(scale_set(coords_added(g, dx, dy), scale), angle_delta)
        } else {
            g
        },
        RawEvent::PinchEnd { scale, .. } => scale_set(g, scale),
        RawEvent::HoldBegin { time, fingers } => Gesture::Hold(
            HoldGesture { begin_time: time, fingers },
        ),
        _ => g,
    }
}

pub open spec fn is_end(ev: RawEvent) -> bool {
    ev is SwipeEnd || ev is PinchEnd || ev is HoldEnd
}

pub open spec fn is_begin(ev: RawEvent) -> bool {
    ev is SwipeBegin || ev is PinchBegin || ev is HoldBegin
}

pub open spec fn time_of(ev: RawEvent) -> u32 {
    match ev {
        RawEvent::SwipeBegin { time, .. } => time,
        RawEvent::SwipeUpdate { time, .. } => time,
        RawEvent::SwipeEnd { time, .. } => time,
        RawEvent::PinchBegin { time, .. } => time,
        RawEvent::PinchUpdate { time, .. } => time,
        RawEvent::PinchEnd { time, .. } => time,
        RawEvent::HoldBegin { time, .. } => time,
        RawEvent::HoldEnd { time, .. } => time,
        RawEvent::Other { time } => time,
    }
}

pub open spec fn cancelled_of(ev: RawEvent) -> bool {
    match ev {
        RawEvent::SwipeEnd { cancelled, .. } => cancelled,
        RawEvent::PinchEnd { cancelled, .. } => cancelled,
        RawEvent::HoldEnd { cancelled, .. } => cancelled,
        _ => false,
    }
}

/// An update for another kind of gesture than the one in flight, or an
/// event the tracker does not know.
pub open spec fn out_of_place(g: Gesture, ev: RawEvent) -> bool {
    (ev is SwipeUpdate && !(g is Swipe)) || (ev is PinchUpdate && !(g is Pinch)) || ev is Other
}

/// The gesture in flight after the event: an end restores `Idle`.
pub open spec fn next_gesture(g: Gesture, ev: RawEvent) -> Gesture {
    if is_end(ev) { Gesture::Idle } else { updated(g, ev) }
}

/// What the event did: an end hands out the final gesture.
pub open spec fn state_of(g: Gesture, ev: RawEvent) -> GestureState {
    if is_end(ev) {
        if cancelled_of(ev) {
            GestureState::Cancelled(updated(g, ev), time_of(ev))
        } else {
            GestureState::Ended(updated(g, ev), time_of(ev))
        }
    } else {
        GestureState::Ongoing(time_of(ev))
    }
}

/// The event the tracker emits for a raw event.
pub open spec fn emitted(g: Gesture, ev: RawEvent) -> InputEvent {
    if is_end(ev) {
        if cancelled_of(ev) {
            InputEvent::Cancelled(updated(g, ev), time_of(ev))
        } else {
            InputEvent::Ended(updated(g, ev), time_of(ev))
        }
    } else {
        InputEvent::Ongoing(updated(g, ev), time_of(ev))
    }
}

/// The gesture an emitted event carries.
pub open spec fn carried(ev: InputEvent) -> Gesture {
    match ev {
        InputEvent::Ongoing(g, _) => g,
        InputEvent::Ended(g, _) => g,
        InputEvent::Cancelled(g, _) => g,
    }
}

/// The gesture in flight after the tracker consumed `evs`, starting from `g`.
pub open spec fn after_events(g: Gesture, evs: Seq<RawEvent>) -> Gesture
    decreases evs.len(),
{
    if evs.len() == 0 {
        g
    } else {
        next_gesture(after_events(g, evs.drop_last()), evs.last())
    }
}

fn saturating_add_i64(a: i64, b: i64) -> (r: i64)
    ensures
        r == sat_add(a, b),
{
    let s = a as i128 + b as i128;
    if s > i64::MAX as i128 {
        i64::MAX
    } else if s < i64::MIN as i128 {
        i64::MIN
    } else {
        s as i64
    }
}

impl Gesture {
    /// Updates the gesture in flight with a raw event and says what became of
    /// it. A begin replaces the gesture; an end takes it out and leaves
    /// `Idle`; an update out of place leaves it as it was.
    pub fn update(&mut self, ev: &RawEvent) -> (r: GestureState)
        ensures
            *final(self) == next_gesture(*old(self), *ev),
            r == state_of(*old(self), *ev),
            out_of_place(*old(self), *ev) ==> *final(self) == *old(self) && r
                == GestureState::Ongoing(time_of(*ev)),
    {
        match *ev {
            RawEvent::SwipeBegin { time, fingers } => {
                *self = Gesture::Swipe(SwipeGesture { begin_time: time, fingers, dx: 0, dy: 0 });
                GestureState::Ongoing(time)
            },
            RawEvent::SwipeUpdate { time, dx, dy } => {
                if let Gesture::Swipe(_) = *self {
                    self.update_coords(dx, dy);
                }
                GestureState::Ongoing(time)
            },
            RawEvent::SwipeEnd { time, cancelled } => self.end_gesture(time, cancelled),
            RawEvent::PinchBegin { time, fingers, scale } => {
                *self = Gesture::Pinch(
                    PinchGesture { begin_time: time, fingers, scale, angle: 0, dx: 0, dy: 0 },
                );
                GestureState::Ongoing(time)
            },
            RawEvent::PinchUpdate { time, dx, dy, scale, angle_delta } => {
                if let Gesture::Pinch(_) = *self {
                    self.update_coords(dx, dy);
                    self.update_scale(scale);
                    self.update_angle(angle_delta);
                }
                GestureState::Ongoing(time)
            },
            RawEvent::PinchEnd { time, scale, cancelled } => {
                self.update_scale(scale);
                self.end_gesture(time, cancelled)
            },
            RawEvent::HoldBegin { time, fingers } => {
                *self = Gesture::Hold(HoldGesture { begin_time: time, fingers });
                GestureState::Ongoing(time)
            },
            RawEvent::HoldEnd { time, cancelled } => self.end_gesture(time, cancelled),
            RawEvent::Other { time } => GestureState::Ongoing(time),
        }
    }

    /// Adds a translation to a swipe or a pinch; other gestures stay.
    pub fn update_coords(&mut self, dx: i64, dy: i64)
        ensures
            *final(self) == coords_added(*old(self), dx, dy),
    {
        match self {
            Gesture::Swipe(swipe) => {
                swipe.dx = saturating_add_i64(swipe.dx, dx);
                swipe.dy = saturating_add_i64(swipe.dy, dy);
            },
            Gesture::Pinch(pinch) => {
                pinch.dx = saturating_add_i64(pinch.dx, dx);
                pinch.dy = saturating_add_i64(pinch.dy, dy);
            },
            _ => {},
        }
    }

    /// Overwrites a pinch's scale with the latest; other gestures stay.
    pub fn update_scale(&mut self, scale: u64)
        ensures
            *final(self) == scale_set(*old(self), scale),
    {
        match self {
            Gesture::Pinch(pinch) => {
                pinch.scale = scale;
            },
            _ => {},
        }
    }

    /// Adds to a pinch's angle; other gestures stay.
    pub fn update_angle(&mut self, delta: i64)
        ensures
            *final(self) == angle_added(*old(self), delta),
    {
        match self {
            Gesture::Pinch(pinch) => {
                pinch.angle = saturating_add_i64(pinch.angle, delta);
            },
            _ => {},
        }
    }

    /// Takes the gesture out, leaving `Idle`.
    pub fn end_gesture(&mut self, time: u32, cancelled: bool) -> (r: GestureState)
        ensures
            *final(self) == Gesture::Idle,
            r == (if cancelled {
                GestureState::Cancelled(*old(self), time)
            } else {
                GestureState::Ended(*old(self), time)
            }),
    {
        let g = *self;
        *self = Gesture::Idle;
        if cancelled {
            GestureState::Cancelled(g, time)
        } else {
            GestureState::Ended(g, time)
        }
    }
}

impl InputEvent {
    /// The event for a state: an ongoing one carries a copy of the gesture
    /// in flight.
    pub fn from_state(state: GestureState, current: &Gesture) -> (r: InputEvent)
        ensures
            r == match state {
                GestureState::Ongoing(t) => InputEvent::Ongoing(*current, t),
                GestureState::Ended(g, t) => InputEvent::Ended(g, t),
                GestureState::Cancelled(g, t) => InputEvent::Cancelled(g, t),
            },
    {
        match state {
            GestureState::Ongoing(time) => InputEvent::Ongoing(*current, time),
            GestureState::Ended(g, t) => InputEvent::Ended(g, t),
            GestureState::Cancelled(g, t) => InputEvent::Cancelled(g, t),
        }
    }
}

/// The gesture state tracker: owns the gesture in flight and emits one event
/// for each raw event it consumes.
pub struct GestureProducer {
    current: Gesture,
}

impl GestureProducer {
    pub closed spec fn current_view(&self) -> Gesture {
        self.current
    }

    pub fn new() -> (r: GestureProducer)
        ensures
            r.current_view() == Gesture::Idle,
    {
        GestureProducer { current: Gesture::Idle }
    }

    /// The gesture in flight.
    pub fn current(&self) -> (r: Gesture)
        ensures
            r == self.current_view(),
    {
        self.current
    }

    /// Consumes one raw event and emits the event it makes.
    pub fn update(&mut self, ev: &RawEvent) -> (r: InputEvent)
        ensures
            final(self).current_view() == next_gesture(old(self).current_view(), *ev),
            r == emitted(old(self).current_view(), *ev),
    {
        let state = self.current.update(ev);
        InputEvent::from_state(state, &self.current)
    }
}

} // verus!
