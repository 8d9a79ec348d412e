use wzmach::common::{Direction, PinchDirection, RotateDirection, SCALE_ONE};
use wzmach::gesture::{Gesture, HoldGesture, InputEvent, PinchGesture, SwipeGesture};
use wzmach::matcher::EventAdapter;
use wzmach::trigger::{CardinalTrigger, HoldTrigger, Origin, PinchTrigger, RotateTrigger, Trigger};

const U: i64 = 1000;

fn swipe(dx: i64, dy: i64, t: u32) -> InputEvent {
    InputEvent::Ongoing(
        Gesture::Swipe(SwipeGesture { begin_time: 0, fingers: 3, dx: dx * U, dy: dy * U }),
        t,
    )
}

fn pinch(scale: u64, angle: i64, t: u32) -> InputEvent {
    InputEvent::Ongoing(
        Gesture::Pinch(PinchGesture { begin_time: 0, fingers: 3, scale, angle: angle * U, dx: 0, dy: 0 }),
        t,
    )
}

fn cardinal(direction: Direction, distance: u64, repeated: bool) -> CardinalTrigger {
    CardinalTrigger { fingers: 3, direction, distance: distance * SCALE_ONE, repeated }
}

fn scenario_triggers() -> Vec<Trigger> {
    vec![
        Trigger::Swipe(cardinal(Direction::Up, 200, false)),
        Trigger::Swipe(cardinal(Direction::Down, 200, false)),
        Trigger::Pinch(PinchTrigger { fingers: 3, direction: PinchDirection::In, scale: 1400, repeated: false }),
        Trigger::Rotate(RotateTrigger {
            fingers: 3,
            direction: RotateDirection::Clockwise,
            distance: 60 * SCALE_ONE,
            repeated: false,
        }),
        Trigger::Swipe(cardinal(Direction::Up, 200, true)),
    ]
}

fn rest() -> Origin {
    Origin { x: 0, y: 0, scale: SCALE_ONE, rotation: 0 }
}

#[test]
fn swipe_up_down() {
    let trigger_up = Trigger::Swipe(cardinal(Direction::Up, 200, false));
    let trigger_down = Trigger::Swipe(cardinal(Direction::Down, 200, false));
    let mut adapter = EventAdapter::new(&vec![trigger_up, trigger_down]);

    let event_up_half = swipe(10, -101, 10);
    let event_up = swipe(-20, -202, 10);
    let event_down = swipe(30, 10, 20);

    let r = adapter.adapt(event_down.clone());
    assert_eq!(r, Vec::new());
    let r = adapter.adapt(event_up_half.clone());
    assert_eq!(r, Vec::new());
    let r = adapter.adapt(event_up.clone());
    assert_eq!(r, vec![0]);
    let r = adapter.adapt(event_up_half.clone());
    assert_eq!(r, Vec::new());
    let r = adapter.adapt(event_down.clone());
    assert_eq!(r, vec![1]);
}

#[test]
fn up_fires_once_and_repeated_again_from_new_origin() {
    let mut a = EventAdapter::new(&scenario_triggers());
    assert_eq!(a.adapt(swipe(30, 10, 20)), Vec::<usize>::new());
    assert_eq!(a.adapt(swipe(10, -101, 30)), Vec::<usize>::new());
    assert_eq!(a.adapt(swipe(-20, -202, 40)), vec![0, 4]);
    assert_eq!(a.origin(), Origin { x: -20 * U, y: -202 * U, scale: SCALE_ONE, rotation: 0 });
    // measured from the new origin, only 101 units up
    assert_eq!(a.adapt(swipe(10, -303, 50)), Vec::<usize>::new());
    // 201 units up from the origin: the single-fire one stays quiet
    assert_eq!(a.adapt(swipe(10, -403, 55)), vec![4]);
    let end = InputEvent::Ended(
        Gesture::Swipe(SwipeGesture { begin_time: 0, fingers: 3, dx: 10 * U, dy: -403 * U }),
        60,
    );
    assert_eq!(a.adapt(end), Vec::<usize>::new());
    assert_eq!(a.origin(), rest());
    assert!(a.none_triggered());
}

#[test]
fn down_unlocked_after_up() {
    let mut a = EventAdapter::new(&scenario_triggers());
    assert_eq!(a.adapt(swipe(30, 10, 20)), Vec::<usize>::new());
    assert_eq!(a.adapt(swipe(10, -101, 30)), Vec::<usize>::new());
    assert_eq!(a.adapt(swipe(-20, -202, 40)), vec![0, 4]);
    assert_eq!(a.adapt(swipe(10, -303, 50)), Vec::<usize>::new());
    // 212 units down from where the up swipe fired
    assert_eq!(a.adapt(swipe(10, 10, 70)), vec![1]);
    // down has fired in this gesture; up is live again
    assert_eq!(a.adapt(swipe(10, 210, 80)), Vec::<usize>::new());
    assert_eq!(a.adapt(swipe(10, -200, 90)), vec![0, 4]);
}

#[test]
fn pinch_in_fires() {
    let mut a = EventAdapter::new(&scenario_triggers());
    assert_eq!(a.adapt(pinch(1200, 0, 10)), Vec::<usize>::new());
    assert_eq!(a.adapt(pinch(1410, 0, 20)), vec![2]);
    let end = InputEvent::Ended(
        Gesture::Pinch(PinchGesture { begin_time: 0, fingers: 3, scale: 1410, angle: 0, dx: 0, dy: 0 }),
        30,
    );
    assert_eq!(a.adapt(end), Vec::<usize>::new());
    assert_eq!(a.origin(), rest());
}

#[test]
fn rotate_clockwise_fires() {
    let mut a = EventAdapter::new(&scenario_triggers());
    assert_eq!(a.adapt(pinch(SCALE_ONE, 30, 10)), Vec::<usize>::new());
    assert_eq!(a.adapt(pinch(SCALE_ONE, 61, 20)), vec![3]);
    assert_eq!(a.origin(), Origin { x: 0, y: 0, scale: SCALE_ONE, rotation: 61 * U });
}

#[test]
fn hold_fires_once_it_lasted() {
    let mut ts = scenario_triggers();
    ts.push(Trigger::Hold(HoldTrigger { fingers: 3, time: 50 }));
    let mut a = EventAdapter::new(&ts);
    let hold = Gesture::Hold(HoldGesture { begin_time: 100, fingers: 3 });
    assert_eq!(a.adapt(InputEvent::Ongoing(hold, 120)), Vec::<usize>::new());
    assert_eq!(a.adapt(InputEvent::Ongoing(hold, 160)), vec![5]);
}

#[test]
fn cancel_fires_nothing_and_rests() {
    let mut a = EventAdapter::new(&scenario_triggers());
    assert_eq!(a.adapt(swipe(-20, -202, 40)), vec![0, 4]);
    assert!(!a.none_triggered());
    let cancel = InputEvent::Cancelled(
        Gesture::Swipe(SwipeGesture { begin_time: 0, fingers: 3, dx: 0, dy: -500 * U }),
        40,
    );
    assert_eq!(a.adapt(cancel), Vec::<usize>::new());
    assert_eq!(a.origin(), rest());
    assert!(a.none_triggered());
}

#[test]
fn ended_event_can_fire() {
    let mut a = EventAdapter::new(&scenario_triggers());
    let end = InputEvent::Ended(
        Gesture::Swipe(SwipeGesture { begin_time: 0, fingers: 3, dx: 0, dy: -300 * U }),
        40,
    );
    assert_eq!(a.adapt(end), vec![0, 4]);
    assert_eq!(a.origin(), rest());
    assert!(a.none_triggered());
}

#[test]
fn swipe_boundary_exact_distance() {
    let up = Trigger::Swipe(cardinal(Direction::Up, 200, true));
    let mut a = EventAdapter::new(&vec![up]);
    let ev = |dy: i64| {
        InputEvent::Ongoing(Gesture::Swipe(SwipeGesture { begin_time: 0, fingers: 3, dx: 0, dy }), 1)
    };
    assert_eq!(a.adapt(ev(-200 * U + 1)), Vec::<usize>::new());
    assert_eq!(a.adapt(ev(-200 * U)), vec![0]);
    let right = CardinalTrigger { fingers: 3, direction: Direction::Right, distance: 200 * SCALE_ONE, repeated: false };
    let g = SwipeGesture { begin_time: 0, fingers: 3, dx: 200 * U, dy: 0 };
    assert!(right.matches_swipe(&g, rest()));
    let g = SwipeGesture { begin_time: 0, fingers: 3, dx: 200 * U - 1, dy: 0 };
    assert!(!right.matches_swipe(&g, rest()));
}

#[test]
fn pinch_boundary_exact_scale() {
    let t = PinchTrigger { fingers: 3, direction: PinchDirection::In, scale: 1400, repeated: false };
    let g = PinchGesture { begin_time: 0, fingers: 3, scale: 1400, angle: 0, dx: 0, dy: 0 };
    assert!(t.matches(&g, SCALE_ONE));
    let g = PinchGesture { scale: 1399, ..g };
    assert!(!t.matches(&g, SCALE_ONE));
    // from an origin of 1.5 the target is 2.1
    let g = PinchGesture { scale: 2100, ..g };
    assert!(t.matches(&g, 1500));
    let out = PinchTrigger { direction: PinchDirection::Out, ..t };
    let g = PinchGesture { scale: 714, ..g };
    assert!(out.matches(&g, SCALE_ONE));
    let g = PinchGesture { scale: 715, ..g };
    assert!(!out.matches(&g, SCALE_ONE));
}

#[test]
fn hold_boundary_exact_time() {
    let t = HoldTrigger { fingers: 3, time: 50 };
    let g = HoldGesture { begin_time: 100, fingers: 3 };
    assert!(t.matches(&g, 150));
    assert!(!t.matches(&g, 149));
    assert!(!HoldTrigger { fingers: 2, time: 50 }.matches(&g, 150));
}

#[test]
fn hold_clock_wrap_does_not_fire() {
    let t = HoldTrigger { fingers: 3, time: 50 };
    let g = HoldGesture { begin_time: u32::MAX - 10, fingers: 3 };
    assert!(!t.matches(&g, 5));
    let t0 = HoldTrigger { fingers: 3, time: 0 };
    assert!(t0.matches(&g, 5));
}

#[test]
fn rotate_needs_sign_and_distance() {
    let t = RotateTrigger { fingers: 3, direction: RotateDirection::Anticlockwise, distance: 45 * SCALE_ONE, repeated: false };
    let g = PinchGesture { begin_time: 0, fingers: 3, scale: SCALE_ONE, angle: -45 * U, dx: 0, dy: 0 };
    assert!(t.matches(&g, 0));
    assert!(!t.matches(&g, -1));
    let g = PinchGesture { angle: 45 * U, ..g };
    assert!(!t.matches(&g, 0));
    assert!(RotateDirection::Clockwise.matches(1));
    assert!(!RotateDirection::Clockwise.matches(0));
}

#[test]
fn shear_matches_pinch_translation() {
    let t = Trigger::Shear(cardinal(Direction::Left, 100, false));
    let mut a = EventAdapter::new(&vec![t]);
    let g = PinchGesture { begin_time: 0, fingers: 3, scale: SCALE_ONE, angle: 0, dx: -100 * U, dy: 20 * U };
    assert_eq!(a.adapt(InputEvent::Ongoing(Gesture::Pinch(g), 5)), vec![0]);
    assert_eq!(a.origin(), Origin { x: -100 * U, y: 20 * U, scale: SCALE_ONE, rotation: 0 });
}

#[test]
fn swipe_match_negation_symmetry() {
    let o = rest();
    for (d, opp) in [
        (Direction::Up, Direction::Down),
        (Direction::Left, Direction::Right),
        (Direction::Down, Direction::Up),
        (Direction::Right, Direction::Left),
    ] {
        for (dx, dy) in [(30, -250), (-250, 30), (100, 100), (0, 0), (-199, 201)] {
            let t = cardinal(d, 200, false);
            let t2 = cardinal(opp, 200, false);
            let g = SwipeGesture { begin_time: 0, fingers: 3, dx: dx * U, dy: dy * U };
            let g2 = SwipeGesture { begin_time: 0, fingers: 3, dx: -dx * U, dy: -dy * U };
            assert_eq!(t.matches_swipe(&g, o), t2.matches_swipe(&g2, o));
        }
    }
}

#[test]
fn cones_meet_on_diagonals_only() {
    let dirs = [Direction::Up, Direction::Down, Direction::Left, Direction::Right];
    for (dx, dy) in [(3, -7), (-7, 3), (5, 5), (-5, 5), (0, 9), (1, 0)] {
        let hits: Vec<&Direction> = dirs.iter().filter(|d| d.matches(dx, dy)).collect();
        assert!(!hits.is_empty());
        if (dx as i64).abs() != (dy as i64).abs() {
            assert_eq!(hits.len(), 1);
        } else {
            assert_eq!(hits.len(), 2);
        }
    }
}

#[test]
fn single_fire_at_most_once_without_other_directions() {
    let mut a = EventAdapter::new(&vec![Trigger::Swipe(cardinal(Direction::Up, 100, false))]);
    let mut fired = 0;
    for k in 1..=10 {
        fired += a.adapt(swipe(0, -150 * k, k as u32)).len();
    }
    assert_eq!(fired, 1);
}

#[test]
fn repeated_fires_bounded_by_displacement() {
    let mut a = EventAdapter::new(&vec![Trigger::Swipe(cardinal(Direction::Right, 100, true))]);
    let mut fired = 0;
    for k in 1..=35 {
        fired += a.adapt(swipe(10 * k, 0, k as u32)).len();
    }
    // the fingers went 350 units right: at most 350 / 100 firings
    assert_eq!(fired, 3);
}

#[test]
fn wrong_finger_count_never_fires() {
    let mut a = EventAdapter::new(&scenario_triggers());
    let g = SwipeGesture { begin_time: 0, fingers: 4, dx: 0, dy: -500 * U };
    assert_eq!(a.adapt(InputEvent::Ongoing(Gesture::Swipe(g), 1)), Vec::<usize>::new());
    assert_eq!(a.adapt(InputEvent::Ongoing(Gesture::Idle, 2)), Vec::<usize>::new());
}

#[test]
fn repeated_fires_bounded_by_path_when_reversing() {
    let mut a = EventAdapter::new(&vec![
        Trigger::Swipe(cardinal(Direction::Up, 100, true)),
        Trigger::Swipe(cardinal(Direction::Down, 100, true)),
    ]);
    let mut up = 0;
    // back and forth four times over 100 units: a path of 800 units
    for k in 0..8u32 {
        let dy = if k % 2 == 0 { -100 } else { 0 };
        up += a.adapt(swipe(0, dy, k)).iter().filter(|i| **i == 0).count();
    }
    assert_eq!(up, 4);
    assert!(up <= 800 / 100);
}
