use wzmach::gesture::{
    Gesture, GestureProducer, GestureState, HoldGesture, InputEvent, PinchGesture, RawEvent, SwipeGesture,
};

#[test]
fn swipe_accumulates_and_ends() {
    let mut p = GestureProducer::new();
    let e = p.update(&RawEvent::SwipeBegin { time: 5, fingers: 3 });
    let begun = Gesture::Swipe(SwipeGesture { begin_time: 5, fingers: 3, dx: 0, dy: 0 });
    assert_eq!(e, InputEvent::Ongoing(begun, 5));
    p.update(&RawEvent::SwipeUpdate { time: 6, dx: 1500, dy: -200 });
    let e = p.update(&RawEvent::SwipeUpdate { time: 7, dx: 500, dy: -300 });
    let now = Gesture::Swipe(SwipeGesture { begin_time: 5, fingers: 3, dx: 2000, dy: -500 });
    assert_eq!(e, InputEvent::Ongoing(now, 7));
    let e = p.update(&RawEvent::SwipeEnd { time: 8, cancelled: false });
    assert_eq!(e, InputEvent::Ended(now, 8));
    assert_eq!(p.current(), Gesture::Idle);
}

#[test]
fn pinch_tracks_scale_angle_and_translation() {
    let mut p = GestureProducer::new();
    p.update(&RawEvent::PinchBegin { time: 1, fingers: 2, scale: 1000 });
    p.update(&RawEvent::PinchUpdate { time: 2, dx: 10, dy: 20, scale: 1100, angle_delta: 3000 });
    let e = p.update(&RawEvent::PinchUpdate { time: 3, dx: 5, dy: 5, scale: 1300, angle_delta: -1000 });
    let now = PinchGesture { begin_time: 1, fingers: 2, scale: 1300, angle: 2000, dx: 15, dy: 25 };
    assert_eq!(e, InputEvent::Ongoing(Gesture::Pinch(now), 3));
    let e = p.update(&RawEvent::PinchEnd { time: 4, scale: 1350, cancelled: true });
    assert_eq!(e, InputEvent::Cancelled(Gesture::Pinch(PinchGesture { scale: 1350, ..now }), 4));
    assert_eq!(p.current(), Gesture::Idle);
}

#[test]
fn hold_begins_and_ends() {
    let mut p = GestureProducer::new();
    let e = p.update(&RawEvent::HoldBegin { time: 100, fingers: 3 });
    let h = Gesture::Hold(HoldGesture { begin_time: 100, fingers: 3 });
    assert_eq!(e, InputEvent::Ongoing(h, 100));
    assert_eq!(p.update(&RawEvent::Other { time: 120 }), InputEvent::Ongoing(h, 120));
    assert_eq!(p.update(&RawEvent::HoldEnd { time: 160, cancelled: false }), InputEvent::Ended(h, 160));
}

#[test]
fn stream_without_begin_stays_idle() {
    let mut p = GestureProducer::new();
    let evs = [
        RawEvent::SwipeUpdate { time: 1, dx: 10, dy: 10 },
        RawEvent::PinchUpdate { time: 2, dx: 1, dy: 1, scale: 1200, angle_delta: 4 },
        RawEvent::Other { time: 3 },
        RawEvent::SwipeEnd { time: 4, cancelled: false },
        RawEvent::PinchEnd { time: 5, scale: 900, cancelled: true },
        RawEvent::HoldEnd { time: 6, cancelled: false },
    ];
    for ev in evs.iter() {
        let e = p.update(ev);
        let g = match e {
            InputEvent::Ongoing(g, _) | InputEvent::Ended(g, _) | InputEvent::Cancelled(g, _) => g,
        };
        assert_eq!(g, Gesture::Idle);
        assert_eq!(p.current(), Gesture::Idle);
    }
}

#[test]
fn accumulation_saturates() {
    let mut g = Gesture::Swipe(SwipeGesture { begin_time: 0, fingers: 3, dx: i64::MAX - 1, dy: i64::MIN + 1 });
    g.update_coords(10, -10);
    assert_eq!(g, Gesture::Swipe(SwipeGesture { begin_time: 0, fingers: 3, dx: i64::MAX, dy: i64::MIN }));
}

#[test]
fn gesture_update_reports_state() {
    let mut g = Gesture::Idle;
    assert_eq!(g.update(&RawEvent::SwipeBegin { time: 3, fingers: 4 }), GestureState::Ongoing(3));
    let s = g;
    assert_eq!(g.update(&RawEvent::SwipeEnd { time: 9, cancelled: true }), GestureState::Cancelled(s, 9));
    assert_eq!(g, Gesture::Idle);
    let e = InputEvent::from_state(GestureState::Ongoing(4), &s);
    assert_eq!(e, InputEvent::Ongoing(s, 4));
}

#[test]
fn update_of_another_kind_leaves_gesture() {
    let mut p = GestureProducer::new();
    p.update(&RawEvent::PinchBegin { time: 1, fingers: 2, scale: 1000 });
    let pinch = Gesture::Pinch(PinchGesture { begin_time: 1, fingers: 2, scale: 1000, angle: 0, dx: 0, dy: 0 });
    let e = p.update(&RawEvent::SwipeUpdate { time: 2, dx: 700, dy: -300 });
    assert_eq!(e, InputEvent::Ongoing(pinch, 2));
    assert_eq!(p.current(), pinch);

    let mut q = GestureProducer::new();
    q.update(&RawEvent::SwipeBegin { time: 1, fingers: 3 });
    let swipe = Gesture::Swipe(SwipeGesture { begin_time: 1, fingers: 3, dx: 0, dy: 0 });
    let e = q.update(&RawEvent::PinchUpdate { time: 2, dx: 5, dy: 5, scale: 1500, angle_delta: 10 });
    assert_eq!(e, InputEvent::Ongoing(swipe, 2));
    assert_eq!(q.current(), swipe);

    let mut g = Gesture::Hold(HoldGesture { begin_time: 0, fingers: 3 });
    let before = g;
    assert_eq!(g.update(&RawEvent::SwipeUpdate { time: 4, dx: 1, dy: 1 }), GestureState::Ongoing(4));
    assert_eq!(g, before);
}
