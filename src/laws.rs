//! Laws that relate the tracker's and the matcher's steps over whole event
//! streams, and facts about the direction cones.

use vstd::prelude::*;
use crate::common::{AnyDirection, Direction};
use crate::gesture::{carried, emitted, is_begin, next_gesture, after_events, Gesture, InputEvent, RawEvent};
use crate::matcher::{
    after_fire,
    event_ended,
    event_gesture,
    event_time,
    fired_directions,
    fired_of,
    fired_upto,
    fires,
    kept,
    marked_upto,
    moved_origin,
    next_origin,
    next_triggered,
};
use crate::trigger::{
    abs,
    cardinal_match,
    direction_of,
    in_cone,
    repeated_of,
    rest_origin,
    CardinalTrigger,
    Origin,
    Trigger,
};

verus! {

/// The direction pointing the other way.
pub open spec fn opposite(d: Direction) -> Direction {
    match d {
        Direction::Up => Direction::Down,
        Direction::Down => Direction::Up,
        Direction::Left => Direction::Right,
        Direction::Right => Direction::Left,
    }
}

/// A cardinal trigger matches a displacement exactly when the same trigger
/// turned the opposite way matches the negated displacement.
pub proof fn swipe_match_symmetric(t: CardinalTrigger, fingers: i32, dx: int, dy: int)
    ensures
        cardinal_match(t, fingers, dx, dy) == cardinal_match(
            CardinalTrigger { direction: opposite(t.direction), ..t },
            fingers,
            -dx,
            -dy,
        ),
{
}

/// Every displacement lies in at least one direction's cone.
pub proof fn cones_cover(dx: int, dy: int)
    ensures
        in_cone(Direction::Up, dx, dy) || in_cone(Direction::Down, dx, dy) || in_cone(
            Direction::Left,
            dx,
            dy,
        ) || in_cone(Direction::Right, dx, dy),
{
}

/// Two different cones meet only on the diagonals.
pub proof fn cones_overlap_on_diagonals(a: Direction, b: Direction, dx: int, dy: int)
    requires
        a != b,
        in_cone(a, dx, dy),
        in_cone(b, dx, dy),
    ensures
        abs(dx) == abs(dy),
{
}

/// How many direction cones hold a displacement.
pub open spec fn cone_count(dx: int, dy: int) -> int {
    (if in_cone(Direction::Up, dx, dy) { 1int } else { 0 }) + (if in_cone(Direction::Down, dx, dy) {
        1int
    } else {
        0
    }) + (if in_cone(Direction::Left, dx, dy) { 1int } else { 0 }) + (if in_cone(
        Direction::Right,
        dx,
        dy,
    ) {
        1int
    } else {
        0
    })
}

/// Off the diagonals a displacement lies in exactly one cone; on a diagonal
/// other than the origin, in exactly the two cones that meet there.
pub proof fn cones_partition(dx: int, dy: int)
    ensures
        abs(dx) != abs(dy) ==> cone_count(dx, dy) == 1,
        abs(dx) == abs(dy) && dx != 0 ==> cone_count(dx, dy) == 2,
        dx == dy && dx > 0 ==> in_cone(Direction::Down, dx, dy) && in_cone(Direction::Right, dx, dy),
        dx == dy && dx < 0 ==> in_cone(Direction::Up, dx, dy) && in_cone(Direction::Left, dx, dy),
        dx == -dy && dx > 0 ==> in_cone(Direction::Up, dx, dy) && in_cone(Direction::Right, dx, dy),
        dx == -dy && dx < 0 ==> in_cone(Direction::Down, dx, dy) && in_cone(Direction::Left, dx, dy),
{
}

/// Without a begin, the tracker stays idle, and every event it emits
/// carries no gesture.
pub proof fn no_begin_stays_idle(evs: Seq<RawEvent>)
    requires
        forall|i: int| 0 <= i < evs.len() ==> !is_begin(#[trigger] evs[i]),
    ensures
        after_events(Gesture::Idle, evs) == Gesture::Idle,
        forall|i: int|
            0 <= i < evs.len() ==> carried(
                #[trigger] emitted(after_events(Gesture::Idle, evs.take(i)), evs[i]),
            ) == Gesture::Idle,
    decreases evs.len(),
{
    if evs.len() > 0 {
        let prefix = evs.drop_last();
        no_begin_stays_idle(prefix);
        assert forall|i: int| 0 <= i < evs.len() implies carried(
            #[trigger] emitted(after_events(Gesture::Idle, evs.take(i)), evs[i]),
        ) == Gesture::Idle by {
            if i < prefix.len() {
                assert(evs.take(i) =~= prefix.take(i));
                assert(prefix[i] == evs[i]);
            } else {
                assert(evs.take(i) =~= prefix);
            }
        }
    }
}

/// An end or a cancel leaves the matcher at rest: the origin is reset and no
/// trigger is marked as fired.
pub proof fn end_brings_rest(ts: Seq<Trigger>, o: Origin, done: Set<usize>, ev: InputEvent)
    requires
        event_ended(ev),
    ensures
        next_origin(ts, o, done, ev) == rest_origin(),
        next_triggered(ts, o, done, ev) == Set::<usize>::empty(),
{
}

/// How many times trigger `i` fires while the matcher, from origin `o` and
/// marked set `done`, consumes `evs`.
pub open spec fn times_fired(
    ts: Seq<Trigger>,
    o: Origin,
    done: Set<usize>,
    evs: Seq<InputEvent>,
    i: usize,
) -> nat
    decreases evs.len(),
{
    if evs.len() == 0 {
        0
    } else {
        (if fired_of(ts, o, done, evs[0]).contains(i) {
            1nat
        } else {
            0nat
        }) + times_fired(
            ts,
            next_origin(ts, o, done, evs[0]),
            next_triggered(ts, o, done, evs[0]),
            evs.drop_first(),
            i,
        )
    }
}

/// Once trigger `i` is marked as fired, every event of `evs` on which
/// directions fire has `i`'s direction among them.
pub open spec fn keeps_marked(
    ts: Seq<Trigger>,
    o: Origin,
    done: Set<usize>,
    evs: Seq<InputEvent>,
    i: usize,
) -> bool
    decreases evs.len(),
{
    evs.len() == 0 || ({
        let dirs = fired_directions(ts, fired_of(ts, o, done, evs[0]));
        &&& after_fire(ts, o, done, evs[0]).contains(i) ==> dirs == Set::<AnyDirection>::empty()
            || dirs.contains(direction_of(ts[i as int])->Some_0)
        &&& keeps_marked(
            ts,
            next_origin(ts, o, done, evs[0]),
            next_triggered(ts, o, done, evs[0]),
            evs.drop_first(),
            i,
        )
    })
}

/// One gesture: every event but the last goes on.
pub open spec fn one_gesture(evs: Seq<InputEvent>) -> bool {
    forall|k: int| 0 <= k < evs.len() - 1 ==> #[trigger] evs[k] is Ongoing
}

proof fn lemma_fired_contains(
    ts: Seq<Trigger>,
    done: Set<usize>,
    g: Gesture,
    o: Origin,
    ctime: u32,
    n: int,
    x: usize,
)
    requires
        0 <= n <= usize::MAX + 1,
    ensures
        fired_upto(ts, done, g, o, ctime, n).contains(x) <==> (x < n && fires(
            ts,
            done,
            g,
            o,
            ctime,
            x as int,
        )),
    decreases n,
{
    if n > 0 {
        lemma_fired_contains(ts, done, g, o, ctime, n - 1, x);
        let p = fired_upto(ts, done, g, o, ctime, n - 1);
        if fires(ts, done, g, o, ctime, n - 1) {
            let f = p.push((n - 1) as usize);
            if x == n - 1 {
                assert(f[p.len() as int] == x);
            }
            if p.contains(x) {
                let k = choose|k: int| 0 <= k < p.len() && p[k] == x;
                assert(f[k] == x);
            }
            if f.contains(x) && x != n - 1 {
                let k = choose|k: int| 0 <= k < f.len() && f[k] == x;
                assert(p[k] == x);
            }
        }
    }
}

/// A single-fire trigger that is marked stays marked through an ongoing
/// event on which no direction fires, or its own direction does.
proof fn lemma_mark_kept(ts: Seq<Trigger>, o: Origin, done: Set<usize>, ev: InputEvent, i: usize)
    requires
        i < ts.len(),
        !repeated_of(ts[i as int]),
        ev is Ongoing,
        after_fire(ts, o, done, ev).contains(i),
        ({
            let dirs = fired_directions(ts, fired_of(ts, o, done, ev));
            dirs == Set::<AnyDirection>::empty() || dirs.contains(direction_of(ts[i as int])->Some_0)
        }),
    ensures
        next_triggered(ts, o, done, ev).contains(i),
{
    let d = direction_of(ts[i as int])->Some_0;
    assert(direction_of(ts[i as int]) == Some(d));
}

/// A single-fire trigger that is marked as fired does not fire, whatever the
/// event.
pub proof fn marked_never_fires(
    ts: Seq<Trigger>,
    o: Origin,
    done: Set<usize>,
    ev: InputEvent,
    i: usize,
)
    requires
        ts.len() <= usize::MAX,
        i < ts.len(),
        !repeated_of(ts[i as int]),
        done.contains(i),
    ensures
        !fired_of(ts, o, done, ev).contains(i),
{
    lemma_fired_contains(ts, done, event_gesture(ev), o, event_time(ev), ts.len() as int, i);
}

/// A single-fire trigger fires at most once in a gesture, unless only other
/// directions fire after it did (which lets it fire again).
pub proof fn single_fire_at_most_once(
    ts: Seq<Trigger>,
    o: Origin,
    done: Set<usize>,
    evs: Seq<InputEvent>,
    i: usize,
)
    requires
        ts.len() <= usize::MAX,
        i < ts.len(),
        !repeated_of(ts[i as int]),
        one_gesture(evs),
        keeps_marked(ts, o, done, evs, i),
    ensures
        times_fired(ts, o, done, evs, i) <= if done.contains(i) {
            0nat
        } else {
            1nat
        },
    decreases evs.len(),
{
    if evs.len() > 0 {
        let ev = evs[0];
        let f = fired_of(ts, o, done, ev);
        let rest = evs.drop_first();
        let g = event_gesture(ev);
        let t = event_time(ev);
        lemma_fired_contains(ts, done, g, o, t, ts.len() as int, i);
        assert(one_gesture(rest)) by {
            assert forall|k: int| 0 <= k < rest.len() - 1 implies #[trigger] rest[k] is Ongoing by {
                assert(rest[k] == evs[k + 1]);
            }
        }
        let o2 = next_origin(ts, o, done, ev);
        let d2 = next_triggered(ts, o, done, ev);
        single_fire_at_most_once(ts, o2, d2, rest, i);
        if rest.len() > 0 {
            assert(evs[0] is Ongoing);
            if done.contains(i) || f.contains(i) {
                if f.contains(i) {
                    assert(marked_upto(ts, done, g, o, t, ts.len() as int).contains(i));
                }
                assert(after_fire(ts, o, done, ev).contains(i));
                lemma_mark_kept(ts, o, done, ev, i);
            }
        }
    }
}

/// The distance between two points along the longer axis.
pub open spec fn dist(ax: int, ay: int, bx: int, by: int) -> int {
    if abs(ax - bx) >= abs(ay - by) {
        abs(ax - bx)
    } else {
        abs(ay - by)
    }
}

/// Where a swipe event's fingers are.
pub open spec fn pos_x(ev: InputEvent) -> int {
    event_gesture(ev)->Swipe_0.dx as int
}

pub open spec fn pos_y(ev: InputEvent) -> int {
    event_gesture(ev)->Swipe_0.dy as int
}

/// The length of the path from `(x, y)` through the positions of `evs`,
/// each step measured along its longer axis.
pub open spec fn path_length(x: int, y: int, evs: Seq<InputEvent>) -> int
    decreases evs.len(),
{
    if evs.len() == 0 {
        0
    } else {
        dist(x, y, pos_x(evs[0]), pos_y(evs[0])) + path_length(
            pos_x(evs[0]),
            pos_y(evs[0]),
            evs.drop_first(),
        )
    }
}

/// Every event is matched on a swipe.
pub open spec fn all_swipes(evs: Seq<InputEvent>) -> bool {
    forall|k: int| 0 <= k < evs.len() ==> #[trigger] event_gesture(evs[k]) is Swipe
}

proof fn lemma_path_nonnegative(x: int, y: int, evs: Seq<InputEvent>)
    ensures
        path_length(x, y, evs) >= 0,
    decreases evs.len(),
{
    if evs.len() > 0 {
        lemma_path_nonnegative(pos_x(evs[0]), pos_y(evs[0]), evs.drop_first());
    }
}

/// A swipe trigger with distance `d`, from origin `o` with the fingers last
/// at `(x, y)`, fires at most as often as `d` fits into the distance from
/// the origin to the fingers plus the path still to come. Other triggers
/// may fire too.
pub proof fn swipe_fires_within_path(
    ts: Seq<Trigger>,
    o: Origin,
    done: Set<usize>,
    evs: Seq<InputEvent>,
    i: usize,
    x: int,
    y: int,
)
    requires
        ts.len() <= usize::MAX,
        i < ts.len(),
        ts[i as int] is Swipe,
        one_gesture(evs),
        all_swipes(evs),
    ensures
        times_fired(ts, o, done, evs, i) * ts[i as int]->Swipe_0.distance <= dist(
            o.x as int,
            o.y as int,
            x,
            y,
        ) + path_length(x, y, evs),
    decreases evs.len(),
{
    let d = ts[i as int]->Swipe_0.distance;
    if evs.len() == 0 {
        let n = times_fired(ts, o, done, evs, i);
        assert(n == 0);
        assert(n * d == 0) by (nonlinear_arith)
            requires
                n == 0,
        ;
    } else {
        let ev = evs[0];
        let f = fired_of(ts, o, done, ev);
        let rest = evs.drop_first();
        let g = event_gesture(ev);
        let t = event_time(ev);
        let px = pos_x(ev);
        let py = pos_y(ev);
        assert(g is Swipe);
        lemma_fired_contains(ts, done, g, o, t, ts.len() as int, i);
        lemma_path_nonnegative(px, py, rest);
        assert(one_gesture(rest)) by {
            assert forall|k: int| 0 <= k < rest.len() - 1 implies #[trigger] rest[k] is Ongoing by {
                assert(rest[k] == evs[k + 1]);
            }
        }
        assert(all_swipes(rest)) by {
            assert forall|k: int| 0 <= k < rest.len() implies #[trigger] event_gesture(rest[k]) is Swipe by {
                assert(rest[k] == evs[k + 1]);
            }
        }
        let o2 = next_origin(ts, o, done, ev);
        let d2 = next_triggered(ts, o, done, ev);
        let n_all = times_fired(ts, o, done, evs, i);
        let n_rest = times_fired(ts, o2, d2, rest, i);
        assert(path_length(x, y, evs) == dist(x, y, px, py) + path_length(px, py, rest));
        if rest.len() > 0 {
            assert(evs[0] is Ongoing);
            swipe_fires_within_path(ts, o2, d2, rest, i, px, py);
            if f.len() > 0 {
                assert(o2 == moved_origin(o, g));
                assert(o2.x == px && o2.y == py);
            } else {
                assert(o2 == o);
            }
        } else {
            assert(n_rest == 0);
            assert(n_rest * d == 0) by (nonlinear_arith)
                requires
                    n_rest == 0,
            ;
        }
        if f.contains(i) {
            assert(cardinal_match(ts[i as int]->Swipe_0, g->Swipe_0.fingers, px - o.x, py - o.y));
            assert(dist(o.x as int, o.y as int, px, py) >= d);
            assert(n_all == 1 + n_rest);
            assert(n_all * d == d + n_rest * d) by (nonlinear_arith)
                requires
                    n_all == 1 + n_rest,
            ;
        } else {
            assert(n_all == n_rest);
        }
    }
}

/// A swipe trigger with distance `d > 0` fires at most `L / d` times in a
/// gesture whose fingers travel a path of length `L`, whichever other
/// triggers fire.
pub proof fn swipe_fires_at_most_path_over_distance(
    ts: Seq<Trigger>,
    evs: Seq<InputEvent>,
    i: usize,
)
    requires
        ts.len() <= usize::MAX,
        i < ts.len(),
        ts[i as int] is Swipe,
        ts[i as int]->Swipe_0.distance > 0,
        one_gesture(evs),
        all_swipes(evs),
    ensures
        times_fired(ts, rest_origin(), Set::empty(), evs, i) <= path_length(0, 0, evs)
            / ts[i as int]->Swipe_0.distance as int,
{
    let d = ts[i as int]->Swipe_0.distance as int;
    let n = times_fired(ts, rest_origin(), Set::empty(), evs, i) as int;
    let l = path_length(0, 0, evs);
    swipe_fires_within_path(ts, rest_origin(), Set::empty(), evs, i, 0, 0);
    assert(n * d <= l);
    assert(n <= l / d) by (nonlinear_arith)
        requires
            n * d <= l,
            d > 0,
            n >= 0,
    ;
}

} // verus!
