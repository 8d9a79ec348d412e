//! The trigger matcher: given the events of the tracker and a fixed list of
//! triggers, decides which triggers fire on each event, moving the origin of
//! the gesture and keeping single-fire triggers from firing twice.

use vstd::prelude::*;
use sorted_vec::SortedSet;
use crate::common::{AnyDirection, SCALE_ONE};
use crate::gesture::{Gesture, InputEvent};
use crate::trigger::{
    cardinal_match,
    direction_of,
    hold_match,
    pinch_match,
    repeated_of,
    rest_origin,
    rotate_match,
    Origin,
    Trigger,
};

verus! {

#[verifier::external_type_specification]
#[verifier::external_body]
#[verifier::reject_recursive_types(T)]
pub struct ExSortedSet<T: Ord>(SortedSet<T>);

/// The indices a sorted set holds.
pub uninterp spec fn set_items(s: SortedSet<usize>) -> Set<usize>;

/// Relies on sorted_vec::SortedSet::new: a new set holds nothing.
#[verifier::external_body]
fn empty_set() -> (r: SortedSet<usize>)
    ensures
        set_items(r) == Set::<usize>::empty(),
{
    SortedSet::new()
}

/// Relies on sorted_vec::SortedSet::find_or_insert: it reports an insertion
/// exactly when the item was absent, and the set holds the item afterwards.
#[verifier::external_body]
fn find_or_insert(s: &mut SortedSet<usize>, i: usize) -> (inserted: bool)
    ensures
        inserted == !set_items(*old(s)).contains(i),
        set_items(*final(s)) == set_items(*old(s)).insert(i),
{
    s.find_or_insert(i).is_inserted()
}

/// Relies on sorted_vec::SortedSet::into_vec: the vector holds the set's
/// items.
#[verifier::external_body]
fn into_items(s: SortedSet<usize>) -> (v: Vec<usize>)
    ensures
        v@.to_set() == set_items(s),
{
    s.into_vec()
}

/// Relies on sorted_vec::SortedSet's `Deref` to its vector: the vector is
/// empty exactly when the set is.
#[verifier::external_body]
fn set_is_empty(s: &SortedSet<usize>) -> (r: bool)
    ensures
        r == (set_items(*s) == Set::<usize>::empty()),
{
    s.is_empty()
}

/// Whether a trigger matches a gesture, given the origin and the event time.
/// Pairings other than those listed never match, nor does `Idle`.
pub open spec fn gesture_matches(t: Trigger, g: Gesture, o: Origin, ctime: u32) -> bool {
    match g {
        Gesture::Swipe(s) => match t {
            Trigger::Swipe(c) => cardinal_match(c, s.fingers, s.dx - o.x, s.dy - o.y),
            _ => false,
        },
        Gesture::Pinch(p) => match t {
            Trigger::Pinch(pt) => pinch_match(pt, p, o.scale),
            Trigger::Shear(c) => cardinal_match(c, p.fingers, p.dx - o.x, p.dy - o.y),
            Trigger::Rotate(r) => rotate_match(r, p, o.rotation),
            _ => false,
        },
        Gesture::Hold(h) => match t {
            Trigger::Hold(ht) => hold_match(ht, h, ctime),
            _ => false,
        },
        Gesture::Idle => false,
    }
}

/// Trigger `i` fires: it matches, and it is repeated or has not fired yet.
pub open spec fn fires(
    ts: Seq<Trigger>,
    done: Set<usize>,
    g: Gesture,
    o: Origin,
    ctime: u32,
    i: int,
) -> bool {
    gesture_matches(ts[i], g, o, ctime) && (repeated_of(ts[i]) || !done.contains(i as usize))
}

/// The triggers among the first `n` that fire, in list order.
pub open spec fn fired_upto(
    ts: Seq<Trigger>,
    done: Set<usize>,
    g: Gesture,
    o: Origin,
    ctime: u32,
    n: int,
) -> Seq<usize>
    decreases n,
{
    if n <= 0 {
        Seq::empty()
    } else if fires(ts, done, g, o, ctime, n - 1) {
        fired_upto(ts, done, g, o, ctime, n - 1).push((n - 1) as usize)
    } else {
        fired_upto(ts, done, g, o, ctime, n - 1)
    }
}

/// The single-fire triggers among the first `n` that fire.
pub open spec fn marked_upto(
    ts: Seq<Trigger>,
    done: Set<usize>,
    g: Gesture,
    o: Origin,
    ctime: u32,
    n: int,
) -> Set<usize> {
    Set::new(
        |j: usize| j < n && fires(ts, done, g, o, ctime, j as int) && !repeated_of(ts[j as int]),
    )
}

/// The gesture an event is matched on: a cancelled one matches nothing.
pub open spec fn event_gesture(ev: InputEvent) -> Gesture {
    match ev {
        InputEvent::Ongoing(g, _) => g,
        InputEvent::Ended(g, _) => g,
        InputEvent::Cancelled(_, _) => Gesture::Idle,
    }
}

pub open spec fn event_time(ev: InputEvent) -> u32 {
    match ev {
        InputEvent::Ongoing(_, t) => t,
        InputEvent::Ended(_, t) => t,
        InputEvent::Cancelled(_, t) => t,
    }
}

pub open spec fn event_ended(ev: InputEvent) -> bool {
    !(ev is Ongoing)
}

/// The indices that fire on an event, in list order.
pub open spec fn fired_of(ts: Seq<Trigger>, o: Origin, done: Set<usize>, ev: InputEvent) -> Seq<
    usize,
> {
    fired_upto(ts, done, event_gesture(ev), o, event_time(ev), ts.len() as int)
}

/// The single-fire set once this event's firings are recorded.
pub open spec fn after_fire(ts: Seq<Trigger>, o: Origin, done: Set<usize>, ev: InputEvent) -> Set<
    usize,
> {
    done.union(marked_upto(ts, done, event_gesture(ev), o, event_time(ev), ts.len() as int))
}

/// The directions of the fired triggers.
pub open spec fn fired_directions(ts: Seq<Trigger>, fired: Seq<usize>) -> Set<AnyDirection> {
    Set::new(
        |d: AnyDirection|
            exists|k: int| 0 <= k < fired.len() && direction_of(ts[fired[k] as int]) == Some(d),
    )
}

/// Whether trigger `i` has one of the directions.
pub open spec fn kept(ts: Seq<Trigger>, dirs: Set<AnyDirection>, i: usize) -> bool {
    match direction_of(ts[i as int]) {
        Some(d) => dirs.contains(d),
        None => false,
    }
}

/// The origin snapped to the gesture's current state.
pub open spec fn moved_origin(o: Origin, g: Gesture) -> Origin {
    match g {
        Gesture::Swipe(s) => Origin { x: s.dx, y: s.dy, ..o },
        Gesture::Pinch(p) => Origin { x: p.dx, y: p.dy, scale: p.scale, rotation: p.angle },
        _ => o,
    }
}

/// The origin after an event: at rest after an end, snapped to the gesture
/// when something fired, else unchanged.
pub open spec fn next_origin(ts: Seq<Trigger>, o: Origin, done: Set<usize>, ev: InputEvent) -> Origin {
    if event_ended(ev) {
        rest_origin()
    } else if fired_of(ts, o, done, ev).len() > 0 {
        moved_origin(o, event_gesture(ev))
    } else {
        o
    }
}

/// The single-fire set after an event: empty after an end; else the set
/// with this event's firings, and when directions fired, only the triggers
/// in those directions.
pub open spec fn next_triggered(
    ts: Seq<Trigger>,
    o: Origin,
    done: Set<usize>,
    ev: InputEvent,
) -> Set<usize> {
    let dirs = fired_directions(ts, fired_of(ts, o, done, ev));
    if event_ended(ev) {
        Set::empty()
    } else if dirs == Set::<AnyDirection>::empty() {
        after_fire(ts, o, done, ev)
    } else {
        after_fire(ts, o, done, ev).filter(|i: usize| kept(ts, dirs, i))
    }
}

/// The fired indices are below `n` and strictly increasing.
proof fn lemma_fired_below(
    ts: Seq<Trigger>,
    done: Set<usize>,
    g: Gesture,
    o: Origin,
    ctime: u32,
    n: int,
)
    requires
        n <= usize::MAX + 1,
    ensures
        ({
            let f = fired_upto(ts, done, g, o, ctime, n);
            &&& forall|k: int| 0 <= k < f.len() ==> f[k] < n
            &&& forall|a: int, b: int| 0 <= a < b < f.len() ==> f[a] < f[b]
        }),
    decreases n,
{
    if n > 0 {
        lemma_fired_below(ts, done, g, o, ctime, n - 1);
        let p = fired_upto(ts, done, g, o, ctime, n - 1);
        if fires(ts, done, g, o, ctime, n - 1) {
            let f = p.push((n - 1) as usize);
            assert(f[p.len() as int] == n - 1);
            assert(forall|k: int| 0 <= k < p.len() ==> f[k] == p[k]);
        }
    }
}

/// Whether a trigger matches a gesture (see `gesture_matches`).
pub fn trigger_matches(t: &Trigger, g: &Gesture, o: Origin, ctime: u32) -> (r: bool)
    ensures
        r == gesture_matches(*t, *g, o, ctime),
{
    match g {
        Gesture::Swipe(gs) => match t {
            Trigger::Swipe(ts) => ts.matches_swipe(gs, o),
            _ => false,
        },
        Gesture::Pinch(gp) => match t {
            Trigger::Pinch(tp) => tp.matches(gp, o.scale),
            Trigger::Shear(ts) => ts.matches_shear(gp, o),
            Trigger::Rotate(tr) => tr.matches(gp, o.rotation),
            _ => false,
        },
        Gesture::Hold(gh) => match t {
            Trigger::Hold(th) => th.matches(gh, ctime),
            _ => false,
        },
        Gesture::Idle => false,
    }
}

fn contains_direction(dirs: &Vec<AnyDirection>, d: AnyDirection) -> (r: bool)
    ensures
        r == dirs@.contains(d),
{
    let mut i: usize = 0;
    while i < dirs.len()
        invariant
            0 <= i <= dirs@.len(),
            forall|k: int| 0 <= k < i ==> dirs@[k] != d,
        decreases dirs@.len() - i,
    {
        if dirs[i] == d {
            return true;
        }
        i += 1;
    }
    false
}

/// Adapts the tracker's events into lists of fired trigger indices.
pub struct EventAdapter {
    triggers: Vec<Trigger>,
    adjust: Origin,
    triggered: SortedSet<usize>,
}

impl EventAdapter {
    pub closed spec fn triggers_view(&self) -> Seq<Trigger> {
        self.triggers@
    }

    /// The origin the next event is measured from.
    pub closed spec fn origin_view(&self) -> Origin {
        self.adjust
    }

    /// The single-fire triggers that have fired in this gesture.
    pub closed spec fn triggered_view(&self) -> Set<usize> {
        set_items(self.triggered)
    }

    pub open spec fn wf(&self) -> bool {
        &&& self.triggers_view().len() <= usize::MAX
        &&& forall|i: usize| #[trigger]
            self.triggered_view().contains(i) ==> i < self.triggers_view().len()
    }

    /// A matcher at rest over a copy of the triggers.
    pub fn new(triggers: &Vec<Trigger>) -> (r: EventAdapter)
        ensures
            r.wf(),
            r.triggers_view() == triggers@,
            r.origin_view() == rest_origin(),
            r.triggered_view() == Set::<usize>::empty(),
    {
        EventAdapter {
            triggers: triggers.clone(),
            adjust: Origin { x: 0, y: 0, scale: SCALE_ONE, rotation: 0 },
            triggered: empty_set(),
        }
    }

    /// Snaps the origin to the gesture's current state, so that the next
    /// firings are measured from where the fingers rest now.
    fn move_origin(&mut self, gesture: &Gesture)
        ensures
            final(self).adjust == moved_origin(old(self).adjust, *gesture),
            final(self).triggers == old(self).triggers,
            final(self).triggered == old(self).triggered,
    {
        match gesture {
            Gesture::Swipe(s) => {
                self.adjust.x = s.dx;
                self.adjust.y = s.dy;
            },
            Gesture::Pinch(p) => {
                self.adjust.x = p.dx;
                self.adjust.y = p.dy;
                self.adjust.rotation = p.angle;
                self.adjust.scale = p.scale;
            },
            _ => {},
        }
    }

    /// The indices of the triggers that fire on an event, in list order.
    /// An end or a cancel brings the matcher back to rest; otherwise, when
    /// something fired, the origin snaps to the gesture, and the single-fire
    /// triggers in directions other than those that just fired may fire again.
    pub fn adapt(&mut self, event: InputEvent) -> (r: Vec<usize>)
        requires
            old(self).wf(),
        ensures
            final(self).wf(),
            final(self).triggers_view() == old(self).triggers_view(),
            r@ == fired_of(
                old(self).triggers_view(),
                old(self).origin_view(),
                old(self).triggered_view(),
                event,
            ),
            final(self).origin_view() == next_origin(
                old(self).triggers_view(),
                old(self).origin_view(),
                old(self).triggered_view(),
                event,
            ),
            final(self).triggered_view() == next_triggered(
                old(self).triggers_view(),
                old(self).origin_view(),
                old(self).triggered_view(),
                event,
            ),
    {
        let (gesture, ctime, ended) = match event {
            InputEvent::Ongoing(g, t) => (g, t, false),
            InputEvent::Ended(g, t) => (g, t, true),
            InputEvent::Cancelled(_, t) => (Gesture::Idle, t, true),
        };
        let ghost ts = self.triggers@;
        let ghost done = set_items(self.triggered);
        let ghost o = self.adjust;
        let n = self.triggers.len();
        let mut inds: Vec<usize> = Vec::new();
        let mut i: usize = 0;
        while i < n
            invariant
                0 <= i <= n,
                n == ts.len(),
                self.triggers@ == ts,
                self.adjust == o,
                inds@ == fired_upto(ts, done, gesture, o, ctime, i as int),
                set_items(self.triggered) == done.union(
                    marked_upto(ts, done, gesture, o, ctime, i as int),
                ),
            decreases n - i,
        {
            let ghost before = set_items(self.triggered);
            if trigger_matches(&self.triggers[i], &gesture, self.adjust, ctime) {
                if !self.triggers[i].repeated() {
                    assert(!marked_upto(ts, done, gesture, o, ctime, i as int).contains(i));
                    if find_or_insert(&mut self.triggered, i) {
                        inds.push(i);
                    }
                } else {
                    inds.push(i);
                }
            }
            assert(set_items(self.triggered) =~= done.union(
                marked_upto(ts, done, gesture, o, ctime, i + 1),
            ));
            i += 1;
        }
        proof {
            lemma_fired_below(ts, done, gesture, o, ctime, n as int);
        }
        if ended {
            self.adjust = Origin { x: 0, y: 0, scale: SCALE_ONE, rotation: 0 };
            self.triggered = empty_set();
            return inds;
        }
        if inds.len() != 0 {
            self.move_origin(&gesture);
        }
        let ghost o2 = self.adjust;
        let ghost kept_before = set_items(self.triggered);
        assert forall|x: usize| kept_before.contains(x) implies x < n by {
            if done.contains(x) {
                assert(old(self).triggered_view().contains(x));
            }
        }
        let ghost dirs_set = fired_directions(ts, inds@);
        let mut dirs: Vec<AnyDirection> = Vec::new();
        let mut k: usize = 0;
        while k < inds.len()
            invariant
                0 <= k <= inds@.len(),
                n == ts.len(),
                self.triggers@ == ts,
                self.adjust == o2,
                set_items(self.triggered) == kept_before,
                forall|j: int| 0 <= j < inds@.len() ==> inds@[j] < n,
                forall|d: AnyDirection|
                    dirs@.contains(d) <==> exists|j: int|
                        0 <= j < k && direction_of(ts[inds@[j] as int]) == Some(d),
            decreases inds@.len() - k,
        {
            let ghost old_dirs = dirs@;
            let dir = self.triggers[inds[k]].direction();
            match dir {
                Some(d) => {
                    dirs.push(d);
                },
                None => {},
            }
            assert forall|d: AnyDirection|
                dirs@.contains(d) <==> (old_dirs.contains(d) || dir == Some(d)) by {
                if dir == Some(d) {
                    assert(dirs@[dirs@.len() - 1] == d);
                }
                if old_dirs.contains(d) {
                    let idx = choose|idx: int| 0 <= idx < old_dirs.len() && old_dirs[idx] == d;
                    assert(dirs@[idx] == d);
                }
                if dirs@.contains(d) {
                    let idx = choose|idx: int| 0 <= idx < dirs@.len() && dirs@[idx] == d;
                    if idx < old_dirs.len() {
                        assert(old_dirs[idx] == d);
                    }
                }
            }
            assert forall|d: AnyDirection|
                dirs@.contains(d) <==> exists|j: int|
                    0 <= j < k + 1 && direction_of(ts[inds@[j] as int]) == Some(d) by {
                if exists|j: int| 0 <= j < k + 1 && direction_of(ts[inds@[j] as int]) == Some(d) {
                    let j = choose|j: int|
                        0 <= j < k + 1 && direction_of(ts[inds@[j] as int]) == Some(d);
                    if j < k {
                        assert(old_dirs.contains(d));
                    }
                }
                if old_dirs.contains(d) {
                    let j = choose|j: int|
                        0 <= j < k && direction_of(ts[inds@[j] as int]) == Some(d);
                    assert(0 <= j < k + 1 && direction_of(ts[inds@[j] as int]) == Some(d));
                }
                if dir == Some(d) {
                    assert(direction_of(ts[inds@[k as int] as int]) == Some(d));
                }
            }
            k += 1;
        }
        if dirs.len() != 0 {
            assert(dirs@.contains(dirs@[0]));
            assert(dirs_set.contains(dirs@[0]));
            let mut taken = empty_set();
            std::mem::swap(&mut taken, &mut self.triggered);
            let items = into_items(taken);
            let mut j: usize = 0;
            while j < items.len()
                invariant
                    0 <= j <= items@.len(),
                    n == ts.len(),
                    self.triggers@ == ts,
                    items@.to_set() == kept_before,
                    self.adjust == o2,
                    forall|x: usize| kept_before.contains(x) ==> x < n,
                    forall|d: AnyDirection| dirs@.contains(d) <==> dirs_set.contains(d),
                    forall|x: usize|
                        #[trigger] set_items(self.triggered).contains(x) <==> ((exists|jj: int|
                            0 <= jj < j && items@[jj] == x) && kept(ts, dirs_set, x)),
                decreases items@.len() - j,
            {
                let it = items[j];
                assert(items@.to_set().contains(it));
                let ghost before = set_items(self.triggered);
                match self.triggers[it].direction() {
                    Some(d) => {
                        if contains_direction(&dirs, d) {
                            find_or_insert(&mut self.triggered, it);
                        }
                    },
                    None => {},
                }
                assert(set_items(self.triggered) == if kept(ts, dirs_set, it) {
                    before.insert(it)
                } else {
                    before
                });
                assert forall|x: usize|
                    set_items(self.triggered).contains(x) <==> ((exists|jj: int|
                        0 <= jj < j + 1 && items@[jj] == x) && kept(ts, dirs_set, x)) by {
                    if exists|jj: int| 0 <= jj < j + 1 && items@[jj] == x {
                        let jj = choose|jj: int| 0 <= jj < j + 1 && items@[jj] == x;
                        if jj < j {
                            assert(exists|jj: int| 0 <= jj < j && items@[jj] == x);
                        }
                    }
                    if x == it {
                        assert(items@[j as int] == x);
                    }
                    if before.contains(x) {
                        let jj = choose|jj: int| 0 <= jj < j && items@[jj] == x;
                        assert(0 <= jj < j + 1 && items@[jj] == x);
                    }
                }
                j += 1;
            }
            assert forall|x: usize|
                set_items(self.triggered).contains(x) <==> kept_before.filter(
                    |i: usize| kept(ts, dirs_set, i),
                ).contains(x) by {
                if kept_before.contains(x) {
                    assert(items@.contains(x));
                    let jj = choose|jj: int| 0 <= jj < items@.len() && items@[jj] == x;
                    assert(exists|jj: int| 0 <= jj < j && items@[jj] == x);
                }
                if set_items(self.triggered).contains(x) {
                    let jj = choose|jj: int| 0 <= jj < j && items@[jj] == x;
                    assert(items@.contains(x));
                }
            }
            assert(set_items(self.triggered) =~= kept_before.filter(
                |i: usize| kept(ts, dirs_set, i),
            ));
            assert forall|x: usize| #[trigger] set_items(self.triggered).contains(x) implies x < n by {
                assert(kept_before.contains(x));
            }
        } else {
            assert forall|d: AnyDirection| !dirs_set.contains(d) by {
                if dirs_set.contains(d) {
                    assert(dirs@.contains(d));
                }
            }
            assert(dirs_set =~= Set::<AnyDirection>::empty());
        }
        inds
    }

    /// The origin the next event is measured from.
    pub fn origin(&self) -> (r: Origin)
        ensures
            r == self.origin_view(),
    {
        self.adjust
    }

    /// Whether no single-fire trigger is marked as fired.
    pub fn none_triggered(&self) -> (r: bool)
        ensures
            r == (self.triggered_view() == Set::<usize>::empty()),
    {
        set_is_empty(&self.triggered)
    }
}

} // verus!
