//! Touch: the gesture state machine, and which device it is fed from.
//!
//! The panel has exactly two gestures to recognise. This is where the decoding is, with no
//! knowledge of any device: it can be driven from a recorded event log as well as from a panel.
//!
//! Device coordinates are whole numbers in the device's own range; screen coordinates are in
//! thousandths of a pixel.

use std::collections::HashMap;
use vstd::prelude::*;

use crate::domain::{elapsed, time_since};
use crate::layout::LONGEST_SIDE;
use crate::text::{contains_text, holds, lowercase, lowered};

verus! {

broadcast use vstd::std_specs::hash::group_hash_axioms;

/// A recognised gesture.
#[derive(Debug, Clone, Copy, PartialEq, Eq, Structural)]
pub enum Gesture {
    /// A single finger touched and released without moving far.
    Tap { x: i64, y: i64 },
    /// Two fingers touched and released together.
    TwoFingerTap,
}

/// Ignore a touch as a tap if the finger moved further than this: 24 pixels. Vibration and a bumpy
/// panel mount produce a few pixels of movement even on a deliberate press.
pub const TAP_MOVE_TOLERANCE: i64 = 24_000;

/// A press held longer than this is not a tap: 600 ms. Prevents a resting hand from cycling the
/// range.
pub const TAP_MAX_DURATION: u64 = 600_000_000;

/// One decoded input event.
#[derive(Debug, Clone, Copy, PartialEq, Eq, Structural)]
pub enum TouchEvent {
    Slot(i32),
    /// Non-negative starts a contact; -1 ends it.
    TrackingId(i32),
    PositionX(i32),
    PositionY(i32),
    /// `false` is release. Some controllers report a single-touch release only this way.
    BtnTouch(bool),
}

/// One finger on the panel.
#[derive(Debug, Clone, Copy)]
pub struct Slot {
    /// Where it came down, on screen.
    pub start: (i64, i64),
    /// Where it is, in device coordinates.
    pub latest: (i32, i32),
    /// How far it has been from where it came down, squared.
    pub moved: i64,
    /// Whether `start` holds a real reading yet. The top-left corner of the panel is a perfectly
    /// good place to press, so no coordinate can stand for "none".
    pub positioned: bool,
    /// Which axes have been seen for this contact. Positions arrive one axis per event, so a
    /// contact is only usable once both have landed.
    pub have_x: bool,
    pub have_y: bool,
}

/// The ranges of a device and the size of the screen its coordinates are scaled to.
#[derive(Debug, Clone, Copy)]
pub struct Scaling {
    pub x_range: (i32, i32),
    pub y_range: (i32, i32),
    pub screen: (i64, i64),
}

impl Scaling {
    pub open spec fn wf(self) -> bool {
        0 <= self.screen.0 <= LONGEST_SIDE && 0 <= self.screen.1 <= LONGEST_SIDE
    }

    /// A device point on screen.
    pub open spec fn point(self, raw: (i32, i32)) -> (i64, i64) {
        (
            scaled(raw.0 as int, self.x_range, self.screen.0 as int) as i64,
            scaled(raw.1 as int, self.y_range, self.screen.1 as int) as i64,
        )
    }
}

/// A device coordinate as a length on screen: its share of its range, never outside the screen.
pub open spec fn scaled(value: int, range: (i32, i32), extent: int) -> int {
    let span = if range.1 - range.0 < 1 {
        1
    } else {
        range.1 - range.0
    };
    if value <= range.0 {
        0
    } else if value - range.0 >= span {
        extent
    } else {
        (value - range.0) * extent / span
    }
}

fn scale_axis(value: i32, range: (i32, i32), extent: i64) -> (r: i64)
    requires
        0 <= extent <= LONGEST_SIDE,
    ensures
        r == scaled(value as int, range, extent as int),
        0 <= r <= extent,
{
    let width: i64 = range.1 as i64 - range.0 as i64;
    let span: i64 = if width < 1 {
        1
    } else {
        width
    };
    let along: i64 = value as i64 - range.0 as i64;
    if along <= 0 {
        return 0;
    }
    if along >= span {
        return extent;
    }
    proof {
        assert(0 <= along * extent <= 4_294_967_296 * 1_000_000_000) by (nonlinear_arith)
            requires
                0 <= along <= 4_294_967_296,
                0 <= extent <= 1_000_000_000,
        ;
        let (a, e, s) = (along as int, extent as int, span as int);
        assert(a * e <= e * s) by (nonlinear_arith)
            requires
                0 <= a < s,
                0 <= e,
        ;
        assert(0 <= a * e / s <= e) by (nonlinear_arith)
            requires
                0 <= a * e <= e * s,
                0 < s,
                0 <= e,
        ;
    }
    along * extent / span
}

/// Scale a raw device coordinate pair to the screen.
pub fn scale_point(raw: (i32, i32), scaling: &Scaling) -> (r: (i64, i64))
    requires
        scaling.wf(),
    ensures
        r == scaling.point(raw),
        0 <= r.0 <= scaling.screen.0,
        0 <= r.1 <= scaling.screen.1,
{
    (
        scale_axis(raw.0, scaling.x_range, scaling.screen.0),
        scale_axis(raw.1, scaling.y_range, scaling.screen.1),
    )
}

/// What the state machine remembers between events.
pub ghost struct Touch {
    pub current_slot: i32,
    pub active: Map<i32, Slot>,
    pub peak_fingers: nat,
    pub sequence_started: Option<u64>,
    pub last_release: (i64, i64),
    pub have_release: bool,
    pub max_moved: int,
}

/// The gesture state machine.
#[derive(Debug)]
pub struct TouchState {
    scaling: Scaling,
    /// Currently addressed slot.
    current_slot: i32,
    active: HashMap<i32, Slot>,
    /// Highest number of simultaneous fingers seen during this touch sequence.
    peak_fingers: usize,
    sequence_started: Option<u64>,
    /// Where the last finger was, so a tap can be reported at a position after release.
    last_release: (i64, i64),
    /// Whether `last_release` has been set from a real reading.
    have_release: bool,
    /// How far any finger has moved in this touch sequence, squared.
    max_moved: i64,
}

/// The squared distance between two points of the screen.
pub open spec fn apart(a: (i64, i64), b: (i64, i64)) -> int {
    (a.0 - b.0) * (a.0 - b.0) + (a.1 - b.1) * (a.1 - b.1)
}

fn distance(a: (i64, i64), b: (i64, i64)) -> (r: i64)
    requires
        0 <= a.0 <= LONGEST_SIDE && 0 <= a.1 <= LONGEST_SIDE,
        0 <= b.0 <= LONGEST_SIDE && 0 <= b.1 <= LONGEST_SIDE,
    ensures
        r == apart(a, b),
        r >= 0,
{
    let dx: i64 = a.0 - b.0;
    let dy: i64 = a.1 - b.1;
    assert(0 <= dx * dx <= 1_000_000_000_000_000_000 && 0 <= dy * dy <= 1_000_000_000_000_000_000)
        by (nonlinear_arith)
        requires
            -1_000_000_000 <= dx <= 1_000_000_000,
            -1_000_000_000 <= dy <= 1_000_000_000,
    ;
    dx * dx + dy * dy
}

/// The larger of two numbers.
pub open spec fn most(a: int, b: int) -> int {
    if a < b {
        b
    } else {
        a
    }
}

/// A finger that has only just come down.
pub open spec fn fresh_slot() -> Slot {
    Slot {
        start: (0, 0),
        latest: (0, 0),
        moved: 0,
        positioned: false,
        have_x: false,
        have_y: false,
    }
}

impl Touch {
    /// Nothing is touching, and nothing is remembered of what was but where it ended.
    pub open spec fn at_rest(self) -> bool {
        &&& self.active =~= Map::<i32, Slot>::empty()
        &&& self.peak_fingers == 0
        &&& self.sequence_started is None
        &&& !self.have_release
        &&& self.max_moved == 0
    }

    /// A contact in the current slot has begun.
    pub open spec fn begun(self, now: u64) -> Touch {
        let active = self.active.insert(self.current_slot, fresh_slot());
        Touch {
            active,
            peak_fingers: most(self.peak_fingers as int, active.len() as int) as nat,
            sequence_started: match self.sequence_started {
                Some(start) => Some(start),
                None => Some(now),
            },
            ..self
        }
    }

    /// The contact in the current slot has a coordinate. One never seen to start is taken to start
    /// here, since some controllers report a position before the contact.
    pub open spec fn placed(
        self,
        scaling: Scaling,
        x: Option<i32>,
        y: Option<i32>,
        now: u64,
    ) -> Touch {
        let touch = if self.active.dom().contains(self.current_slot) {
            self
        } else {
            self.begun(now)
        };
        let had = touch.active[touch.current_slot];
        let slot = Slot {
            latest: (
                match x {
                    Some(x) => x,
                    None => had.latest.0,
                },
                match y {
                    Some(y) => y,
                    None => had.latest.1,
                },
            ),
            have_x: had.have_x || x is Some,
            have_y: had.have_y || y is Some,
            ..had
        };
        if slot.have_x && slot.have_y {
            let point = scaling.point(slot.latest);
            let start = if had.positioned {
                had.start
            } else {
                point
            };
            let moved = most(had.moved as int, apart(point, start));
            Touch {
                active: touch.active.insert(
                    touch.current_slot,
                    Slot { start, positioned: true, moved: moved as i64, ..slot },
                ),
                last_release: point,
                have_release: true,
                max_moved: most(touch.max_moved, moved),
                ..touch
            }
        } else {
            Touch { active: touch.active.insert(touch.current_slot, slot), ..touch }
        }
    }

    /// All fingers are up, and what happened is forgotten.
    pub open spec fn finished(self) -> Touch {
        Touch {
            peak_fingers: 0,
            sequence_started: None,
            have_release: false,
            max_moved: 0,
            ..self
        }
    }

    /// What the sequence that is ending was, if it was a gesture.
    pub open spec fn outcome(self, now: u64) -> Option<Gesture> {
        let held = match self.sequence_started {
            Some(start) => time_since(now as int, start as int),
            None => 0,
        };
        if held > TAP_MAX_DURATION || self.max_moved > TAP_MOVE_TOLERANCE * TAP_MOVE_TOLERANCE {
            // A drag or a long press. Neither is bound to anything.
            None
        } else if self.peak_fingers == 0 {
            None
        } else if self.peak_fingers == 1 {
            if self.have_release {
                Some(Gesture::Tap { x: self.last_release.0, y: self.last_release.1 })
            } else {
                None
            }
        } else {
            Some(Gesture::TwoFingerTap)
        }
    }

    /// The contact in the current slot is over. Where it was is only trusted if both axes were
    /// seen.
    pub open spec fn lifted(self, scaling: Scaling) -> Touch {
        let active = self.active.remove(self.current_slot);
        if self.active.dom().contains(self.current_slot) && self.active[self.current_slot].have_x
            && self.active[self.current_slot].have_y {
            Touch {
                active,
                last_release: scaling.point(self.active[self.current_slot].latest),
                have_release: true,
                ..self
            }
        } else {
            Touch { active, ..self }
        }
    }

    /// What an event makes of the state, and the gesture it completes, if any.
    pub open spec fn after(self, scaling: Scaling, event: TouchEvent, now: u64) -> (
        Touch,
        Option<Gesture>,
    ) {
        match event {
            TouchEvent::Slot(v) => (Touch { current_slot: v, ..self }, None),
            TouchEvent::TrackingId(v) => if v >= 0 {
                (self.begun(now), None)
            } else {
                let up = self.lifted(scaling);
                if up.active.len() == 0 {
                    (up.finished(), up.outcome(now))
                } else {
                    (up, None)
                }
            },
            TouchEvent::PositionX(v) => (self.placed(scaling, Some(v), None, now), None),
            TouchEvent::PositionY(v) => (self.placed(scaling, None, Some(v), now), None),
            TouchEvent::BtnTouch(down) => if !down && self.active.len() > 0 {
                // A release reported only this way. Only with a finger down, so that the one that
                // trails an ended contact is not counted a second time.
                (
                    Touch { active: Map::<i32, Slot>::empty(), ..self }.finished(),
                    self.outcome(now),
                )
            } else {
                (self, None)
            },
        }
    }
}

impl View for TouchState {
    type V = Touch;

    closed spec fn view(&self) -> Touch {
        Touch {
            current_slot: self.current_slot,
            active: self.active@,
            peak_fingers: self.peak_fingers as nat,
            sequence_started: self.sequence_started,
            last_release: self.last_release,
            have_release: self.have_release,
            max_moved: self.max_moved as int,
        }
    }
}

/// Whether a finger came down on the screen.
spec fn slot_ok(slot: Slot) -> bool {
    &&& 0 <= slot.start.0 <= LONGEST_SIDE
    &&& 0 <= slot.start.1 <= LONGEST_SIDE
    &&& 0 <= slot.moved
}

impl TouchState {
    /// Whether every reading remembered is one the screen could give.
    pub closed spec fn wf(self) -> bool {
        &&& self.scaling.wf()
        &&& 0 <= self.max_moved
        &&& forall|k: i32| #[trigger] self.active@.dom().contains(k) ==> slot_ok(self.active@[k])
    }

    /// How device coordinates are scaled.
    pub closed spec fn scaled_by(self) -> Scaling {
        self.scaling
    }

    pub fn new(x_range: (i32, i32), y_range: (i32, i32), screen: (i64, i64)) -> (r: TouchState)
        requires
            0 <= screen.0 <= LONGEST_SIDE,
            0 <= screen.1 <= LONGEST_SIDE,
        ensures
            r.wf(),
            r@.at_rest(),
            r@.current_slot == 0,
            r.scaled_by() == (Scaling { x_range, y_range, screen }),
    {
        TouchState {
            scaling: Scaling { x_range, y_range, screen },
            current_slot: 0,
            active: HashMap::new(),
            peak_fingers: 0,
            sequence_started: None,
            last_release: (0, 0),
            have_release: false,
            max_moved: 0,
        }
    }

    /// Call when the drawable size changes so touches keep landing where they look.
    pub fn set_screen(&mut self, screen: (i64, i64))
        requires
            old(self).wf(),
            0 <= screen.0 <= LONGEST_SIDE,
            0 <= screen.1 <= LONGEST_SIDE,
        ensures
            final(self).wf(),
            final(self)@ == old(self)@,
            final(self).scaled_by() == (Scaling { screen, ..old(self).scaled_by() }),
    {
        self.scaling = Scaling {
            x_range: self.scaling.x_range,
            y_range: self.scaling.y_range,
            screen,
        };
    }

    fn begin_contact(&mut self, now: u64)
        requires
            old(self).wf(),
        ensures
            final(self).wf(),
            final(self).scaled_by() == old(self).scaled_by(),
            final(self)@ == old(self)@.begun(now),
    {
        self.active.insert(
            self.current_slot,
            Slot {
                start: (0, 0),
                latest: (0, 0),
                moved: 0,
                positioned: false,
                have_x: false,
                have_y: false,
            },
        );
        if self.active.len() > self.peak_fingers {
            self.peak_fingers = self.active.len();
        }
        if self.sequence_started.is_none() {
            self.sequence_started = Some(now);
        }
    }

    fn update_position(&mut self, x: Option<i32>, y: Option<i32>, now: u64)
        requires
            old(self).wf(),
        ensures
            final(self).wf(),
            final(self).scaled_by() == old(self).scaled_by(),
            final(self)@ == old(self)@.placed(old(self).scaled_by(), x, y, now),
    {
        if !self.active.contains_key(&self.current_slot) {
            self.begin_contact(now);
        }
        let had: Slot = match self.active.get(&self.current_slot) {
            Some(slot) => *slot,
            None => return,
        };
        // Positions arrive one axis per event, so carry the other axis forward.
        let latest: (i32, i32) = (
            match x {
                Some(x) => x,
                None => had.latest.0,
            },
            match y {
                Some(y) => y,
                None => had.latest.1,
            },
        );
        let have_x: bool = had.have_x || x.is_some();
        let have_y: bool = had.have_y || y.is_some();
        assert(slot_ok(self.active@[self.current_slot]));
        // Do nothing further until both axes have been seen for this contact. After the first of
        // them the pair is half real and half left over.
        if !(have_x && have_y) {
            self.active.insert(
                self.current_slot,
                Slot {
                    start: had.start,
                    latest,
                    moved: had.moved,
                    positioned: had.positioned,
                    have_x,
                    have_y,
                },
            );
            return;
        }
        let point: (i64, i64) = scale_point(latest, &self.scaling);
        let start: (i64, i64) = if had.positioned {
            had.start
        } else {
            point
        };
        let away: i64 = distance(point, start);
        let moved: i64 = if had.moved < away {
            away
        } else {
            had.moved
        };
        self.active.insert(
            self.current_slot,
            Slot { start, latest, moved, positioned: true, have_x, have_y },
        );
        self.last_release = point;
        self.have_release = true;
        if self.max_moved < moved {
            self.max_moved = moved;
        }
    }

    /// All fingers are up: decide what the sequence was.
    fn finish_sequence(&mut self, now: u64) -> (r: Option<Gesture>)
        requires
            old(self).wf(),
        ensures
            final(self).wf(),
            final(self).scaled_by() == old(self).scaled_by(),
            final(self)@ == old(self)@.finished(),
            r == old(self)@.outcome(now),
    {
        let held: u64 = match self.sequence_started {
            Some(start) => elapsed(now, start),
            None => 0,
        };
        let fingers: usize = self.peak_fingers;
        let moved: i64 = self.max_moved;
        let positioned: bool = self.have_release;

        self.peak_fingers = 0;
        self.sequence_started = None;
        self.max_moved = 0;
        self.have_release = false;

        if held > TAP_MAX_DURATION || moved > TAP_MOVE_TOLERANCE * TAP_MOVE_TOLERANCE {
            return None;
        }
        if fingers == 0 {
            None
        } else if fingers == 1 {
            // Without a complete position this tap would be reported at a coordinate nobody
            // touched. Dropping it is the honest outcome.
            if positioned {
                Some(Gesture::Tap { x: self.last_release.0, y: self.last_release.1 })
            } else {
                None
            }
        } else {
            Some(Gesture::TwoFingerTap)
        }
    }

    fn end_contact(&mut self, now: u64) -> (r: Option<Gesture>)
        requires
            old(self).wf(),
        ensures
            final(self).wf(),
            final(self).scaled_by() == old(self).scaled_by(),
            (final(self)@, r) == old(self)@.after(
                old(self).scaled_by(),
                TouchEvent::TrackingId(-1i32),
                now,
            ),
    {
        match self.active.remove(&self.current_slot) {
            Some(finished) => {
                if finished.have_x && finished.have_y {
                    self.last_release = scale_point(finished.latest, &self.scaling);
                    self.have_release = true;
                }
            },
            None => {
                assert(self.active@ =~= old(self).active@.remove(self.current_slot));
            },
        }
        assert(self@ == old(self)@.lifted(old(self).scaled_by()));
        if self.active.len() == 0 {
            self.finish_sequence(now)
        } else {
            None
        }
    }

    /// Feed one event. Appends any completed gesture.
    ///
    /// `now` is passed rather than read so a recorded event log can be replayed with a clock of its
    /// own.
    pub fn apply(&mut self, event: TouchEvent, now: u64, gestures: &mut Vec<Gesture>)
        requires
            old(self).wf(),
        ensures
            final(self).wf(),
            final(self).scaled_by() == old(self).scaled_by(),
            final(self)@ == old(self)@.after(old(self).scaled_by(), event, now).0,
            final(gestures)@ == match old(self)@.after(old(self).scaled_by(), event, now).1 {
                Some(gesture) => old(gestures)@.push(gesture),
                None => old(gestures)@,
            },
    {
        let mut done: Option<Gesture> = None;
        match event {
            TouchEvent::Slot(v) => {
                self.current_slot = v;
            },
            TouchEvent::TrackingId(v) => {
                if v >= 0 {
                    self.begin_contact(now);
                } else {
                    done = self.end_contact(now);
                }
            },
            TouchEvent::PositionX(v) => self.update_position(Some(v), None, now),
            TouchEvent::PositionY(v) => self.update_position(None, Some(v), now),
            TouchEvent::BtnTouch(down) => {
                if !down && self.active.len() > 0 {
                    self.active.clear();
                    done = self.finish_sequence(now);
                }
            },
        }
        match done {
            Some(gesture) => gestures.push(gesture),
            None => {},
        }
    }
}

// --- finding the panel ---------------------------------------------------------------------

/// Parts of device names that say a device is the panel, in lower case.
///
/// The panel's controller names itself by i2c address and chip family, with a trailing firmware
/// value that is not stable across boots, so only a part of the name can be matched. Matching on
/// the name rather than on an event number matters too: those reorder across boots.
pub const NAME_HINTS: [&'static str; 5] = [
    "ft5406",
    "ft5x06",
    "edt-ft5x06",
    "generic ft5x06",
    "touch",
];

/// Whether a device name looks like the panel's controller.
pub open spec fn looks_like_the_panel(name: Seq<char>) -> bool {
    exists|i: int| 0 <= i < 5 && holds(lowered(name), #[trigger] NAME_HINTS[i]@)
}

fn is_panel(name: &str) -> (r: bool)
    ensures
        r == looks_like_the_panel(name@),
{
    let small: String = lowercase(name);
    let mut i: usize = 0;
    while i < 5
        invariant
            i <= 5,
            small@ == lowered(name@),
            forall|k: int| 0 <= k < i ==> !holds(small@, #[trigger] NAME_HINTS[k]@),
        decreases 5 - i,
    {
        if contains_text(small.as_str(), NAME_HINTS[i]) {
            assert(holds(lowered(name@), NAME_HINTS[i as int]@));
            return true;
        }
        i = i + 1;
    }
    false
}

/// Which of the multitouch devices to use: the first whose name looks like the panel's controller,
/// else the first there is.
pub fn choose_device(names: &[String]) -> (r: Option<usize>)
    ensures
        match r {
            None => names@.len() == 0,
            Some(at) => {
                &&& at < names@.len()
                &&& looks_like_the_panel(names@[at as int]@) ==> forall|k: int|
                    0 <= k < at ==> !looks_like_the_panel((#[trigger] names@[k])@)
                &&& !looks_like_the_panel(names@[at as int]@) ==> at == 0 && forall|k: int|
                    0 <= k < names@.len() ==> !looks_like_the_panel((#[trigger] names@[k])@)
            },
        },
{
    if names.len() == 0 {
        return None;
    }
    let mut i: usize = 0;
    while i < names.len()
        invariant
            i <= names.len(),
            forall|k: int| 0 <= k < i ==> !looks_like_the_panel((#[trigger] names@[k])@),
        decreases names.len() - i,
    {
        if is_panel(names[i].as_str()) {
            return Some(i);
        }
        i = i + 1;
    }
    Some(0)
}

/// The range of an axis: what the device says if that is a range at all, else that it reports
/// screen pixels already. Better than dividing by zero and putting every touch in one corner.
pub fn axis_range(reported: Option<(i32, i32)>, screen_px: i32) -> (r: (i32, i32))
    ensures
        match reported {
            Some((low, high)) => if high > low {
                r == (low, high)
            } else {
                r == (0i32, screen_px)
            },
            None => r == (0i32, screen_px),
        },
{
    match reported {
        Some((low, high)) => if high > low {
            (low, high)
        } else {
            (0, screen_px)
        },
        None => (0, screen_px),
    }
}

// --- laws ----------------------------------------------------------------------------------

/// A drag is never a gesture, and neither is a long press.
pub proof fn drags_and_long_presses_are_ignored(touch: Touch, start: u64, now: u64)
    requires
        touch.sequence_started == Some(start),
        touch.max_moved > TAP_MOVE_TOLERANCE * TAP_MOVE_TOLERANCE || now > start
            + TAP_MAX_DURATION,
    ensures
        touch.outcome(now) is None,
{
}

/// No tap is ever reported at a place nobody touched: without a complete position there is none.
pub proof fn no_tap_without_a_position(touch: Touch, now: u64)
    requires
        !touch.have_release,
    ensures
        !(touch.outcome(now) matches Some(Gesture::Tap { .. })),
{
}

/// Gestures complete only when a finger is lifted, and then the state is at rest: nothing of one
/// touch leaks into the next.
pub proof fn a_gesture_ends_its_sequence(
    touch: Touch,
    scaling: Scaling,
    event: TouchEvent,
    now: u64,
)
    requires
        touch.active.dom().finite(),
        touch.after(scaling, event, now).1 is Some,
    ensures
        touch.after(scaling, event, now).0.at_rest(),
        event == TouchEvent::BtnTouch(false) || (event matches TouchEvent::TrackingId(v) && v < 0),
{
    let up = touch.lifted(scaling);
    if up.active.len() == 0 {
        up.active.dom().lemma_len0_is_empty();
        assert(up.active =~= Map::<i32, Slot>::empty());
    }
}

/// A finger put down on a panel at rest and lifted again within the tap window is one tap, and it
/// lands where the finger was, whatever was touched before. The two coordinates arrive in separate
/// events and the release carries none.
pub proof fn a_tap_lands_where_the_finger_was(
    touch: Touch,
    scaling: Scaling,
    id: i32,
    x: i32,
    y: i32,
    down: u64,
    up: u64,
)
    requires
        touch.at_rest(),
        id >= 0,
        down <= up <= down + TAP_MAX_DURATION,
        scaling.wf(),
    ensures
        ({
            let t1 = touch.after(scaling, TouchEvent::TrackingId(id), down);
            let t2 = t1.0.after(scaling, TouchEvent::PositionX(x), down);
            let t3 = t2.0.after(scaling, TouchEvent::PositionY(y), down);
            let t4 = t3.0.after(scaling, TouchEvent::BtnTouch(true), down);
            let t5 = t4.0.after(scaling, TouchEvent::TrackingId(-1i32), up);
            let t6 = t5.0.after(scaling, TouchEvent::BtnTouch(false), up);
            let point = scaling.point((x, y));
            &&& t1.1 is None && t2.1 is None && t3.1 is None && t4.1 is None
            &&& t5.1 == Some(Gesture::Tap { x: point.0, y: point.1 })
            &&& t6.1 is None
            &&& t6.0.at_rest()
        }),
{
    let slot = touch.current_slot;
    let t1 = touch.after(scaling, TouchEvent::TrackingId(id), down).0;
    assert(t1.active.dom() =~= set![slot]);
    let t2 = t1.after(scaling, TouchEvent::PositionX(x), down).0;
    assert(t2.active.dom() =~= set![slot]);
    let t3 = t2.after(scaling, TouchEvent::PositionY(y), down).0;
    assert(t3.active.dom() =~= set![slot]);
    let point = scaling.point((x, y));
    assert(apart(point, point) == 0);
    let lifted = t3.lifted(scaling);
    assert(lifted.active =~= Map::<i32, Slot>::empty());
    assert(lifted.active.len() == 0);
    let t5 = t3.after(scaling, TouchEvent::TrackingId(-1i32), up).0;
    assert(t5.active =~= Map::<i32, Slot>::empty());
    assert(t5.active.len() == 0);
}

/// A touch never lands off the screen.
pub proof fn touches_stay_on_the_screen(value: int, range: (i32, i32), extent: int)
    requires
        0 <= extent,
    ensures
        0 <= scaled(value, range, extent) <= extent,
{
    let span = if range.1 - range.0 < 1 {
        1
    } else {
        range.1 - range.0
    };
    let along = value - range.0;
    if 0 < along < span {
        assert(0 <= along * extent / span <= extent) by (nonlinear_arith)
            requires
                0 < along < span,
                0 <= extent,
        ;
    }
}

/// A touch is scaled to the screen: the low end of the digitiser is the top left, the high end the bottom
/// right, and what lies between lies as far along in proportion.
pub proof fn touches_are_scaled_to_the_screen(value: int, range: (i32, i32), extent: int)
    requires
        range.0 < range.1,
        0 <= extent,
    ensures
        value <= range.0 ==> scaled(value, range, extent) == 0,
        value >= range.1 ==> scaled(value, range, extent) == extent,
        range.0 <= value <= range.1 ==> ({
            let (off, span) = (value - range.0, range.1 - range.0);
            &&& span * scaled(value, range, extent) <= off * extent
            &&& off * extent < span * scaled(value, range, extent) + span
        }),
{
    let (off, span) = (value - range.0, range.1 - range.0);
    assert(off == 0 ==> off * extent == 0) by (nonlinear_arith);
    assert(off == span ==> off * extent == span * extent) by (nonlinear_arith);
    assert(span * 0 == 0);
    if 0 < off < span {
        vstd::arithmetic::div_mod::lemma_fundamental_div_mod(off * extent, span);
        vstd::arithmetic::div_mod::lemma_mod_bound(off * extent, span);
    }
}

/// Each coordinate is scaled by its own range to its own side: across to the width, down to the height.
pub proof fn coordinates_keep_to_their_own_side(scaling: Scaling, raw: (i32, i32))
    requires
        scaling.wf(),
    ensures
        scaling.point(raw).0 == scaled(raw.0 as int, scaling.x_range, scaling.screen.0 as int),
        scaling.point(raw).1 == scaled(raw.1 as int, scaling.y_range, scaling.screen.1 as int),
{
    touches_stay_on_the_screen(raw.0 as int, scaling.x_range, scaling.screen.0 as int);
    touches_stay_on_the_screen(raw.1 as int, scaling.y_range, scaling.screen.1 as int);
}

/// What a touch comes to: one finger a tap where it was lifted, two or more a two-finger tap, if it was
/// over within six hundred milliseconds and strayed no further than twenty-four pixels; otherwise
/// nothing.
pub proof fn what_a_touch_comes_to(touch: Touch, start: u64, now: u64)
    requires
        touch.sequence_started == Some(start),
        start <= now,
    ensures
        ({
            let quick = now - start <= 600_000_000;
            let still = touch.max_moved <= 24_000 * 24_000;
            &&& quick && still && touch.peak_fingers == 1 && touch.have_release ==> touch.outcome(now)
                == Some(Gesture::Tap { x: touch.last_release.0, y: touch.last_release.1 })
            &&& quick && still && touch.peak_fingers >= 2 ==> touch.outcome(now) == Some(
                Gesture::TwoFingerTap,
            )
            &&& !quick || !still || touch.peak_fingers == 0 ==> touch.outcome(now) is None
        }),
{
}

/// A finger that moves counts from where it was put down, by the furthest it has been: moving back does
/// not undo it.
pub proof fn straying_is_never_undone(
    touch: Touch,
    scaling: Scaling,
    x: Option<i32>,
    y: Option<i32>,
    now: u64,
)
    requires
        touch.active.dom().contains(touch.current_slot),
        touch.active[touch.current_slot].positioned,
        touch.active[touch.current_slot].have_x,
        touch.active[touch.current_slot].have_y,
    ensures
        ({
            let after = touch.placed(scaling, x, y, now);
            let (had, has) = (touch.active[touch.current_slot], after.active[touch.current_slot]);
            &&& after.max_moved >= touch.max_moved
            &&& has.start == had.start
            &&& after.max_moved >= apart(scaling.point(has.latest), had.start)
            &&& after.max_moved == touch.max_moved || after.max_moved == apart(
                scaling.point(has.latest),
                had.start,
            ) || after.max_moved == had.moved
            &&& x matches Some(x) ==> has.latest.0 == x
            &&& y matches Some(y) ==> has.latest.1 == y
            &&& x is None ==> has.latest.0 == had.latest.0
            &&& y is None ==> has.latest.1 == had.latest.1
            &&& after.last_release == scaling.point(has.latest)
            &&& after.peak_fingers == touch.peak_fingers
        }),
{
    let slot = touch.current_slot;
    let had = touch.active[slot];
    let latest = (
        match x {
            Some(x) => x,
            None => had.latest.0,
        },
        match y {
            Some(y) => y,
            None => had.latest.1,
        },
    );
    let (p, s) = (scaling.point(latest), had.start);
    let after = touch.placed(scaling, x, y, now);
    assert(after.active[slot].latest == latest);
}

/// How far two points are apart is the same both ways, nothing for one point, and along one side the
/// square of the difference.
pub proof fn apart_is_a_distance(a: (i64, i64), b: (i64, i64))
    ensures
        apart(a, b) == apart(b, a),
        apart(a, a) == 0,
        a.1 == b.1 ==> apart(a, b) == (a.0 - b.0) * (a.0 - b.0),
        a.0 == b.0 ==> apart(a, b) == (a.1 - b.1) * (a.1 - b.1),
        apart(a, b) >= 0,
{
    let (dx, dy) = (a.0 - b.0, a.1 - b.1);
    assert((-dx) * (-dx) == dx * dx && (-dy) * (-dy) == dy * dy && dx * dx >= 0 && dy * dy >= 0)
        by (nonlinear_arith);
    assert(b.0 - a.0 == -dx && b.1 - a.1 == -dy);
    assert((a.0 - a.0) * (a.0 - a.0) == 0 && (a.1 - a.1) * (a.1 - a.1) == 0);
    assert(a.1 == b.1 ==> dy * dy == 0) by (nonlinear_arith)
        requires
            a.1 == b.1 ==> dy == 0,
    ;
    assert(a.0 == b.0 ==> dx * dx == 0) by (nonlinear_arith)
        requires
            a.0 == b.0 ==> dx == 0,
    ;
}

/// A second finger makes it a two-finger touch, however soon it is lifted again; the clock runs from the
/// first.
pub proof fn the_most_fingers_count(touch: Touch, other: i32, now: u64)
    requires
        touch.active.dom().finite(),
        touch.active.len() == 1,
        !touch.active.dom().contains(other),
        touch.current_slot == other,
        touch.sequence_started is Some,
    ensures
        touch.begun(now).peak_fingers >= 2,
        touch.begun(now).active.len() == 2,
        touch.begun(now).sequence_started == touch.sequence_started,
{
}

/// The panel is known by its controller's name, in letters of either case.
pub proof fn the_panel_is_known_by_name(name: Seq<char>)
    ensures
        holds(lowered(name), "ft5406"@) ==> looks_like_the_panel(name),
        holds(lowered(name), "ft5x06"@) ==> looks_like_the_panel(name),
        holds(lowered(name), "touch"@) ==> looks_like_the_panel(name),
        looks_like_the_panel(name) ==> holds(lowered(name), "ft5406"@) || holds(
            lowered(name),
            "ft5x06"@,
        ) || holds(lowered(name), "edt-ft5x06"@) || holds(lowered(name), "generic ft5x06"@) || holds(
            lowered(name),
            "touch"@,
        ),
{
    assert(NAME_HINTS[0]@ == "ft5406"@ && NAME_HINTS[1]@ == "ft5x06"@ && NAME_HINTS[2]@
        == "edt-ft5x06"@ && NAME_HINTS[3]@ == "generic ft5x06"@ && NAME_HINTS[4]@ == "touch"@);
}

} // verus!
