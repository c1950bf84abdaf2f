//! Pacing the render loop, and measuring it.
//!
//! The page flip already blocks at the panel's refresh rate, so pacing only ever slows the loop
//! down, to the rate the current page is actually worth redrawing at.

use vstd::prelude::*;

use crate::domain::{elapsed, time_since};
use crate::nexrad::MosaicStats;
use crate::text::{decimal, number, padded_reads_back, push_decimal, push_hundredths, push_padded};
use crate::text::{padded, push_rounded, push_tenths, rounded, ten_to, to_hundredths, to_tenths};

verus! {

/// Longest the loop sleeps without checking for input: 8 ms.
///
/// The frame budget is spent in slices this size rather than in one go, so that a press is noticed
/// promptly even on a page that only redraws eight times a second.
pub const FRAME_SLICE: u64 = 8_000_000;

/// How long a run is considered to be warming up: five seconds.
pub const WARMUP: u64 = 5_000_000_000;

/// And how many frames. Neither floor is sufficient alone: a frame count is reached in very
/// different wall time on a 60 Hz page and an 8 Hz one, and an elapsed time can be satisfied by a
/// single frame that took seconds to present.
pub const WARMUP_FRAMES: u64 = 30;

/// How long a frame rate is averaged over: half a second.
pub const FPS_WINDOW: u64 = 500_000_000;

/// More frames than any run draws.
pub const MOST_FRAMES: u64 = 1_000_000_000_000_000;

// --- the cadence ---------------------------------------------------------------------------

/// Paces the render loop to the rate of the current page.
#[derive(Debug, Clone, Copy, PartialEq, Eq, Structural)]
pub struct FramePacer {
    /// When the frame after the last one is due.
    pub next_due: Option<u64>,
}

impl Default for FramePacer {
    fn default() -> (r: FramePacer)
        ensures
            r.next_due is None,
    {
        FramePacer { next_due: None }
    }
}

impl FramePacer {
    /// When the next frame starts: at the deadline, or now when that has passed.
    pub open spec fn due(self, now: u64) -> u64 {
        match self.next_due {
            Some(due) => if due > now {
                due
            } else {
                now
            },
            None => now,
        }
    }

    /// The pacer after it has been asked.
    pub open spec fn advanced(self, interval: Option<u64>, now: u64) -> FramePacer {
        FramePacer {
            next_due: match interval {
                Some(interval) => Some((self.due(now) + interval) as u64),
                None => None,
            },
        }
    }

    /// When the next frame should start, or `None` when this page runs uncapped.
    ///
    /// A deadline already in the past means the last frame overran, or the page just changed to a
    /// different rate. It is resynchronised from now rather than carrying the debt forward: the
    /// frames that were missed are worthless once their moment has passed, and trying to catch up
    /// would burst at full rate for exactly as long as the loop was behind.
    pub fn next_due(&mut self, interval: Option<u64>, now: u64) -> (r: Option<u64>)
        requires
            interval matches Some(interval) ==> old(self).due(now) + interval <= u64::MAX,
        ensures
            *final(self) == old(self).advanced(interval, now),
            r == match interval {
                Some(_) => Some(old(self).due(now)),
                None => None,
            },
    {
        match interval {
            Some(interval) => {
                let due: u64 = match self.next_due {
                    Some(due) => if due > now {
                        due
                    } else {
                        now
                    },
                    None => now,
                };
                self.next_due = Some(due + interval);
                Some(due)
            },
            None => {
                self.next_due = None;
                None
            },
        }
    }
}

/// How long to sleep before looking for input again; `None` when the frame is to be drawn, because
/// it is due or because something was pressed.
///
/// Waiting in slices and returning the instant a gesture appears leaves the display more responsive
/// to input than polling once per frame did, not less.
pub fn wait_slice(due: Option<u64>, pressed: bool, now: u64) -> (r: Option<u64>)
    ensures
        r == match due {
            Some(due) => if pressed || due < now {
                None
            } else if due - now < FRAME_SLICE {
                Some((due - now) as u64)
            } else {
                Some(FRAME_SLICE)
            },
            None => None,
        },
{
    match due {
        Some(due) => if pressed || due < now {
            None
        } else if due - now < FRAME_SLICE {
            Some(due - now)
        } else {
            Some(FRAME_SLICE)
        },
        None => None,
    }
}

/// Whether a run that was asked for this many frames has drawn them; zero is until it is stopped.
pub fn enough_frames(asked: u64, drawn: u64) -> (r: bool)
    ensures
        r == (asked != 0 && drawn >= asked),
{
    asked != 0 && drawn >= asked
}

// --- frames that are written out -----------------------------------------------------------

/// The pace of a run without a display, which has no page flip to pace it: 33 ms.
pub const OFFSCREEN_INTERVAL: u64 = 33_000_000;

/// How many frames a run without a display draws.
pub fn offscreen_frames(asked: u64) -> (r: u64)
    ensures
        r == if asked == 0 {
            300u64
        } else {
            asked
        },
{
    if asked == 0 {
        300
    } else {
        asked
    }
}

/// Whether a frame is written out: every so many, or only the last.
pub open spec fn dumped(index: int, total: int, every: int) -> bool {
    if every > 0 {
        index % every == 0
    } else {
        index + 1 == total
    }
}

/// Whether a frame is written out.
pub fn is_dumped(index: u64, total: u64, every: u64) -> (r: bool)
    requires
        index < total,
    ensures
        r == dumped(index as int, total as int, every as int),
{
    if every > 0 {
        index % every == 0
    } else {
        index + 1 == total
    }
}

/// The file a frame is written to.
pub open spec fn frame_file(index: nat) -> Seq<char> {
    "frame-"@ + padded(index, 5) + ".ppm"@
}

/// The file a frame is written to.
pub fn frame_name(index: u64) -> (r: String)
    ensures
        r@ == frame_file(index as nat),
{
    let mut out: String = String::new();
    out.append("frame-");
    push_padded(&mut out, index, 5);
    out.append(".ppm");
    assert(out@ =~= frame_file(index as nat));
    out
}

// --- measuring -----------------------------------------------------------------------------

/// How long the render loop actually takes. Times are in nanoseconds.
#[derive(Debug, Clone, Copy, PartialEq, Eq, Structural)]
pub struct RenderTiming {
    pub frames: u64,
    pub total: u64,
    pub worst: u64,
    /// Thousandths of a frame per second, over the last whole window.
    pub fps: u64,
    pub window_start: Option<u64>,
    pub window_frames: u64,
    /// The cap in force on the last frame, so the report can say whether a low `fps` is the
    /// intended pacing or a real shortfall.
    pub cap: Option<u64>,
    /// Which frame the worst draw landed on.
    pub worst_at: u64,
    /// Worst draw once the warm-up is excluded, and which frame that was.
    ///
    /// A single worst-draw figure cannot distinguish "the first frame built the glyph atlas" from
    /// "there is a recurring hitch", and those call for completely different responses.
    pub worst_steady: u64,
    pub worst_steady_at: u64,
    /// When the first frame was recorded, for the warm-up cutoff.
    pub started: Option<u64>,
}

impl Default for RenderTiming {
    fn default() -> (r: RenderTiming)
        ensures
            r.wf(),
            r.frames == 0,
            r.total == 0,
            r.worst == 0,
            r.fps == 0,
            r.worst_steady == 0,
            r.worst_at == 0,
            r.worst_steady_at == 0,
            r.window_frames == 0,
            r.window_start is None,
            r.started is None,
            r.cap is None,
    {
        RenderTiming {
            frames: 0,
            total: 0,
            worst: 0,
            fps: 0,
            window_start: None,
            window_frames: 0,
            cap: None,
            worst_at: 0,
            worst_steady: 0,
            worst_steady_at: 0,
            started: None,
        }
    }
}

/// The time that began it: the one that is held, or now.
pub open spec fn begun(held: Option<u64>, now: u64) -> u64 {
    match held {
        Some(at) => at,
        None => now,
    }
}

fn begun_at(held: Option<u64>, now: u64) -> (r: u64)
    ensures
        r == begun(held, now),
{
    match held {
        Some(at) => at,
        None => now,
    }
}

impl RenderTiming {
    /// The counts are in order: no window is longer than the run, and no worst draw came after it.
    pub open spec fn wf(self) -> bool {
        &&& self.window_frames <= self.frames <= MOST_FRAMES
        &&& self.worst_at <= self.frames
        &&& self.worst_steady_at <= self.frames
        &&& self.worst_steady <= self.worst <= self.total
    }

    /// Whether a frame drawn now is past the warm-up. Both floors, not either: the one-time costs
    /// are paid after the first frame is recorded, and take seconds.
    pub open spec fn warm(self, now: u64) -> bool {
        self.frames + 1 > WARMUP_FRAMES && time_since(now as int, begun(self.started, now) as int) > WARMUP
    }

    /// Whether a frame drawn now closes its window.
    pub open spec fn window_closes(self, now: u64) -> bool {
        time_since(now as int, begun(self.window_start, now) as int) >= FPS_WINDOW
    }

    /// Record a frame that took `draw` to build, under the cap that was in force.
    pub fn record(&mut self, draw: u64, cap: Option<u64>, now: u64)
        requires
            old(self).wf(),
            old(self).frames < MOST_FRAMES,
            old(self).total + draw <= u64::MAX,
        ensures
            final(self).wf(),
            final(self).cap == cap,
            final(self).frames == old(self).frames + 1,
            final(self).total == old(self).total + draw,
            if draw > old(self).worst {
                final(self).worst == draw && final(self).worst_at == final(self).frames
            } else {
                final(self).worst == old(self).worst && final(self).worst_at == old(self).worst_at
            },
            final(self).started == Some(begun(old(self).started, now)),
            if old(self).warm(now) && draw > old(self).worst_steady {
                final(self).worst_steady == draw && final(self).worst_steady_at == final(self).frames
            } else {
                final(self).worst_steady == old(self).worst_steady && final(self).worst_steady_at
                    == old(self).worst_steady_at
            },
            if old(self).window_closes(now) {
                let span = time_since(now as int, begun(old(self).window_start, now) as int);
                &&& final(self).fps == (old(self).window_frames + 1) * 1_000_000_000_000 / span
                &&& final(self).window_frames == 0
                &&& final(self).window_start == Some(now)
            } else {
                &&& final(self).fps == old(self).fps
                &&& final(self).window_frames == old(self).window_frames + 1
                &&& final(self).window_start == Some(begun(old(self).window_start, now))
            },
    {
        self.cap = cap;
        self.frames = self.frames + 1;
        self.total = self.total + draw;
        if draw > self.worst {
            self.worst = draw;
            self.worst_at = self.frames;
        }
        let started: u64 = begun_at(self.started, now);
        self.started = Some(started);
        if self.frames > WARMUP_FRAMES && elapsed(now, started) > WARMUP && draw
            > self.worst_steady {
            self.worst_steady = draw;
            self.worst_steady_at = self.frames;
        }
        let start: u64 = begun_at(self.window_start, now);
        self.window_start = Some(start);
        self.window_frames = self.window_frames + 1;
        let span: u64 = elapsed(now, start);
        if span >= FPS_WINDOW {
            let rate: u128 = self.window_frames as u128 * 1_000_000_000_000 / span as u128;
            proof {
                let frames = self.window_frames as int * 1_000_000_000_000;
                let length = span as int;
                assert(0 <= frames / length <= 2_000_000_000_000_000_000)
                    by (nonlinear_arith)
                    requires
                        0 <= frames <= 1_000_000_000_000_000_000_000_000_000,
                        500_000_000 <= length,
                ;
            }
            self.fps = rate as u64;
            self.window_frames = 0;
            self.window_start = Some(now);
        }
    }

    /// How many frames the mean is taken over. The count is held in 32 bits there.
    pub open spec fn mean_count(self) -> int {
        (if self.frames == 0 {
            1int
        } else {
            self.frames as int
        }) % 0x1_0000_0000
    }

    /// The mean draw; nothing when there is none to take it over.
    pub open spec fn mean_draw(self) -> nat {
        if self.mean_count() == 0 {
            0
        } else {
            (self.total as int / self.mean_count()) as nat
        }
    }

    /// The mean draw.
    pub fn mean(&self) -> (r: u64)
        ensures
            r == self.mean_draw(),
    {
        let frames: u64 = if self.frames == 0 {
            1
        } else {
            self.frames
        };
        let count: u64 = frames % 0x1_0000_0000;
        if count == 0 {
            0
        } else {
            self.total / count
        }
    }
}

// --- the report ----------------------------------------------------------------------------

/// A time in milliseconds, to two places.
pub open spec fn millis(ns: nat) -> Seq<char> {
    to_hundredths(ns, 1_000_000) + " ms"@
}

fn push_millis(out: &mut String, ns: u64)
    ensures
        final(out)@ == old(out)@ + millis(ns as nat),
{
    push_hundredths(out, ns, 1_000_000);
    out.append(" ms");
    assert(out@ =~= old(out)@ + millis(ns as nat));
}

/// A time, and the frame it was taken by.
pub open spec fn worst_line(ns: nat, frame: nat) -> Seq<char> {
    millis(ns) + "  (frame "@ + decimal(frame)
}

fn push_worst(out: &mut String, ns: u64, frame: u64)
    ensures
        final(out)@ == old(out)@ + worst_line(ns as nat, frame as nat),
{
    push_millis(out, ns);
    out.append("  (frame ");
    push_decimal(out, frame);
    assert(out@ =~= old(out)@ + worst_line(ns as nat, frame as nat));
}

/// The line on the worst draw after the warm-up.
pub open spec fn steady_line(timing: RenderTiming) -> Seq<char> {
    if timing.worst_steady > 0 {
        "  worst steady  : "@ + worst_line(
            timing.worst_steady as nat,
            timing.worst_steady_at as nat,
        ) + ", after "@ + decimal((WARMUP / 1_000_000_000) as nat) + "s warm-up)"@
    } else {
        "  worst steady  : n/a (run shorter than the warm-up)"@
    }
}

fn steady_text(timing: &RenderTiming) -> (r: String)
    ensures
        r@ == steady_line(*timing),
{
    let mut out: String = String::new();
    out.append("  worst steady  : ");
    if timing.worst_steady > 0 {
        assert(out@ =~= "  worst steady  : "@);
        push_worst(&mut out, timing.worst_steady, timing.worst_steady_at);
        out.append(", after ");
        push_decimal(&mut out, WARMUP / 1_000_000_000);
        out.append("s warm-up)");
        assert(out@ =~= steady_line(*timing));
        return out;
    }
    let mut short: String = String::new();
    short.append("  worst steady  : n/a (run shorter than the warm-up)");
    assert(short@ =~= steady_line(*timing));
    short
}

/// The line on the cap. Without it a paced run reads 30 where the panel runs at 60, and looks like
/// a shortfall when it is the cap doing its job.
pub open spec fn cap_line(cap: Option<u64>) -> Seq<char> {
    match cap {
        Some(cap) => "  frame cap     : "@ + (if cap == 0 {
            "inf"@
        } else {
            rounded(1_000_000_000, cap as nat)
        }) + " fps (last page shown)"@,
        None => "  frame cap     : none \u{2014} paced by the page flip"@,
    }
}

fn cap_text(cap: Option<u64>) -> (r: String)
    ensures
        r@ == cap_line(cap),
{
    let mut out: String = String::new();
    match cap {
        Some(cap) => {
            out.append("  frame cap     : ");
            if cap == 0 {
                out.append("inf");
            } else {
                push_rounded(&mut out, 1_000_000_000, cap);
            }
            out.append(" fps (last page shown)");
        },
        None => {
            out.append("  frame cap     : none \u{2014} paced by the page flip");
        },
    }
    assert(out@ =~= cap_line(cap));
    out
}

/// The line on the radar blocks that were drawn.
pub open spec fn blocks_line(mosaic: MosaicStats) -> Seq<char> {
    "  wx blocks     : "@ + decimal(mosaic.blocks_composited as nat) + " drawn, "@ + decimal(
        mosaic.blocks_skipped_outside as nat,
    ) + " outside, "@ + decimal(mosaic.bins_painted as nat) + " bins"@
}

fn blocks_text(mosaic: &MosaicStats) -> (r: String)
    ensures
        r@ == blocks_line(*mosaic),
{
    let mut out: String = String::new();
    out.append("  wx blocks     : ");
    push_decimal(&mut out, mosaic.blocks_composited as u64);
    out.append(" drawn, ");
    push_decimal(&mut out, mosaic.blocks_skipped_outside as u64);
    out.append(" outside, ");
    push_decimal(&mut out, mosaic.bins_painted as u64);
    out.append(" bins");
    assert(out@ =~= blocks_line(*mosaic));
    out
}

/// What the report says, line by line.
pub open spec fn report_lines(timing: RenderTiming, mosaic: MosaicStats) -> Seq<
    Seq<char>,
> {
    seq![
        "  frames        : "@ + decimal(timing.frames as nat),
        "  mean draw     : "@ + millis(timing.mean_draw()),
        "  worst draw    : "@ + worst_line(timing.worst as nat, timing.worst_at as nat) + ")"@,
        steady_line(timing),
        "  last fps      : "@ + to_tenths(timing.fps as nat, 1000),
        cap_line(timing.cap),
        "  wx composites : "@ + decimal(mosaic.composites as nat),
        blocks_line(mosaic),
    ]
}

/// The report at the end of a run, line by line.
pub fn report(timing: &RenderTiming, mosaic: &MosaicStats) -> (r: Vec<String>)
    ensures
        r@.len() == 8,
        forall|i: int|
            0 <= i < 8 ==> (#[trigger] r@[i])@ == report_lines(*timing, *mosaic)[i],
{
    let mut frames: String = String::new();
    frames.append("  frames        : ");
    push_decimal(&mut frames, timing.frames);
    assert(frames@ =~= "  frames        : "@ + decimal(timing.frames as nat));

    let mut mean: String = String::new();
    let mean_draw: u64 = timing.mean();
    mean.append("  mean draw     : ");
    push_millis(&mut mean, mean_draw);
    assert(mean@ =~= "  mean draw     : "@ + millis(mean_draw as nat));

    let mut worst: String = String::new();
    worst.append("  worst draw    : ");
    push_worst(&mut worst, timing.worst, timing.worst_at);
    worst.append(")");
    assert(worst@ =~= "  worst draw    : "@ + worst_line(
        timing.worst as nat,
        timing.worst_at as nat,
    ) + ")"@);

    let mut fps: String = String::new();
    fps.append("  last fps      : ");
    push_tenths(&mut fps, timing.fps, 1000);
    assert(fps@ =~= "  last fps      : "@ + to_tenths(timing.fps as nat, 1000));

    let mut composites: String = String::new();
    composites.append("  wx composites : ");
    push_decimal(&mut composites, mosaic.composites as u64);
    assert(composites@ =~= "  wx composites : "@ + decimal(mosaic.composites as nat));

    let mut out: Vec<String> = Vec::new();
    out.push(frames);
    out.push(mean);
    out.push(worst);
    out.push(steady_text(timing));
    out.push(fps);
    out.push(cap_text(timing.cap));
    out.push(composites);
    out.push(blocks_text(mosaic));
    proof {
        let lines = report_lines(*timing, *mosaic);
        assert forall|i: int| 0 <= i < 8 implies (#[trigger] out@[i])@ == lines[i] by {
            assert(i == 0 || i == 1 || i == 2 || i == 3 || i == 4 || i == 5 || i == 6 || i == 7);
        }
    }
    out
}

// --- laws ----------------------------------------------------------------------------------

/// A cap holds a fixed cadence: as long as a frame is asked for before its deadline, each deadline
/// is one interval after the previous one, whenever the frame before it happened to finish.
pub proof fn the_cadence_does_not_drift(pacer: FramePacer, interval: u64, now: u64, later: u64)
    requires
        pacer.due(now) + interval <= u64::MAX,
        later < pacer.due(now) + interval,
    ensures
        pacer.advanced(Some(interval), now).due(later) == pacer.due(now) + interval,
{
}

/// From the first frame on, frames asked for before the one before them has run its time are due one
/// interval after another, whenever each was asked for.
pub proof fn frames_in_time_are_an_interval_apart(
    pacer: FramePacer,
    interval: u64,
    first: u64,
    second: u64,
    third: u64,
)
    requires
        pacer.next_due is None,
        first + 2 * interval <= u64::MAX,
        second < pacer.due(first) + interval,
        third < pacer.advanced(Some(interval), first).due(second) + interval,
    ensures
        ({
            let after = pacer.advanced(Some(interval), first);
            let (d1, d2) = (pacer.due(first), after.due(second));
            let d3 = after.advanced(Some(interval), second).due(third);
            d2 - d1 == interval && d3 - d2 == interval
        }),
{
}

/// Falling behind resynchronises instead of bursting: a frame asked for after its deadline is due
/// now, and the one after it an interval later.
pub proof fn falling_behind_carries_no_debt(pacer: FramePacer, due: u64, interval: u64, now: u64)
    requires
        pacer.next_due == Some(due),
        due <= now,
        now + interval <= u64::MAX,
    ensures
        pacer.due(now) == now,
        pacer.advanced(Some(interval), now).next_due == Some((now + interval) as u64),
{
}

/// A frame is never due in the past, and never further off than the interval that was in force.
pub proof fn deadlines_are_near(pacer: FramePacer, interval: u64, now: u64, later: u64)
    requires
        pacer.due(now) == now,
        now <= later,
        now + interval <= u64::MAX,
    ensures
        later <= pacer.advanced(Some(interval), now).due(later),
        pacer.advanced(Some(interval), now).due(later) <= later + interval,
{
}

/// Switching to an uncapped page forgets the old deadline: the first capped frame after it does not
/// wait.
pub proof fn an_uncapped_page_forgets_the_deadline(pacer: FramePacer, now: u64, later: u64)
    ensures
        pacer.advanced(None, now).next_due is None,
        pacer.advanced(None, now).due(later) == later,
{
}

/// Writing every so many frames always writes the first; writing only the last writes exactly one.
pub proof fn some_frame_is_written(total: int, every: int)
    requires
        total > 0,
        every >= 0,
    ensures
        every > 0 ==> dumped(0, total, every),
        every == 0 ==> forall|i: int| 0 <= i < total ==> dumped(i, total, every) == (i == total - 1),
{
    if every > 0 {
        vstd::arithmetic::div_mod::lemma_small_mod(0, every as nat);
    }
}

/// A frame is due when it was set to be, and at once where that is past or none was set; the next is an
/// interval after it.
pub proof fn frames_are_due_when_set(pacer: FramePacer, due: u64, interval: u64, now: u64)
    requires
        now + interval <= u64::MAX,
        due + interval <= u64::MAX,
    ensures
        pacer.next_due == Some(due) && due > now ==> pacer.due(now) == due && pacer.advanced(
            Some(interval),
            now,
        ).next_due == Some((due + interval) as u64),
        pacer.next_due == Some(due) && due <= now ==> pacer.due(now) == now,
        pacer.next_due is None ==> pacer.due(now) == now && pacer.advanced(
            Some(interval),
            now,
        ).next_due == Some((now + interval) as u64),
{
}

/// Which frames are written: each so many from the first on, or only the last.
pub proof fn which_frames_are_written(index: int, total: int, every: int)
    requires
        0 <= index < total,
    ensures
        every > 0 ==> (dumped(index * every, total, every) && (every > 1 ==> !dumped(
            index * every + 1,
            total,
            every,
        ))),
        every <= 0 ==> (dumped(index, total, every) <==> index == total - 1),
{
    if every > 0 {
        vstd::arithmetic::div_mod::lemma_mod_multiples_basic(index, every);
        if every > 1 {
            vstd::arithmetic::div_mod::lemma_mod_multiples_vanish(index, 1, every);
            vstd::arithmetic::div_mod::lemma_small_mod(1, every as nat);
            assert(every * index == index * every) by (nonlinear_arith);
        }
    }
}

/// Frames are numbered in five digits, so that they sort in their order.
pub proof fn frame_files_read_back(index: nat)
    requires
        index < 100_000,
    ensures
        ({
            let name = frame_file(index);
            &&& name.len() == 15
            &&& name.take(6) == "frame-"@
            &&& number(name.subrange(6, 11)) == index
            &&& name.skip(11) == ".ppm"@
        }),
{
    reveal_strlit("frame-");
    reveal_strlit(".ppm");
    reveal_with_fuel(ten_to, 6);
    padded_reads_back(index, 5);
    let name = frame_file(index);
    assert(name.take(6) =~= "frame-"@);
    assert(name.subrange(6, 11) =~= padded(index, 5));
    assert(name.skip(11) =~= ".ppm"@);
}

/// A run is warm after five seconds and thirty frames, both of them; a frame rate is averaged over half a
/// second.
pub proof fn warm_after_time_and_frames(timing: RenderTiming, started: u64, now: u64)
    requires
        timing.started == Some(started),
        timing.window_start == Some(started),
        started <= now,
    ensures
        timing.warm(now) <==> timing.frames >= 30 && now - started > 5_000_000_000,
        timing.window_closes(now) <==> now - started >= 500_000_000,
{
}

/// The mean is of all frames: so many of it come to the total, short by less than one each.
pub proof fn the_mean_is_of_all_frames(timing: RenderTiming)
    requires
        0 < timing.frames < 0x1_0000_0000,
    ensures
        timing.frames * timing.mean_draw() <= timing.total < timing.frames * timing.mean_draw()
            + timing.frames,
{
    let (t, n) = (timing.total as int, timing.frames as int);
    vstd::arithmetic::div_mod::lemma_fundamental_div_mod(t, n);
    vstd::arithmetic::div_mod::lemma_mod_bound(t, n);
    assert(t / n >= 0) by (nonlinear_arith)
        requires
            t >= 0,
            n > 0,
    ;
    assert(timing.mean_count() == n);
}

/// What a run reports, line by line: frames, mean and worst draw, the worst once warm, the rate, its cap
/// and the weather.
pub proof fn what_a_run_reports(timing: RenderTiming, mosaic: MosaicStats)
    ensures
        ({
            let lines = report_lines(timing, mosaic);
            &&& lines.len() == 8
            &&& lines[0] == "  frames        : "@ + decimal(timing.frames as nat)
            &&& lines[1] == "  mean draw     : "@ + (to_hundredths(timing.mean_draw(), 1_000_000)
                + " ms"@)
            &&& lines[2] == "  worst draw    : "@ + (to_hundredths(timing.worst as nat, 1_000_000)
                + " ms"@ + "  (frame "@ + decimal(timing.worst_at as nat)) + ")"@
            &&& timing.worst_steady == 0 ==> lines[3]
                == "  worst steady  : n/a (run shorter than the warm-up)"@
            &&& timing.worst_steady > 0 ==> lines[3] == "  worst steady  : "@ + (to_hundredths(
                timing.worst_steady as nat,
                1_000_000,
            ) + " ms"@ + "  (frame "@ + decimal(timing.worst_steady_at as nat)) + ", after "@
                + decimal(5) + "s warm-up)"@
            &&& lines[4] == "  last fps      : "@ + to_tenths(timing.fps as nat, 1000)
            &&& timing.cap is None ==> lines[5]
                == "  frame cap     : none \u{2014} paced by the page flip"@
            &&& timing.cap == Some(33_000_000u64) ==> lines[5] == "  frame cap     : "@ + rounded(
                1_000_000_000,
                33_000_000,
            ) + " fps (last page shown)"@
            &&& lines[6] == "  wx composites : "@ + decimal(mosaic.composites as nat)
            &&& lines[7] == "  wx blocks     : "@ + decimal(mosaic.blocks_composited as nat)
                + " drawn, "@ + decimal(mosaic.blocks_skipped_outside as nat) + " outside, "@
                + decimal(mosaic.bins_painted as nat) + " bins"@
        }),
{
}

} // verus!
