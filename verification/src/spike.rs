//! The rendering test pattern: what it writes, how fast it runs, and how it is asked for.
//!
//! Each element of the pattern exercises one thing the display depends on, so that a failure on the
//! panel's driver shows up as a specific missing feature rather than as a mysteriously blank screen.

use vstd::prelude::*;

use crate::args::{
    arguments, contents, parse_size, parse_unsigned, push_word, size_of, unsigned, word_at, ArgError,
    SizeFault,
};
use crate::domain::{elapsed, time_since};
use crate::gfx::GlInfo;
use crate::layout::{larger, larger_of, smaller, smaller_of, LONGEST_SIDE};
use crate::marks::{
    block, drawn, nothing, put, put_fill, put_line, put_text, stroke, text_at, Align, Area,
    Baseline, Mark, Painted, Style,
};
use crate::pacing::FPS_WINDOW;
use crate::projection::{along, point_along, Turn};
use crate::text::{
    chars_of, decimal, padded, push_decimal, push_padded, push_tenths, same, text_of, to_tenths,
};
use crate::theme::Color;

verus! {

// --- the command line ----------------------------------------------------------------------

/// Everything the command line says.
#[derive(Debug)]
pub struct SpikeArgs {
    pub offscreen: bool,
    pub device: Option<String>,
    pub out: String,
    /// How many frames to draw, if that was said.
    pub frames: Option<u64>,
    pub size: (u32, u32),
    pub take_vt: bool,
}

/// What a command line says.
#[verifier::ext_equal]
pub ghost struct SpikeChoices {
    pub offscreen: bool,
    pub device: Option<Seq<char>>,
    pub out: Seq<char>,
    pub frames: Option<nat>,
    pub size: (nat, nat),
    pub take_vt: bool,
}

impl View for SpikeArgs {
    type V = SpikeChoices;

    open spec fn view(&self) -> SpikeChoices {
        SpikeChoices {
            offscreen: self.offscreen,
            device: contents(self.device),
            out: self.out@,
            frames: match self.frames {
                Some(n) => Some(n as nat),
                None => None,
            },
            size: (self.size.0 as nat, self.size.1 as nat),
            take_vt: self.take_vt,
        }
    }
}

/// What an empty command line says.
pub open spec fn spike_unasked() -> SpikeChoices {
    SpikeChoices {
        offscreen: false,
        device: None,
        out: "spike.ppm"@,
        frames: None,
        size: (800, 480),
        take_vt: true,
    }
}

fn owned(s: &str) -> (r: String)
    ensures
        r@ == s@,
{
    let mut out: String = String::new();
    out.append(s);
    assert(out@ =~= s@);
    out
}

impl Default for SpikeArgs {
    fn default() -> (r: SpikeArgs)
        ensures
            r@ == spike_unasked(),
    {
        SpikeArgs {
            offscreen: false,
            device: None,
            out: owned("spike.ppm"),
            frames: None,
            size: (800, 480),
            take_vt: true,
        }
    }
}

impl SpikeArgs {
    /// How many frames to draw; zero is until stopped. Without a display it is a fixed short burst
    /// by default, so that the rate and the phase of the animation are both meaningful in the image.
    pub fn frame_limit(&self) -> (r: u64)
        ensures
            r == match self.frames {
                Some(n) => n,
                None => if self.offscreen {
                    60u64
                } else {
                    0u64
                },
            },
    {
        match self.frames {
            Some(n) => n,
            None => if self.offscreen {
                60
            } else {
                0
            },
        }
    }
}

/// What an argument with a value changes. `at` is the place of the value.
pub open spec fn spike_valued(c: SpikeChoices, arg: Seq<char>, value: Seq<char>, at: int) -> Result<
    SpikeChoices,
    ArgError,
> {
    let place = at as usize;
    if arg == "--out"@ {
        Ok(SpikeChoices { out: value, ..c })
    } else if arg == "--device"@ {
        Ok(SpikeChoices { device: Some(value), ..c })
    } else if arg == "--frames"@ {
        match unsigned(value, u64::MAX as nat) {
            Some(n) => Ok(SpikeChoices { frames: Some(n), ..c }),
            None => Err(ArgError::BadNumber(place)),
        }
    } else {
        match size_of(value) {
            Ok(size) => Ok(SpikeChoices { size, ..c }),
            Err(SizeFault::Shape) => Err(ArgError::BadSize(place)),
            Err(SizeFault::Number) => Err(ArgError::BadSizeNumber(place)),
        }
    }
}

/// What the arguments from a place on make of what was said before them: nothing when they ask for
/// help, and the first thing that is wrong with them when something is.
pub open spec fn spike_read_from(argv: Seq<Seq<char>>, i: int, c: SpikeChoices) -> Result<
    Option<SpikeChoices>,
    ArgError,
>
    decreases argv.len() - i,
{
    if i < 0 || i >= argv.len() {
        Ok(Some(c))
    } else if argv[i] == "-h"@ || argv[i] == "--help"@ {
        Ok(None)
    } else if argv[i] == "--offscreen"@ {
        spike_read_from(argv, i + 1, SpikeChoices { offscreen: true, ..c })
    } else if argv[i] == "--no-vt"@ {
        spike_read_from(argv, i + 1, SpikeChoices { take_vt: false, ..c })
    } else if argv[i] == "--out"@ || argv[i] == "--device"@ || argv[i] == "--frames"@ || argv[i]
        == "--size"@ {
        if i + 1 >= argv.len() {
            Err(ArgError::NeedsValue(i as usize))
        } else {
            match spike_valued(c, argv[i], argv[i + 1], i + 1) {
                Ok(next) => spike_read_from(argv, i + 2, next),
                Err(e) => Err(e),
            }
        }
    } else {
        Err(ArgError::Unrecognised(i as usize))
    }
}

/// What an argument wants that came last.
pub open spec fn spike_want_of(arg: Seq<char>) -> Seq<char> {
    if arg == "--frames"@ {
        " needs a number"@
    } else if arg == "--size"@ {
        " needs WxH"@
    } else {
        " needs a path"@
    }
}

/// What is wrong with a command line, in words. `quoted` is the argument at fault, in quotes.
pub open spec fn spike_fault_text(
    error: ArgError,
    argv: Seq<Seq<char>>,
    quoted: Seq<char>,
    usage: Seq<char>,
) -> Seq<char> {
    match error {
        ArgError::NeedsValue(at) => word_at(argv, at as int) + spike_want_of(
            word_at(argv, at as int),
        ),
        ArgError::BadNumber(_) => "bad --frames value "@ + quoted,
        ArgError::BadSize(_) => "bad --size value "@ + quoted + ", want e.g. 800x480"@,
        ArgError::BadSizeNumber(_) => "bad --size value "@ + quoted + ": no number"@,
        _ => "unrecognised argument "@ + quoted + "\n\n"@ + usage,
    }
}

/// What is wrong with a command line, in words.
pub fn describe_spike_argument(
    error: ArgError,
    argv: &[String],
    quoted: &str,
    usage: &str,
) -> (r: String)
    ensures
        r@ == spike_fault_text(error, arguments(argv@), quoted@, usage@),
{
    let mut out: String = String::new();
    match error {
        ArgError::NeedsValue(at) => {
            push_word(&mut out, argv, at);
            let ghost word = word_at(arguments(argv@), at as int);
            assert(out@ =~= word);
            if same(out.as_str(), "--frames") {
                out.append(" needs a number");
            } else if same(out.as_str(), "--size") {
                out.append(" needs WxH");
            } else {
                out.append(" needs a path");
            }
        },
        ArgError::BadNumber(_) => {
            out.append("bad --frames value ");
            out.append(quoted);
        },
        ArgError::BadSize(_) => {
            out.append("bad --size value ");
            out.append(quoted);
            out.append(", want e.g. 800x480");
        },
        ArgError::BadSizeNumber(_) => {
            out.append("bad --size value ");
            out.append(quoted);
            out.append(": no number");
        },
        _ => {
            out.append("unrecognised argument ");
            out.append(quoted);
            out.append("\n\n");
            out.append(usage);
        },
    }
    assert(out@ =~= spike_fault_text(error, arguments(argv@), quoted@, usage@));
    out
}

fn set_value(args: &mut SpikeArgs, arg: &str, value: &str, at: usize) -> (r: Result<(), ArgError>)
    ensures
        match (r, spike_valued(old(args)@, arg@, value@, at as int)) {
            (Ok(_), Ok(c)) => final(args)@ == c,
            (Err(a), Err(b)) => a == b,
            _ => false,
        },
{
    if same(arg, "--out") {
        args.out = owned(value);
    } else if same(arg, "--device") {
        args.device = Some(owned(value));
    } else if same(arg, "--frames") {
        match parse_unsigned(value, u64::MAX) {
            Some(n) => args.frames = Some(n),
            None => return Err(ArgError::BadNumber(at)),
        }
    } else {
        match parse_size(value) {
            Ok(size) => args.size = size,
            Err(SizeFault::Shape) => return Err(ArgError::BadSize(at)),
            Err(SizeFault::Number) => return Err(ArgError::BadSizeNumber(at)),
        }
    }
    Ok(())
}

/// Read the command line, the program's own name left out. `None` asks for help.
pub fn parse_spike_args(argv: &[String]) -> (r: Result<Option<SpikeArgs>, ArgError>)
    ensures
        match (r, spike_read_from(arguments(argv@), 0, spike_unasked())) {
            (Ok(Some(args)), Ok(Some(c))) => args@ == c,
            (Ok(None), Ok(None)) => true,
            (Err(a), Err(b)) => a == b,
            _ => false,
        },
{
    let mut args: SpikeArgs = SpikeArgs::default();
    let mut i: usize = 0;
    let ghost all = arguments(argv@);
    while i < argv.len()
        invariant
            i <= argv.len(),
            all == arguments(argv@),
            all.len() == argv@.len(),
            spike_read_from(all, 0, spike_unasked()) == spike_read_from(all, i as int, args@),
        decreases argv.len() - i,
    {
        let arg: &str = argv[i].as_str();
        assert(all[i as int] == arg@);
        if same(arg, "-h") || same(arg, "--help") {
            return Ok(None);
        }
        if same(arg, "--offscreen") {
            args.offscreen = true;
            i = i + 1;
        } else if same(arg, "--no-vt") {
            args.take_vt = false;
            i = i + 1;
        } else if same(arg, "--out") || same(arg, "--device") || same(arg, "--frames") || same(
            arg,
            "--size",
        ) {
            if argv.len() - i == 1 {
                return Err(ArgError::NeedsValue(i));
            }
            let at: usize = i + 1;
            let value: &str = argv[at].as_str();
            assert(all[at as int] == value@);
            match set_value(&mut args, arg, value, at) {
                Ok(_) => {},
                Err(e) => return Err(e),
            }
            i = i + 2;
        } else {
            return Err(ArgError::Unrecognised(i));
        }
    }
    Ok(Some(args))
}

// --- the frame rate ------------------------------------------------------------------------

/// Counts frames and how fast they come. Rates are in thousandths of a frame per second.
#[derive(Debug, Clone, Copy, PartialEq, Eq, Structural)]
pub struct FrameClock {
    pub start: u64,
    pub frame_count: u64,
    pub fps: u128,
    pub window_start: u64,
    pub window_frames: u64,
}

/// A rate: frames in a time.
pub open spec fn rate_of(frames: int, span: int) -> int {
    frames * 1_000_000_000_000 / span
}

fn rate(frames: u64, span: u64) -> (r: u128)
    requires
        span > 0,
    ensures
        r == rate_of(frames as int, span as int),
{
    frames as u128 * 1_000_000_000_000 / span as u128
}

impl FrameClock {
    pub fn new(now: u64) -> (r: FrameClock)
        ensures
            r == (FrameClock {
                start: now,
                frame_count: 0,
                fps: 0,
                window_start: now,
                window_frames: 0,
            }),
    {
        FrameClock { start: now, frame_count: 0, fps: 0, window_start: now, window_frames: 0 }
    }

    /// The clock after a frame. Until the first averaging window closes the rate is the running
    /// average; otherwise a short run would report none at all, and look like a failure.
    pub open spec fn ticked(self, now: u64) -> FrameClock {
        let span = time_since(now as int, self.window_start as int);
        let whole = time_since(now as int, self.start as int);
        let counted = FrameClock {
            frame_count: (self.frame_count + 1) as u64,
            window_frames: (self.window_frames + 1) as u64,
            ..self
        };
        if span >= FPS_WINDOW {
            FrameClock {
                fps: rate_of(self.window_frames + 1, span) as u128,
                window_frames: 0,
                window_start: now,
                ..counted
            }
        } else if self.fps == 0 && whole > 0 {
            FrameClock { fps: rate_of(self.frame_count + 1, whole) as u128, ..counted }
        } else {
            counted
        }
    }

    /// Count a frame that has been drawn.
    pub fn tick(&mut self, now: u64)
        requires
            old(self).frame_count < u64::MAX,
            old(self).window_frames < u64::MAX,
        ensures
            *final(self) == old(self).ticked(now),
    {
        let ghost before = *self;
        self.frame_count = self.frame_count + 1;
        self.window_frames = self.window_frames + 1;
        let span: u64 = elapsed(now, self.window_start);
        if span >= FPS_WINDOW {
            self.fps = rate(self.window_frames, span);
            self.window_frames = 0;
            self.window_start = now;
        } else if self.fps == 0 {
            let whole: u64 = elapsed(now, self.start);
            if whole > 0 {
                self.fps = rate(self.frame_count, whole);
            }
        }
        assert(*self == before.ticked(now));
    }
}

// --- what is written on the pattern --------------------------------------------------------

/// A text cut to so many characters, its last one saying that it was.
pub open spec fn shortened(s: Seq<char>, most: int) -> Seq<char> {
    if s.len() <= most {
        s
    } else {
        s.take(if most > 0 {
            most - 1
        } else {
            0
        }).push('\u{2026}')
    }
}

/// Cut a text to so many characters.
pub fn truncate(s: &str, most: usize) -> (r: String)
    ensures
        r@ == shortened(s@, most as int),
{
    let v: Vec<char> = chars_of(s);
    if v.len() <= most {
        return text_of(v.as_slice());
    }
    let keep: usize = if most > 0 {
        most - 1
    } else {
        0
    };
    let mut out: String = text_of(vstd::slice::slice_subrange(v.as_slice(), 0, keep));
    out.push('\u{2026}');
    assert(out@ =~= shortened(s@, most as int));
    out
}

/// The tag beside a symbol.
pub open spec fn tag_of(i: nat) -> Seq<char> {
    "N"@ + padded(100 + i * 7, 3) + "TC +"@ + padded(i * 3, 2)
}

/// The tag beside a symbol.
pub fn symbol_tag(i: u32) -> (r: String)
    ensures
        r@ == tag_of(i as nat),
{
    let mut out: String = String::new();
    out.append("N");
    push_padded(&mut out, 100 + i as u64 * 7, 3);
    out.append("TC +");
    push_padded(&mut out, i as u64 * 3, 2);
    assert(out@ =~= tag_of(i as nat));
    out
}

/// The colour of a symbol: the three tiers in turn.
pub open spec fn tier_colour(i: int) -> Color {
    if i % 3 == 0 {
        Color::of_bytes(255, 80, 60, 255)
    } else if i % 3 == 1 {
        Color::of_bytes(255, 200, 40, 255)
    } else {
        Color::of_bytes(220, 235, 245, 255)
    }
}

/// The colour of a symbol: the three tiers in turn.
pub fn symbol_colour(i: u32) -> (r: Color)
    ensures
        r == tier_colour(i as int),
{
    if i % 3 == 0 {
        Color::rgb(255, 80, 60)
    } else if i % 3 == 1 {
        Color::rgb(255, 200, 40)
    } else {
        Color::rgb(220, 235, 245)
    }
}

/// The colour of the frame rate: 28 frames a second is enough.
pub open spec fn colour_of_rate(fps: int) -> Color {
    if fps >= 28_000 {
        Color::of_bytes(120, 255, 170, 255)
    } else {
        Color::of_bytes(255, 180, 60, 255)
    }
}

/// The colour of the frame rate: 28 frames a second is enough.
pub fn rate_colour(fps: u128) -> (r: Color)
    ensures
        r == colour_of_rate(fps as int),
{
    if fps >= 28_000 {
        Color::rgb(120, 255, 170)
    } else {
        Color::rgb(255, 180, 60)
    }
}

/// The palette of the test mosaics, by intensity: red, green, blue and opacity.
pub const MOSAIC_PALETTE: [(u8, u8, u8, u8); 8] = [
    (0, 0, 0, 0),
    (0, 0, 0, 0),
    (16, 140, 16, 190),
    (24, 200, 24, 205),
    (225, 210, 40, 215),
    (235, 150, 30, 225),
    (220, 50, 40, 235),
    (200, 40, 190, 245),
];

/// A rate in frames per second, to one decimal. One too great to write is written as the greatest
/// that is not.
pub open spec fn rate_written(fps: int) -> Seq<char> {
    to_tenths(
        (if fps <= u64::MAX {
            fps
        } else {
            u64::MAX as int
        }) as nat,
        1000,
    )
}

fn push_rate(out: &mut String, fps: u128)
    ensures
        final(out)@ == old(out)@ + rate_written(fps as int),
{
    let held: u64 = if fps <= u64::MAX as u128 {
        fps as u64
    } else {
        u64::MAX
    };
    push_tenths(out, held, 1000);
}

/// What is said of the driver.
pub open spec fn driver_of(gl: GlInfo) -> Seq<char> {
    shortened(gl.renderer@, 34) + "  |  "@ + shortened(gl.version@, 26) + "  |  GLES2="@ + truth(
        gl.is_gles2,
    )
}

/// Yes or no, as the pattern writes it.
pub open spec fn truth(b: bool) -> Seq<char> {
    if b {
        "true"@
    } else {
        "false"@
    }
}

fn truth_text(b: bool) -> (r: &'static str)
    ensures
        r@ == truth(b),
{
    if b {
        "true"
    } else {
        "false"
    }
}

/// What is said of the driver.
pub fn driver_text(gl: &GlInfo) -> (r: String)
    ensures
        r@ == driver_of(*gl),
{
    let mut out: String = truncate(gl.renderer.as_str(), 34);
    out.append("  |  ");
    let version: String = truncate(gl.version.as_str(), 26);
    out.append(version.as_str());
    out.append("  |  GLES2=");
    out.append(truth_text(gl.is_gles2));
    assert(out@ =~= driver_of(*gl));
    out
}

// --- the picture ---------------------------------------------------------------------------

/// The middle of the pattern, a little below that of the panel.
pub open spec fn middle_of(width: int, height: int) -> (i64, i64) {
    ((width / 2) as i64, (height * 55 / 100) as i64)
}

fn middle(width: i64, height: i64) -> (r: (i64, i64))
    requires
        0 <= width <= LONGEST_SIDE,
        0 <= height <= LONGEST_SIDE,
    ensures
        r == middle_of(width as int, height as int),
        0 <= r.0 <= LONGEST_SIDE,
        0 <= r.1 <= LONGEST_SIDE,
{
    (width / 2, height * 55 / 100)
}

/// The radius of the outer ring.
pub open spec fn outer_of(width: int, height: int) -> int {
    larger(smaller(width, height) * 42 / 100, 20_000)
}

fn outer(width: i64, height: i64) -> (r: i64)
    requires
        0 <= width <= LONGEST_SIDE,
        0 <= height <= LONGEST_SIDE,
    ensures
        r == outer_of(width as int, height as int),
        0 <= r <= LONGEST_SIDE,
{
    larger_of(smaller_of(width, height) * 42 / 100, 20_000)
}

/// How far out ring `i` is, in per cent of the outer one.
pub open spec fn ring_percent(i: int) -> int {
    if i == 0 {
        100
    } else if i == 1 {
        66
    } else {
        33
    }
}

/// Ring `i`: filled, each fainter than the one around it, and stroked.
pub open spec fn pattern_ring(i: int, width: int, height: int) -> Seq<Painted> {
    let (cx, cy) = middle_of(width, height);
    let at = (cx as int, cy as int);
    let radius = outer_of(width, height) * ring_percent(i) / 100;
    seq![
        Painted::Disc {
            at,
            radius,
            colour: Color::of_percent(20, 50, 90, (16 - 4 * i) as u8),
        },
        Painted::Ring { at, radius, colour: Color::of_percent(35, 75, 100, 85), width: 1_500 },
    ]
}

/// The tick in a direction.
pub open spec fn pattern_tick(turn: Turn, width: int, height: int) -> Painted {
    let centre = middle_of(width, height);
    let radius = outer_of(width, height);
    stroke(
        point_along(centre, turn, radius * 94 / 100),
        point_along(centre, turn, radius),
        Color::of_percent(50, 80, 100, 70),
        1_000,
    )
}

/// The rings and the ticks.
pub open spec fn pattern_rings(rose: Seq<Turn>, width: int, height: int) -> Seq<Painted> {
    pattern_ring(0, width, height) + pattern_ring(1, width, height) + pattern_ring(
        2,
        width,
        height,
    ) + Seq::new(rose.len(), |k: int| pattern_tick(rose[k], width, height))
}

fn put_pattern_ring(out: &mut Vec<Mark>, i: u8, percent: i64, width: i64, height: i64)
    requires
        i < 3,
        percent == ring_percent(i as int),
        0 <= percent <= 100,
        0 <= width <= LONGEST_SIDE,
        0 <= height <= LONGEST_SIDE,
    ensures
        drawn(final(out)@) == drawn(old(out)@) + pattern_ring(
            i as int,
            width as int,
            height as int,
        ),
{
    let ghost was = drawn(out@);
    let at: (i64, i64) = middle(width, height);
    let whole: i64 = outer(width, height);
    assert(0 <= whole * percent <= 100 * LONGEST_SIDE) by (nonlinear_arith)
        requires
            0 <= whole <= LONGEST_SIDE,
            0 <= percent <= 100,
    ;
    let radius: i64 = whole * percent / 100;
    let shade: Color = Color::percent(20, 50, 90, 16 - 4 * i);
    put(out, Mark::Disc { at, radius, colour: shade });
    let line: Color = Color::percent(35, 75, 100, 85);
    put(out, Mark::Ring { at, radius, colour: line, width: 1_500 });
    assert(drawn(out@) =~= was + pattern_ring(i as int, width as int, height as int));
}

/// Concentric filled and stroked rings, which is what fills curved shapes, and many short strokes,
/// which is what labels look like to a driver. `rose` is the directions of the ticks.
pub fn draw_range_rings(rose: &[Turn], width: i64, height: i64) -> (r: Vec<Mark>)
    requires
        0 <= width <= LONGEST_SIDE,
        0 <= height <= LONGEST_SIDE,
        forall|k: int| 0 <= k < rose@.len() ==> (#[trigger] rose@[k]).wf(),
    ensures
        drawn(r@) == pattern_rings(rose@, width as int, height as int),
{
    let mut out: Vec<Mark> = nothing();
    put_pattern_ring(&mut out, 0, 100, width, height);
    put_pattern_ring(&mut out, 1, 66, width, height);
    put_pattern_ring(&mut out, 2, 33, width, height);
    let ghost rings = drawn(out@);
    assert(rings =~= pattern_ring(0, width as int, height as int) + pattern_ring(
        1,
        width as int,
        height as int,
    ) + pattern_ring(2, width as int, height as int));
    let centre: (i64, i64) = middle(width, height);
    let radius: i64 = outer(width, height);
    let colour: Color = Color::percent(50, 80, 100, 70);
    let ghost ticks = Seq::new(
        rose@.len(),
        |k: int| pattern_tick(rose@[k], width as int, height as int),
    );
    let mut k: usize = 0;
    assert(drawn(out@) =~= rings + ticks.take(0));
    while k < rose.len()
        invariant
            k <= rose.len(),
            centre == middle_of(width as int, height as int),
            radius == outer_of(width as int, height as int),
            0 <= centre.0 <= LONGEST_SIDE,
            0 <= centre.1 <= LONGEST_SIDE,
            0 <= radius <= LONGEST_SIDE,
            colour == Color::of_percent(50, 80, 100, 70),
            ticks == Seq::new(
                rose@.len(),
                |k: int| pattern_tick(rose@[k], width as int, height as int),
            ),
            forall|k: int| 0 <= k < rose@.len() ==> (#[trigger] rose@[k]).wf(),
            drawn(out@) == rings + ticks.take(k as int),
        decreases rose.len() - k,
    {
        let turn: Turn = rose[k];
        assert(rose@[k as int].wf());
        put_line(
            &mut out,
            along(centre, turn, radius * 94 / 100),
            along(centre, turn, radius),
            colour,
            1_000,
        );
        assert(ticks[k as int] == pattern_tick(turn, width as int, height as int));
        k = k + 1;
        assert(drawn(out@) =~= rings + ticks.take(k as int));
    }
    assert(ticks.take(k as int) =~= ticks);
    assert(drawn(out@) =~= pattern_rings(rose@, width as int, height as int));
    out
}

/// Which way symbol `i` points after a time, in nanoseconds: a sixth of a turn apart, all going round
/// at 0.35 radians a second.
pub open spec fn heading_after(i: int, elapsed: int) -> int {
    (90_000 + 60_000 * i + elapsed * 20_053_523 / 1_000_000_000_000) % 360_000
}

/// Which way symbol `i` points after a time.
pub fn symbol_heading(i: u8, elapsed: u64) -> (r: i32)
    ensures
        r == heading_after(i as int, elapsed as int),
        0 <= r < 360_000,
{
    let gone: u128 = elapsed as u128 * 20_053_523 / 1_000_000_000_000;
    assert(gone <= 400_000_000_000_000);
    ((90_000 + 60_000 * i as u128 + gone) % 360_000) as i32
}

/// The shape of a symbol. It is not convex, so it cannot be filled as a fan.
pub open spec fn chevron() -> Seq<(i64, i64)> {
    seq![
        (0i64, -9_000i64),
        (7_200i64, 7_200i64),
        (0i64, 3_150i64),
        (-7_200i64, 7_200i64),
    ]
}

fn chevron_points() -> (r: Vec<(i64, i64)>)
    ensures
        r@ == chevron(),
{
    let mut points: Vec<(i64, i64)> = Vec::new();
    points.push((0, -9_000));
    points.push((7_200, 7_200));
    points.push((0, 3_150));
    points.push((-7_200, 7_200));
    assert(points@ =~= chevron());
    points
}

/// Symbol `i` with its tag. `turn` is the direction it points in.
pub open spec fn pattern_symbol(i: int, turn: Turn, elapsed: int, width: int, height: int) -> Seq<
    Painted,
> {
    let (x, y) = point_along(
        middle_of(width, height),
        turn,
        outer_of(width, height) * 72 / 100,
    );
    seq![
        Painted::Turn { at: (x, y), mdeg: heading_after(i, elapsed), down: 0 },
        Painted::Shape { points: chevron(), colour: tier_colour(i) },
        Painted::Outline {
            points: chevron(),
            colour: Color::of_bytes(10, 14, 20, 255),
            width: 1_000,
        },
        Painted::Unturn,
        text_at(
            x + 14_000,
            y,
            tag_of(i as nat),
            Style {
                colour: Color::of_bytes(200, 220, 235, 255),
                size: 11_000,
                align: Align::Left,
                baseline: Baseline::Middle,
            },
        ),
    ]
}

/// The first `n` symbols.
pub open spec fn pattern_symbols(
    turns: Seq<Turn>,
    n: int,
    elapsed: int,
    width: int,
    height: int,
) -> Seq<Painted>
    decreases n,
{
    if n <= 0 {
        seq![]
    } else {
        pattern_symbols(turns, n - 1, elapsed, width, height) + pattern_symbol(
            n - 1,
            turns[n - 1],
            elapsed,
            width,
            height,
        )
    }
}

/// Own-ship in the middle.
pub open spec fn pattern_ownship(width: int, height: int) -> Painted {
    let (cx, cy) = middle_of(width, height);
    Painted::Shape {
        points: seq![
            (cx, (cy - 11_000) as i64),
            ((cx + 8_000) as i64, (cy + 8_000) as i64),
            (cx, (cy + 4_000) as i64),
            ((cx - 8_000) as i64, (cy + 8_000) as i64),
        ],
        colour: Color::of_bytes(120, 255, 170, 255),
    }
}

fn put_pattern_symbol(
    out: &mut Vec<Mark>,
    i: u8,
    turn: Turn,
    elapsed: u64,
    width: i64,
    height: i64,
)
    requires
        turn.wf(),
        0 <= width <= LONGEST_SIDE,
        0 <= height <= LONGEST_SIDE,
    ensures
        drawn(final(out)@) == drawn(old(out)@) + pattern_symbol(
            i as int,
            turn,
            elapsed as int,
            width as int,
            height as int,
        ),
{
    let ghost was = drawn(out@);
    let centre: (i64, i64) = middle(width, height);
    let (x, y) = along(centre, turn, outer(width, height) * 72 / 100);
    let mdeg: i64 = symbol_heading(i, elapsed) as i64;
    put(out, Mark::Turn { at: (x, y), mdeg, down: 0 });
    put(out, Mark::Shape { points: chevron_points(), colour: symbol_colour(i as u32) });
    let edge: Color = Color::rgb(10, 14, 20);
    put(out, Mark::Outline { points: chevron_points(), colour: edge, width: 1_000 });
    put(out, Mark::Unturn);
    let style: Style = Style::new(
        Color::rgb(200, 220, 235),
        11_000,
        Align::Left,
        Baseline::Middle,
    );
    let tag: String = symbol_tag(i as u32);
    put_text(out, x + 14_000, y, tag.as_str(), style);
    assert(drawn(out@) =~= was + pattern_symbol(
        i as int,
        turn,
        elapsed as int,
        width as int,
        height as int,
    ));
}

/// Turned pictures with a filled shape in each. `turns` is the directions the symbols point in after
/// this time: those of [`symbol_heading`].
pub fn draw_rotating_symbols(turns: &[Turn], elapsed: u64, width: i64, height: i64) -> (r: Vec<Mark>)
    requires
        turns@.len() <= 100,
        forall|k: int| 0 <= k < turns@.len() ==> (#[trigger] turns@[k]).wf(),
        0 <= width <= LONGEST_SIDE,
        0 <= height <= LONGEST_SIDE,
    ensures
        drawn(r@) == pattern_symbols(
            turns@,
            turns@.len() as int,
            elapsed as int,
            width as int,
            height as int,
        ).push(pattern_ownship(width as int, height as int)),
{
    let mut out: Vec<Mark> = nothing();
    let mut k: u8 = 0;
    assert(drawn(out@) =~= pattern_symbols(
        turns@,
        0,
        elapsed as int,
        width as int,
        height as int,
    ));
    while (k as usize) < turns.len()
        invariant
            k <= turns@.len() <= 100,
            forall|k: int| 0 <= k < turns@.len() ==> (#[trigger] turns@[k]).wf(),
            0 <= width <= LONGEST_SIDE,
            0 <= height <= LONGEST_SIDE,
            drawn(out@) == pattern_symbols(
                turns@,
                k as int,
                elapsed as int,
                width as int,
                height as int,
            ),
        decreases turns.len() - k,
    {
        let turn: Turn = turns[k as usize];
        assert(turns@[k as int].wf());
        put_pattern_symbol(&mut out, k, turn, elapsed, width, height);
        k = k + 1;
    }
    let (cx, cy) = middle(width, height);
    let mut points: Vec<(i64, i64)> = Vec::new();
    points.push((cx, cy - 11_000));
    points.push((cx + 8_000, cy + 8_000));
    points.push((cx, cy + 4_000));
    points.push((cx - 8_000, cy + 8_000));
    assert(points@ =~= pattern_ownship(width as int, height as int)->Shape_points);
    let colour: Color = Color::rgb(120, 255, 170);
    put(&mut out, Mark::Shape { points, colour });
    out
}

/// Band `i` of the ramp.
pub open spec fn ramp_band(i: int, width: int, height: int) -> Painted {
    block(
        width / 2 + i * (width / 32),
        height - 18_000,
        width / 32,
        10_000,
        Color { a: (1_700 * i) as u32, ..Color::of_percent(40, 90, 100, 0) },
    )
}

/// A left-to-right ramp from clear to opaque: if blending is broken this reads as hard bands.
pub fn draw_alpha_wedge(width: i64, height: i64) -> (r: Vec<Mark>)
    requires
        0 <= width <= LONGEST_SIDE,
        0 <= height <= LONGEST_SIDE,
    ensures
        drawn(r@) == Seq::new(16, |i: int| ramp_band(i, width as int, height as int)),
{
    let mut out: Vec<Mark> = nothing();
    let clear: Color = Color::percent(40, 90, 100, 0);
    let step: i64 = width / 32;
    let ghost bands = Seq::new(16, |i: int| ramp_band(i, width as int, height as int));
    let mut i: i64 = 0;
    assert(drawn(out@) =~= bands.take(0));
    while i < 16
        invariant
            0 <= i <= 16,
            0 <= width <= LONGEST_SIDE,
            0 <= height <= LONGEST_SIDE,
            step == width / 32,
            0 <= step <= LONGEST_SIDE,
            clear == Color::of_percent(40, 90, 100, 0),
            bands == Seq::new(16, |i: int| ramp_band(i, width as int, height as int)),
            drawn(out@) == bands.take(i as int),
        decreases 16 - i,
    {
        assert(0 <= i * step <= 16 * LONGEST_SIDE) by (nonlinear_arith)
            requires
                0 <= i < 16,
                0 <= step <= LONGEST_SIDE,
        ;
        let colour: Color = Color { r: clear.r, g: clear.g, b: clear.b, a: 1_700 * i as u32 };
        put_fill(&mut out, width / 2 + i * step, height - 18_000, step, 10_000, colour);
        assert(bands[i as int] == ramp_band(i as int, width as int, height as int));
        i = i + 1;
        assert(drawn(out@) =~= bands.take(i as int));
    }
    assert(bands.take(16) =~= bands);
    out
}

/// Where mosaic `i` goes.
pub open spec fn tile_of(i: int, width: int, height: int) -> Area {
    let (w, h) = (width * 26 / 100, width * 26 / 100 * 6 / 10);
    Area {
        x: (12_000 + i * (w + 12_000)) as i64,
        y: (height - h - 26_000) as i64,
        w: w as i64,
        h: h as i64,
    }
}

/// Where mosaic `i` goes.
pub fn mosaic_tile(i: u8, width: i64, height: i64) -> (r: Area)
    requires
        i < 2,
        0 <= width <= LONGEST_SIDE,
        0 <= height <= LONGEST_SIDE,
    ensures
        r == tile_of(i as int, width as int, height as int),
        0 <= r.x <= LONGEST_SIDE,
        -LONGEST_SIDE <= r.y <= LONGEST_SIDE,
        0 <= r.h <= LONGEST_SIDE,
{
    let w: i64 = width * 26 / 100;
    let h: i64 = w * 6 / 10;
    let across: i64 = if i == 0 {
        0
    } else {
        w + 12_000
    };
    Area { x: 12_000 + across, y: height - h - 26_000, w, h }
}

/// What a mosaic is called, and how many texels it has across and down.
pub open spec fn caption_of(label: Seq<char>, across: nat, down: nat) -> Seq<char> {
    label + " ("@ + decimal(across) + "x"@ + decimal(down) + ")"@
}

/// The frame of a mosaic, and its caption under it.
pub open spec fn tile_marks(
    i: int,
    label: Seq<char>,
    across: nat,
    down: nat,
    width: int,
    height: int,
) -> Seq<Painted> {
    let area = tile_of(i, width, height);
    seq![
        Painted::Frame {
            x: area.x as int,
            y: area.y as int,
            w: area.w as int,
            h: area.h as int,
            corner: 0,
            colour: Color::of_percent(100, 100, 100, 35),
            width: 1_000,
        },
        text_at(
            area.x as int,
            area.y + area.h + 3_000,
            caption_of(label, across, down),
            Style {
                colour: Color::of_bytes(190, 205, 220, 255),
                size: 11_000,
                align: Align::Left,
                baseline: Baseline::Top,
            },
        ),
    ]
}

/// What goes round a mosaic: the picture itself is a texture.
pub fn draw_mosaic_frame(
    i: u8,
    label: &str,
    across: u32,
    down: u32,
    width: i64,
    height: i64,
) -> (r: Vec<Mark>)
    requires
        i < 2,
        0 <= width <= LONGEST_SIDE,
        0 <= height <= LONGEST_SIDE,
    ensures
        drawn(r@) == tile_marks(
            i as int,
            label@,
            across as nat,
            down as nat,
            width as int,
            height as int,
        ),
{
    let area: Area = mosaic_tile(i, width, height);
    let mut out: Vec<Mark> = nothing();
    let line: Color = Color::percent(100, 100, 100, 35);
    put(&mut out, Mark::Frame { area, corner: 0, colour: line, width: 1_000 });
    let mut caption: String = owned(label);
    caption.append(" (");
    push_decimal(&mut caption, across as u64);
    caption.append("x");
    push_decimal(&mut caption, down as u64);
    caption.append(")");
    assert(caption@ =~= caption_of(label@, across as nat, down as nat));
    let style: Style = Style::new(Color::rgb(190, 205, 220), 11_000, Align::Left, Baseline::Top);
    put_text(&mut out, area.x, area.y + area.h + 3_000, caption.as_str(), style);
    assert(drawn(out@) =~= tile_marks(
        i as int,
        label@,
        across as nat,
        down as nat,
        width as int,
        height as int,
    ));
    out
}

/// A report to write in every size.
pub const SPECIMEN: &'static str = "px  METAR KDEN 291853Z 04012KT 10SM FEW120 28/07 A3002";

/// The four sizes of type, in pixels.
pub open spec fn specimen_size(i: int) -> int {
    if i == 0 {
        9
    } else if i == 1 {
        11
    } else if i == 2 {
        14
    } else {
        18
    }
}

/// A line in one size of type, its size in front in four columns.
pub open spec fn specimen(i: int) -> Painted {
    let size = specimen_size(i);
    text_at(
        10_000,
        56_000 + i * (size * 1_000 + 4_000),
        (if size < 10 {
            "   "@
        } else {
            "  "@
        }) + decimal(size as nat) + SPECIMEN@,
        top_style(205, 220, 235, size * 1_000, Align::Left),
    )
}

/// How the text block is written.
pub open spec fn top_style(r: u8, g: u8, b: u8, size: int, align: Align) -> Style {
    Style {
        colour: Color::of_bytes(r, g, b, 255),
        size: size as i64,
        align,
        baseline: Baseline::Top,
    }
}

/// The block of text along the top.
pub open spec fn text_block(clock: FrameClock, gl: GlInfo, width: int) -> Seq<Painted> {
    let right = width - 10_000;
    seq![
        block(0, 0, width, 46_000, Color::of_percent(5, 7, 10, 92)),
        text_at(10_000, 5_000, "M1 GFX SPIKE"@, top_style(235, 245, 255, 17_000, Align::Left)),
        text_at(10_000, 26_000, driver_of(gl), top_style(150, 175, 195, 11_000, Align::Left)),
        text_at(
            right,
            6_000,
            rate_written(clock.fps as int) + " fps"@,
            Style {
                colour: colour_of_rate(clock.fps as int),
                size: 20_000,
                align: Align::Right,
                baseline: Baseline::Top,
            },
        ),
        text_at(
            right,
            29_000,
            "frame "@ + decimal(clock.frame_count as nat),
            top_style(140, 160, 180, 11_000, Align::Right),
        ),
        specimen(0),
        specimen(1),
        specimen(2),
        specimen(3),
    ]
}

fn put_specimen(out: &mut Vec<Mark>, i: i64, size: i64)
    requires
        0 <= i < 4,
        size == specimen_size(i as int),
    ensures
        drawn(final(out)@) == drawn(old(out)@).push(specimen(i as int)),
{
    let mut line: String = owned(
        if size < 10 {
            "   "
        } else {
            "  "
        },
    );
    push_decimal(&mut line, size as u64);
    line.append(SPECIMEN);
    let style: Style = Style::new(
        Color::rgb(205, 220, 235),
        size * 1_000,
        Align::Left,
        Baseline::Top,
    );
    let y: i64 = match i {
        0 => 56_000,
        1 => 56_000 + (size * 1_000 + 4_000),
        2 => 56_000 + 2 * (size * 1_000 + 4_000),
        _ => 56_000 + 3 * (size * 1_000 + 4_000),
    };
    put_text(out, 10_000, y, line.as_str(), style);
    assert(line@ =~= specimen(i as int)->Text_text);
}

/// The block of text: the driver, the rate, and a report in four sizes of type, since small type on a
/// small panel is where glyph trouble shows first. The rate is right-aligned so that it does not
/// jitter as its digits change.
pub fn draw_text_block(clock: &FrameClock, gl: &GlInfo, width: i64) -> (r: Vec<Mark>)
    requires
        0 <= width <= LONGEST_SIDE,
    ensures
        drawn(r@) == text_block(*clock, *gl, width as int),
{
    let mut out: Vec<Mark> = nothing();
    put_fill(&mut out, 0, 0, width, 46_000, Color::percent(5, 7, 10, 92));
    let style: Style = Style::new(Color::rgb(235, 245, 255), 17_000, Align::Left, Baseline::Top);
    put_text(&mut out, 10_000, 5_000, "M1 GFX SPIKE", style);
    let style: Style = Style::new(Color::rgb(150, 175, 195), 11_000, Align::Left, Baseline::Top);
    let driver: String = driver_text(gl);
    put_text(&mut out, 10_000, 26_000, driver.as_str(), style);
    let mut rate: String = String::new();
    push_rate(&mut rate, clock.fps);
    rate.append(" fps");
    assert(rate@ =~= rate_written(clock.fps as int) + " fps"@);
    let style: Style = Style::new(rate_colour(clock.fps), 20_000, Align::Right, Baseline::Top);
    put_text(&mut out, width - 10_000, 6_000, rate.as_str(), style);
    let mut frame: String = owned("frame ");
    push_decimal(&mut frame, clock.frame_count);
    let style: Style = Style::new(Color::rgb(140, 160, 180), 11_000, Align::Right, Baseline::Top);
    put_text(&mut out, width - 10_000, 29_000, frame.as_str(), style);
    put_specimen(&mut out, 0, 9);
    put_specimen(&mut out, 1, 11);
    put_specimen(&mut out, 2, 14);
    put_specimen(&mut out, 3, 18);
    assert(drawn(out@) =~= text_block(*clock, *gl, width as int));
    out
}

// --- the result ----------------------------------------------------------------------------

/// What is said at the end of a run, line by line.
pub open spec fn result_lines(gl: GlInfo, size: (u32, u32), clock: FrameClock) -> Seq<Seq<char>> {
    seq![
        "  resolution : "@ + decimal(size.0 as nat) + "x"@ + decimal(size.1 as nat),
        "  vendor     : "@ + gl.vendor@,
        "  renderer   : "@ + gl.renderer@,
        "  version    : "@ + gl.version@,
        "  GLES2 path : "@ + truth(gl.is_gles2),
        "  frames     : "@ + decimal(clock.frame_count as nat),
        "  last fps   : "@ + rate_written(clock.fps as int),
    ]
}

fn named(label: &str, text: &str) -> (r: String)
    ensures
        r@ == label@ + text@,
{
    let mut out: String = owned(label);
    out.append(text);
    out
}

/// What is said at the end of a run, line by line.
pub fn report(gl: &GlInfo, size: (u32, u32), clock: &FrameClock) -> (r: Vec<String>)
    ensures
        r@.len() == 7,
        forall|i: int|
            0 <= i < 7 ==> (#[trigger] r@[i])@ == result_lines(*gl, size, *clock)[i],
{
    let ghost wanted = result_lines(*gl, size, *clock);
    let mut resolution: String = owned("  resolution : ");
    push_decimal(&mut resolution, size.0 as u64);
    resolution.append("x");
    push_decimal(&mut resolution, size.1 as u64);
    assert(resolution@ =~= wanted[0]);
    let mut frames: String = owned("  frames     : ");
    push_decimal(&mut frames, clock.frame_count);
    let mut fps: String = owned("  last fps   : ");
    push_rate(&mut fps, clock.fps);
    let mut out: Vec<String> = Vec::new();
    out.push(resolution);
    out.push(named("  vendor     : ", gl.vendor.as_str()));
    out.push(named("  renderer   : ", gl.renderer.as_str()));
    out.push(named("  version    : ", gl.version.as_str()));
    out.push(named("  GLES2 path : ", truth_text(gl.is_gles2)));
    out.push(frames);
    out.push(fps);
    assert forall|i: int| 0 <= i < 7 implies (#[trigger] out@[i])@ == wanted[i] by {}
    out
}

// --- laws ----------------------------------------------------------------------------------

/// A shortened text is never longer than was asked for, except that it always says it was cut.
pub proof fn a_shortened_text_fits(s: Seq<char>, most: int)
    requires
        most > 0,
    ensures
        shortened(s, most).len() <= most,
        s.len() <= most ==> shortened(s, most) == s,
{
}

/// A run that has drawn a frame reports a rate, however short it was.
pub proof fn a_short_run_reports_a_rate(clock: FrameClock, now: u64)
    requires
        clock.fps == 0,
        clock.window_start == clock.start,
        clock.start < now < clock.start + FPS_WINDOW,
        clock.frame_count < u64::MAX,
    ensures
        clock.ticked(now).fps > 0,
{
    let whole = time_since(now as int, clock.start as int);
    let n = (clock.frame_count + 1) * 1_000_000_000_000;
    assert(1 <= n / whole <= n) by (nonlinear_arith)
        requires
            n >= 1_000_000_000_000,
            0 < whole < 500_000_000,
    ;
}

/// Thirty frames in a second are thirty a second: a rate is so many frames over the time they took, in
/// thousandths.
pub proof fn rates_are_frames_a_second(frames: int, seconds: int)
    requires
        0 < seconds,
        0 <= frames,
    ensures
        rate_of(frames * seconds, 1_000_000_000 * seconds) == 1000 * frames,
        rate_of(frames, 1_000_000_000) == 1000 * frames,
{
    let d = 1_000_000_000 * seconds;
    assert((frames * seconds) * 1_000_000_000_000 == (1000 * frames) * d) by (nonlinear_arith)
        requires
            d == 1_000_000_000 * seconds,
    ;
    vstd::arithmetic::div_mod::lemma_div_multiples_vanish(1000 * frames, d);
    assert(d * (1000 * frames) == (1000 * frames) * d) by (nonlinear_arith);
}

/// A clock counts every frame, and its rate is of the last whole half second.
pub proof fn clocks_count_every_frame(clock: FrameClock, now: u64)
    requires
        clock.frame_count < u64::MAX,
        clock.window_frames < 1_000_000,
        clock.window_start <= now,
    ensures
        ({
            let after = clock.ticked(now);
            let span = now - clock.window_start;
            &&& after.frame_count == clock.frame_count + 1
            &&& after.start == clock.start
            &&& span >= 500_000_000 ==> after.window_frames == 0 && after.window_start == now
                && after.fps == rate_of(clock.window_frames + 1, span)
            &&& span < 500_000_000 ==> after.window_frames == clock.window_frames + 1
                && after.window_start == clock.window_start
            &&& span < 500_000_000 && clock.fps != 0 ==> after.fps == clock.fps
        }),
{
    let span = now - clock.window_start;
    if span >= 500_000_000 {
        let n = (clock.window_frames + 1) * 1_000_000_000_000;
        assert(0 <= n / span <= n) by (nonlinear_arith)
            requires
                n >= 0,
                span >= 1,
        ;
    }
}

/// A text that is too long keeps its beginning and says that it was cut.
pub proof fn shortening_keeps_the_beginning(s: Seq<char>, most: int)
    requires
        0 < most < s.len(),
    ensures
        shortened(s, most).len() == most,
        shortened(s, most).take(most - 1) == s.take(most - 1),
        shortened(s, most).last() == '\u{2026}',
{
    assert(shortened(s, most).take(most - 1) =~= s.take(most - 1));
}

/// The pattern shows each tier in its own colour in turn, red, amber and white, and the rate in green from
/// twenty-eight frames a second.
pub proof fn the_pattern_shows_its_colours(i: int, fps: int)
    ensures
        tier_colour(3 * i) == (Color { r: 25_500, g: 8_000, b: 6_000, a: 25_500 }),
        tier_colour(3 * i + 1) == (Color { r: 25_500, g: 20_000, b: 4_000, a: 25_500 }),
        tier_colour(3 * i + 2) == (Color { r: 22_000, g: 23_500, b: 24_500, a: 25_500 }),
        fps >= 28_000 ==> colour_of_rate(fps) == (Color {
            r: 12_000,
            g: 25_500,
            b: 17_000,
            a: 25_500,
        }),
        fps < 28_000 ==> colour_of_rate(fps) == (Color { r: 25_500, g: 18_000, b: 6_000, a: 25_500 }),
        truth(true) == "true"@,
        truth(false) == "false"@,
{
}

/// The rings of the pattern stand about its middle, the whole, two thirds and one third of the way out,
/// and its symbols between the first two.
pub proof fn the_pattern_stands_about_its_middle(i: int, turn: Turn, elapsed: int, width: int, height: int)
    requires
        0 <= i < 3,
        0 <= width <= LONGEST_SIDE,
        0 <= height <= LONGEST_SIDE,
    ensures
        ({
            let marks = pattern_ring(i, width, height);
            let outer = outer_of(width, height);
            let symbol = pattern_symbol(i, turn, elapsed, width, height);
            &&& marks[0] is Disc && marks[1] is Ring
            &&& marks[0]->Disc_at == (width / 2, height * 55 / 100)
            &&& marks[1]->Ring_at == marks[0]->Disc_at
            &&& marks[1]->Ring_radius == marks[0]->Disc_radius
            &&& i == 0 ==> marks[1]->Ring_radius == outer
            &&& i == 1 ==> marks[1]->Ring_radius == outer * 66 / 100
            &&& i == 2 ==> marks[1]->Ring_radius == outer * 33 / 100
            &&& symbol[0]->Turn_at == point_along(
                middle_of(width, height),
                turn,
                outer * 72 / 100,
            )
            &&& symbol[0]->mdeg == heading_after(i, elapsed)
            &&& symbol[1] is Shape && symbol[2] is Outline && symbol[3] == Painted::Unturn
            &&& symbol[1]->Shape_points == symbol[2]->Outline_points
            &&& symbol[1]->Shape_points[0].0 == 0 && symbol[1]->Shape_points[0].1 < 0
            &&& symbol[4]->text == tag_of(i as nat)
            &&& symbol[4]->Text_x == (symbol[0]->Turn_at).0 + 14_000
        }),
{
}

/// What is set where nothing is asked for, and what is said of what is missing.
pub proof fn what_the_pattern_is_asked(c: SpikeChoices, value: Seq<char>, at: int)
    requires
        0 <= at <= usize::MAX,
    ensures
        spike_unasked().size == (800nat, 480nat) && spike_unasked().out == "spike.ppm"@
            && spike_unasked().take_vt && !spike_unasked().offscreen && spike_unasked().frames is None
            && spike_unasked().device is None,
        spike_valued(c, "--out"@, value, at) == Ok::<SpikeChoices, ArgError>(
            SpikeChoices { out: value, ..c },
        ),
        spike_want_of("--frames"@) == " needs a number"@,
{
}

/// The result says what it ran on, how large, how long and how fast.
pub proof fn the_result_says_what_it_ran_on(gl: GlInfo, size: (u32, u32), clock: FrameClock)
    ensures
        ({
            let lines = result_lines(gl, size, clock);
            &&& lines.len() == 7
            &&& lines[0] == "  resolution : "@ + decimal(size.0 as nat) + "x"@ + decimal(size.1 as nat)
            &&& lines[1] == "  vendor     : "@ + gl.vendor@
            &&& lines[2] == "  renderer   : "@ + gl.renderer@
            &&& lines[3] == "  version    : "@ + gl.version@
            &&& gl.is_gles2 ==> lines[4] == "  GLES2 path : "@ + "true"@
            &&& !gl.is_gles2 ==> lines[4] == "  GLES2 path : "@ + "false"@
            &&& lines[5] == "  frames     : "@ + decimal(clock.frame_count as nat)
            &&& clock.fps <= u64::MAX ==> lines[6] == "  last fps   : "@ + to_tenths(
                clock.fps as nat,
                1000,
            )
        }),
{
}

} // verus!
