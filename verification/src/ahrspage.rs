//! The attitude page: artificial horizon, slip/skid, G-load.
//!
//! # Read this before changing anything here
//!
//! The attitude sensor is an uncalibrated MEMS device with no redundancy and no independent failure
//! monitor. It drifts, it can be wrong without saying so, and it is **not** a primary attitude
//! reference. This page therefore has one rule that outranks every aesthetic consideration:
//!
//! > **Never draw a horizon that is not backed by a live reading.**
//!
//! A level blue-over-brown drawn from missing data is the single most dangerous thing this program
//! could put on a screen. It looks exactly like a working attitude indicator reporting wings level.
//! When pitch or roll is absent or stale, the page shows the failure flag and nothing else.
//!
//! # Sign conventions
//!
//! Pitch is positive nose-up and roll positive right-wing-down. On screen the horizon moves
//! *opposite* to the aircraft: nose-up pushes the horizon down, right bank rotates it
//! counter-clockwise, putting more ground on the right.
//!
//! Angles are in thousandths of a degree, lengths in thousandths of a pixel.

use vstd::prelude::*;

use crate::domain::Ahrs;
use crate::layout::{
    larger, larger_of, share, share_of, shares_are_near, shares_are_parts, smaller, smaller_of, Layout,
    LONGEST_SIDE,
};
use crate::marks::{
    block, drawn, nothing, put, put_all, put_fill, put_line, put_text, stroke, text_at, Align,
    Area, Baseline, Painted, Mark, Style,
};
use crate::metar::DEGREE;
use crate::tapes::{
    draw as draw_tape, draw_vsi, known, readout_fill, tape_marks, vsi_marks, Side, Tape, Vsi,
    LARGEST_VALUE,
};
use crate::text::{
    decimal, nearest, nearest_of, number, padded, padded_reads_back, push_decimal, push_padded,
    rounding_is_to_the_nearest, ten_to,
};
use crate::theme::{Color, Theme};

verus! {

/// Attitude older than this is treated as no attitude at all: one second.
///
/// Readings arrive at 10 Hz, so a full second of silence already means something upstream has
/// stopped. Erring short is deliberate: a stale horizon is worse than an absent one.
pub const STALE_AFTER: u64 = 1_000_000_000;

/// Roll-scale tick positions, in degrees either side of vertical.
pub const ROLL_TICKS: [i32; 5] = [10, 20, 30, 45, 60];

/// The standing reminder that this is not a primary instrument.
pub const BANNER: &'static str = "AHRS \u{2014} NOT FOR PRIMARY REFERENCE";

/// What the page decided to show.
#[derive(Debug, Clone, Copy, PartialEq, Eq, Structural)]
pub enum AhrsRender {
    /// A live attitude.
    Attitude,
    /// No usable attitude: the failure flag instead.
    Failed(AhrsFailure),
}

#[derive(Debug, Clone, Copy, PartialEq, Eq, Structural)]
pub enum AhrsFailure {
    /// No sensor has ever reported, or it reports no attitude.
    NoData,
    /// Readings arrived once but have stopped.
    Stale,
}

impl AhrsFailure {
    /// What the flag says.
    pub open spec fn name(self) -> Seq<char> {
        match self {
            AhrsFailure::NoData => "AHRS UNAVAILABLE"@,
            AhrsFailure::Stale => "AHRS DATA STALE"@,
        }
    }

    /// Why it is up.
    pub open spec fn reason(self) -> Seq<char> {
        match self {
            AhrsFailure::NoData => "no attitude sensor reporting"@,
            AhrsFailure::Stale => "sensor stopped updating"@,
        }
    }

    pub fn label(self) -> (r: &'static str)
        ensures
            r@ == self.name(),
    {
        match self {
            AhrsFailure::NoData => "AHRS UNAVAILABLE",
            AhrsFailure::Stale => "AHRS DATA STALE",
        }
    }

    pub fn detail(self) -> (r: &'static str)
        ensures
            r@ == self.reason(),
    {
        match self {
            AhrsFailure::NoData => "no attitude sensor reporting",
            AhrsFailure::Stale => "sensor stopped updating",
        }
    }
}

/// What the page shows.
pub open spec fn shown(ahrs: Ahrs, now: int) -> AhrsRender {
    if ahrs.reading() is None {
        AhrsRender::Failed(AhrsFailure::NoData)
    } else if ahrs.older_than(now, STALE_AFTER as int) {
        AhrsRender::Failed(AhrsFailure::Stale)
    } else {
        AhrsRender::Attitude
    }
}

/// Decide what to draw.
pub fn classify(ahrs: &Ahrs, now: u64) -> (r: AhrsRender)
    ensures
        r == shown(*ahrs, now as int),
{
    if ahrs.attitude().is_none() {
        AhrsRender::Failed(AhrsFailure::NoData)
    } else if ahrs.is_stale(now, STALE_AFTER) {
        AhrsRender::Failed(AhrsFailure::Stale)
    } else {
        AhrsRender::Attitude
    }
}

// --- where the instrument is ---------------------------------------------------------------

/// The attitude instrument: its centre, how far it reaches up and down, and where it ends at the
/// bottom, above the heading readout.
#[derive(Debug, Clone, Copy, PartialEq, Eq, Structural)]
pub struct Instrument {
    pub cx: i64,
    pub cy: i64,
    pub half_height: i64,
    pub top: i64,
    pub bottom: i64,
}

impl Instrument {
    pub open spec fn wf(self) -> bool {
        &&& -4 * LONGEST_SIDE <= self.half_height <= 4 * LONGEST_SIDE
        &&& -4 * LONGEST_SIDE <= self.cx <= 4 * LONGEST_SIDE
        &&& -4 * LONGEST_SIDE <= self.cy <= 4 * LONGEST_SIDE
    }
}

/// Height of the band at the bottom for the heading readout.
pub open spec fn heading_band(theme: Theme) -> int {
    theme.font_size_large * 17 / 10
}

/// Where the instrument is.
pub open spec fn instrument_of(layout: Layout, theme: Theme) -> Instrument {
    let top = layout.status_bar_height as int;
    let bottom = layout.height - layout.footer_height - heading_band(theme);
    Instrument {
        cx: (layout.content_x0 + (layout.content_x1 - layout.content_x0) / 2) as i64,
        cy: share(top + bottom, 1, 2) as i64,
        half_height: share(bottom - top, 1, 2) as i64,
        top: top as i64,
        bottom: bottom as i64,
    }
}

/// Where the instrument is: the attitude fills the whole area and the tapes overlay it, rather than
/// being boxed in beside them.
pub fn instrument(layout: &Layout, theme: &Theme) -> (r: Instrument)
    requires
        layout.wf(),
        theme.sizes_ok(),
    ensures
        r.wf(),
        r == instrument_of(*layout, *theme),
        r.top == layout.status_bar_height,
        r.bottom == layout.height - layout.footer_height - heading_band(*theme),
{
    let top: i64 = layout.status_bar_height;
    let bottom: i64 = layout.footer_y0() - theme.font_size_large * 17 / 10;
    Instrument {
        cx: layout.content_x0 + layout.content_width() / 2,
        cy: share_of(top + bottom, 1, 2),
        half_height: share_of(bottom - top, 1, 2),
        top,
        bottom,
    }
}

// --- the tapes ------------------------------------------------------------------------------

/// Widths of the ground speed tape, the altitude tape and the vertical-speed strip.
pub const GS_TAPE_W: i64 = 62_000;

pub const ALT_TAPE_W: i64 = 70_000;

pub const VSI_W: i64 = 34_000;

/// The ground speed tape.
pub open spec fn speed_tape_of(layout: Layout) -> Tape {
    Tape {
        x: layout.content_x0,
        width: GS_TAPE_W,
        top: layout.status_bar_height,
        bottom: (layout.height - layout.footer_height) as i64,
        units_per_px: 250,
        major: 10_000,
        minor: 5_000,
        side: Side::Left,
    }
}

/// The ground speed tape. A quarter of a knot to the pixel puts about 100 kt across it, so circuit
/// speeds and cruise both show useful movement.
pub fn speed_tape(layout: &Layout) -> (r: Tape)
    requires
        layout.wf(),
    ensures
        r.wf(),
        r == speed_tape_of(*layout),
{
    Tape {
        x: layout.content_x0,
        width: GS_TAPE_W,
        top: layout.status_bar_height,
        bottom: layout.footer_y0(),
        units_per_px: 250,
        major: 10_000,
        minor: 5_000,
        side: Side::Left,
    }
}

/// The altitude tape.
pub open spec fn altitude_tape_of(layout: Layout) -> Tape {
    Tape {
        x: (layout.content_x1 - ALT_TAPE_W - VSI_W) as i64,
        width: ALT_TAPE_W,
        top: layout.status_bar_height,
        bottom: (layout.height - layout.footer_height) as i64,
        units_per_px: 2_500,
        major: 100_000,
        minor: 20_000,
        side: Side::Right,
    }
}

/// The altitude tape: 2.5 ft to the pixel gives roughly 1000 ft across it.
pub fn altitude_tape(layout: &Layout) -> (r: Tape)
    requires
        layout.wf(),
    ensures
        r.wf(),
        r == altitude_tape_of(*layout),
{
    Tape {
        x: layout.content_x1 - ALT_TAPE_W - VSI_W,
        width: ALT_TAPE_W,
        top: layout.status_bar_height,
        bottom: layout.footer_y0(),
        units_per_px: 2_500,
        major: 100_000,
        minor: 20_000,
        side: Side::Right,
    }
}

/// The vertical-speed strip.
pub open spec fn vertical_strip_of(layout: Layout) -> Vsi {
    Vsi {
        x: (layout.content_x1 - VSI_W) as i64,
        width: VSI_W,
        top: layout.status_bar_height,
        bottom: (layout.height - layout.footer_height) as i64,
        full_scale: 2_000,
    }
}

/// The vertical-speed strip: 2000 ft a minute either way.
pub fn vertical_strip(layout: &Layout) -> (r: Vsi)
    requires
        layout.wf(),
    ensures
        r.wf(),
        r == vertical_strip_of(*layout),
{
    Vsi {
        x: layout.content_x1 - VSI_W,
        width: VSI_W,
        top: layout.status_bar_height,
        bottom: layout.footer_y0(),
        full_scale: 2_000,
    }
}

// --- the horizon ----------------------------------------------------------------------------

/// How far the horizon is pushed down the screen by a pitch.
pub open spec fn horizon_shift(half_height: int, pitch_mdeg: int) -> int {
    share(half_height, pitch_mdeg, 25_000)
}

/// How far the horizon is pushed down the screen by a pitch: nose-up pushes it down.
pub fn horizon_offset(instrument: &Instrument, pitch_mdeg: i32) -> (r: i64)
    requires
        instrument.wf(),
    ensures
        r == horizon_shift(instrument.half_height as int, pitch_mdeg as int),
{
    let (pitch, reach) = (pitch_mdeg as i64, instrument.half_height);
    assert(-2_147_483_648 * 4_000_000_000 <= reach * pitch <= 2_147_483_648 * 4_000_000_000)
        by (nonlinear_arith)
        requires
            -2_147_483_648 <= pitch <= 2_147_483_648,
            -4_000_000_000 <= reach <= 4_000_000_000,
    ;
    share_of(reach, pitch, 25_000)
}

/// One line of the pitch ladder.
#[derive(Debug, Clone, Copy, PartialEq, Eq, Structural)]
pub struct Rung {
    /// Degrees above the horizon; negative below.
    pub degrees: i64,
    /// Where it is, measured down from the horizon.
    pub y: i64,
    /// Half its length.
    pub half_length: i64,
    /// Longer, and labelled.
    pub major: bool,
}

/// The rung at a step of five degrees: a positive pitch reference sits above the horizon, and
/// screen y grows downward.
pub open spec fn rung_of(half_height: int, step: int) -> Rung {
    let degrees = 5 * step;
    let size = if degrees < 0 {
        -degrees
    } else {
        degrees
    };
    let away = size * half_height / 25;
    Rung {
        degrees: degrees as i64,
        y: (if degrees < 0 {
            away
        } else {
            -away
        }) as i64,
        half_length: (if degrees % 10 == 0 {
            half_height * 30 / 100
        } else {
            half_height * 15 / 100
        }) as i64,
        major: degrees % 10 == 0,
    }
}

/// How many lines the pitch ladder has: none where there is no height to spread them over.
pub open spec fn rungs_shown(half_height: int) -> int {
    if half_height < 0 {
        0
    } else {
        12
    }
}

/// The pitch ladder: a line every five degrees, from thirty below to thirty above, the horizon
/// itself left out.
pub fn pitch_ladder(instrument: &Instrument) -> (r: Vec<Rung>)
    requires
        instrument.wf(),
    ensures
        r@.len() == rungs_shown(instrument.half_height as int),
        forall|k: int|
            0 <= k < r@.len() && k < 6 ==> #[trigger] r@[k] == rung_of(
                instrument.half_height as int,
                k - 6,
            ),
        forall|k: int|
            6 <= k < r@.len() ==> #[trigger] r@[k] == rung_of(
                instrument.half_height as int,
                k - 5,
            ),
{
    let mut rungs: Vec<Rung> = Vec::new();
    let reach: i64 = instrument.half_height;
    if reach < 0 {
        return rungs;
    }
    let mut k: usize = 0;
    while k < 12
        invariant
            k <= 12,
            rungs@.len() == k,
            reach == instrument.half_height,
            0 <= reach <= 4 * LONGEST_SIDE,
            forall|j: int|
                0 <= j < 6 && j < k ==> #[trigger] rungs@[j] == rung_of(reach as int, j - 6),
            forall|j: int|
                6 <= j < k ==> #[trigger] rungs@[j] == rung_of(reach as int, j - 5),
        decreases 12 - k,
    {
        let step: i64 = if k < 6 {
            k as i64 - 6
        } else {
            k as i64 - 5
        };
        let degrees: i64 = 5 * step;
        let size: i64 = if degrees < 0 {
            -degrees
        } else {
            degrees
        };
        assert(0 <= size * reach <= 30 * 4_000_000_000) by (nonlinear_arith)
            requires
                0 <= size <= 30,
                0 <= reach <= 4_000_000_000,
        ;
        let away: i64 = size * reach / 25;
        let major: bool = size % 10 == 0;
        assert(major == (degrees % 10 == 0));
        rungs.push(
            Rung {
                degrees,
                y: if degrees < 0 {
                    away
                } else {
                    -away
                },
                half_length: if major {
                    reach * 30 / 100
                } else {
                    reach * 15 / 100
                },
                major,
            },
        );
        k = k + 1;
    }
    rungs
}

/// The colour of the roll pointer.
pub open spec fn roll_colour_of(roll_mdeg: int, theme: Theme) -> Color {
    if roll_mdeg > 30_000 || roll_mdeg < -30_000 {
        theme.caution
    } else {
        theme.text_primary
    }
}

/// The colour of the roll pointer: amber past thirty degrees, an unusual attitude for the light
/// aircraft this is fitted to.
pub fn roll_colour(roll_mdeg: i32, theme: &Theme) -> (r: Color)
    ensures
        r == roll_colour_of(roll_mdeg as int, *theme),
{
    if roll_mdeg > 30_000 || roll_mdeg < -30_000 {
        theme.caution
    } else {
        theme.text_primary
    }
}

/// How long a tick of the roll scale is, in per cent of the instrument's radius.
pub open spec fn tick_percent(degrees: int) -> int {
    if degrees == 30 || degrees == 60 {
        12
    } else {
        7
    }
}

/// How long a tick of the roll scale is, in per cent of the instrument's radius.
pub fn roll_tick_percent(degrees: i32) -> (r: i64)
    ensures
        r == tick_percent(degrees as int),
{
    if degrees == 30 || degrees == 60 {
        12
    } else {
        7
    }
}

/// How far the slip ball is from the middle of its cage.
pub open spec fn ball_offset(slip_mdeg: int, reach: int) -> int {
    if slip_mdeg >= 10_000 {
        reach
    } else if slip_mdeg <= -10_000 {
        -reach
    } else {
        share(reach, slip_mdeg, 10_000)
    }
}

/// How far the slip ball is from the middle of its cage: full deflection at ten degrees, clamped so
/// the ball stays in.
pub fn slip_offset(slip_mdeg: i32, reach: i64) -> (r: i64)
    requires
        -LONGEST_SIDE <= reach <= LONGEST_SIDE,
    ensures
        r == ball_offset(slip_mdeg as int, reach as int),
        reach >= 0 ==> -reach <= r <= reach,
        reach <= 0 ==> reach <= r <= -reach,
{
    if slip_mdeg >= 10_000 {
        return reach;
    }
    if slip_mdeg <= -10_000 {
        return -reach;
    }
    let slip: i64 = slip_mdeg as i64;
    assert(-10_000 * 1_000_000_000 <= reach * slip <= 10_000 * 1_000_000_000) by (nonlinear_arith)
        requires
            -10_000 <= slip <= 10_000,
            -1_000_000_000 <= reach <= 1_000_000_000,
    ;
    proof {
        if slip < 0 {
            assert(reach * slip == -(reach * (-slip))) by (nonlinear_arith);
            shares_are_parts(reach as int, -slip, 10_000);
        }
    }
    share_of(reach, slip, 10_000)
}

// --- heading and altitude ------------------------------------------------------------------

/// Which altitude source a reading came from.
///
/// The label follows the source rather than the other way round. Falling back from baro to GPS
/// under a fixed "ALT" caption would silently change what the number means.
#[derive(Debug, Clone, Copy, PartialEq, Eq, Structural)]
pub enum AltSource {
    Baro(i64),
    Gps(i64),
    Unknown,
}

/// The altitude to show, and where it came from.
pub open spec fn altitude_of(pressure_mft: Option<i64>, msl_mft: Option<i64>) -> AltSource {
    match (pressure_mft, msl_mft) {
        (Some(baro), _) => AltSource::Baro(baro),
        (None, Some(gps)) => AltSource::Gps(gps),
        (None, None) => AltSource::Unknown,
    }
}

/// The altitude to show, in thousandths of a foot, and where it came from. Baro wins when present:
/// it is what traffic reports, so it is the like-for-like number.
pub fn altitude_source(pressure_mft: Option<i64>, msl_mft: Option<i64>) -> (r: AltSource)
    ensures
        r == altitude_of(pressure_mft, msl_mft),
{
    match (pressure_mft, msl_mft) {
        (Some(baro), _) => AltSource::Baro(baro),
        (None, Some(gps)) => AltSource::Gps(gps),
        (None, None) => AltSource::Unknown,
    }
}

impl AltSource {
    /// What the altitude tape is captioned with.
    pub open spec fn name(self) -> Seq<char> {
        match self {
            AltSource::Baro(_) => "BARO FT"@,
            AltSource::Gps(_) => "GPS FT"@,
            AltSource::Unknown => "ALT FT"@,
        }
    }

    /// The altitude, if there is one.
    pub open spec fn height(self) -> Option<i64> {
        match self {
            AltSource::Baro(ft) => Some(ft),
            AltSource::Gps(ft) => Some(ft),
            AltSource::Unknown => None,
        }
    }

    /// What the altitude tape is captioned with.
    pub fn caption(self) -> (r: &'static str)
        ensures
            r@ == self.name(),
    {
        match self {
            AltSource::Baro(_) => "BARO FT",
            AltSource::Gps(_) => "GPS FT",
            AltSource::Unknown => "ALT FT",
        }
    }

    pub fn value(self) -> (r: Option<i64>)
        ensures
            r == self.height(),
    {
        match self {
            AltSource::Baro(ft) => Some(ft),
            AltSource::Gps(ft) => Some(ft),
            AltSource::Unknown => None,
        }
    }
}

/// Where a directional reading came from, and therefore what it actually means.
///
/// These are **not interchangeable**, which is why the caption changes with the source rather than
/// everything being labelled `HDG`:
///
/// * Magnetic heading is where the nose points, referenced to magnetic north.
/// * Gyro heading is where the nose points, but integrated and free to drift.
/// * GPS ground track is where the aircraft is *going*, which in any crosswind is a different
///   number.
#[derive(Debug, Clone, Copy, PartialEq, Eq, Structural)]
pub enum HeadingSource {
    Mag(i32),
    Gyro(i32),
    Track(i32),
    Unknown,
}

/// The direction to show, and where it came from.
pub open spec fn heading_of(ahrs: Ahrs, track_mdeg: Option<i32>) -> HeadingSource {
    match (ahrs.mag_heading_mdeg, ahrs.gyro_heading_mdeg, track_mdeg) {
        (Some(v), _, _) => HeadingSource::Mag(v),
        (None, Some(v), _) => HeadingSource::Gyro(v),
        (None, None, Some(v)) => HeadingSource::Track(v),
        (None, None, None) => HeadingSource::Unknown,
    }
}

/// The direction to show, and where it came from: a real heading outranks track when the sensor
/// supplies one.
pub fn heading_source(ahrs: &Ahrs, track_mdeg: Option<i32>) -> (r: HeadingSource)
    ensures
        r == heading_of(*ahrs, track_mdeg),
{
    match (ahrs.mag_heading_mdeg, ahrs.gyro_heading_mdeg, track_mdeg) {
        (Some(v), _, _) => HeadingSource::Mag(v),
        (None, Some(v), _) => HeadingSource::Gyro(v),
        (None, None, Some(v)) => HeadingSource::Track(v),
        (None, None, None) => HeadingSource::Unknown,
    }
}

/// A direction in whole degrees, in three figures, brought into one turn.
pub open spec fn direction_text(mdeg: int) -> Seq<char> {
    padded(nearest((mdeg % 360_000) as nat, 1000), 3) + seq![DEGREE]
}

/// Write a direction in whole degrees.
pub fn push_direction(out: &mut String, mdeg: i32)
    ensures
        final(out)@ == old(out)@ + direction_text(mdeg as int),
{
    let turned: i32 = mdeg % 360_000;
    let turned: i32 = if turned < 0 {
        turned + 360_000
    } else {
        turned
    };
    assert(turned == mdeg as int % 360_000);
    push_padded(out, nearest_of(turned as u64, 1000), 3);
    out.push(DEGREE);
    assert(out@ =~= old(out)@ + direction_text(mdeg as int));
}

impl HeadingSource {
    pub open spec fn name(self) -> Seq<char> {
        match self {
            HeadingSource::Mag(_) => "HDG mag"@,
            HeadingSource::Gyro(_) => "HDG gyro"@,
            HeadingSource::Track(_) => "TRK gps"@,
            HeadingSource::Unknown => "HDG"@,
        }
    }

    pub fn caption(self) -> (r: &'static str)
        ensures
            r@ == self.name(),
    {
        match self {
            HeadingSource::Mag(_) => "HDG mag",
            HeadingSource::Gyro(_) => "HDG gyro",
            HeadingSource::Track(_) => "TRK gps",
            HeadingSource::Unknown => "HDG",
        }
    }

    pub open spec fn written(self) -> Seq<char> {
        match self {
            HeadingSource::Mag(v) => direction_text(v as int),
            HeadingSource::Gyro(v) => direction_text(v as int),
            HeadingSource::Track(v) => direction_text(v as int),
            HeadingSource::Unknown => "---"@,
        }
    }

    pub fn text(self) -> (r: String)
        ensures
            r@ == self.written(),
    {
        let mut out: String = String::new();
        match self {
            HeadingSource::Mag(v) => push_direction(&mut out, v),
            HeadingSource::Gyro(v) => push_direction(&mut out, v),
            HeadingSource::Track(v) => push_direction(&mut out, v),
            HeadingSource::Unknown => out.append("---"),
        }
        assert(out@ =~= self.written());
        out
    }
}

// --- the picture ---------------------------------------------------------------------------

/// What is above the horizon, and what is below it.
pub open spec fn sky() -> Color {
    Color::of_bytes(33, 92, 168, 255)
}

pub open spec fn ground() -> Color {
    Color::of_bytes(102, 66, 33, 255)
}

/// The rung `k` of the ladder, lowest first.
pub open spec fn rung_at(half_height: int, k: int) -> Rung {
    if k < 6 {
        rung_of(half_height, k - 6)
    } else {
        rung_of(half_height, k - 5)
    }
}

/// Those of the first `n` rungs that are labelled, or those that are not.
pub open spec fn rung_marks(
    half_height: int,
    major: bool,
    n: int,
    colour: Color,
    width: int,
) -> Seq<Painted>
    decreases n,
{
    if n <= 0 {
        seq![]
    } else {
        let rung = rung_at(half_height, n - 1);
        rung_marks(half_height, major, n - 1, colour, width) + if rung.major == major {
            seq![
                stroke(
                    (-rung.half_length as int, rung.y as int),
                    (rung.half_length as int, rung.y as int),
                    colour,
                    width,
                ),
            ]
        } else {
            seq![]
        }
    }
}

fn put_rungs(out: &mut Vec<Mark>, rungs: &Vec<Rung>, reach: i64, major: bool, colour: Color, width: i64)
    requires
        -4 * LONGEST_SIDE <= reach <= 4 * LONGEST_SIDE,
        rungs@.len() == rungs_shown(reach as int),
        forall|k: int| 0 <= k < rungs@.len() ==> #[trigger] rungs@[k] == rung_at(reach as int, k),
    ensures
        drawn(final(out)@) == drawn(old(out)@) + rung_marks(
            reach as int,
            major,
            rungs_shown(reach as int),
            colour,
            width as int,
        ),
{
    let ghost was = drawn(out@);
    let mut k: usize = 0;
    assert(drawn(out@) =~= was + rung_marks(reach as int, major, 0, colour, width as int));
    while k < rungs.len()
        invariant
            k <= rungs@.len(),
            -4 * LONGEST_SIDE <= reach <= 4 * LONGEST_SIDE,
            rungs@.len() == rungs_shown(reach as int),
            forall|k: int|
                0 <= k < rungs@.len() ==> #[trigger] rungs@[k] == rung_at(reach as int, k),
            drawn(out@) == was + rung_marks(reach as int, major, k as int, colour, width as int),
        decreases rungs.len() - k,
    {
        let rung: Rung = rungs[k];
        assert(rung == rung_at(reach as int, k as int));
        if rung.major == major {
            put_line(out, (-rung.half_length, rung.y), (rung.half_length, rung.y), colour, width);
        }
        k = k + 1;
        assert(drawn(out@) =~= was + rung_marks(
            reach as int,
            major,
            k as int,
            colour,
            width as int,
        ));
    }
}

/// How the ladder is labelled.
pub open spec fn rung_style(theme: Theme) -> Style {
    Style {
        colour: theme.text_primary,
        size: theme.font_size_tag,
        align: Align::Center,
        baseline: Baseline::Middle,
    }
}

/// The labels at both ends of the labelled ones of the first `n` rungs.
pub open spec fn rung_labels(half_height: int, n: int, theme: Theme) -> Seq<Painted>
    decreases n,
{
    if n <= 0 {
        seq![]
    } else {
        let rung = rung_at(half_height, n - 1);
        let text = decimal(
            (if rung.degrees < 0 {
                -rung.degrees
            } else {
                rung.degrees as int
            }) as nat,
        );
        rung_labels(half_height, n - 1, theme) + if rung.major {
            seq![
                text_at(-rung.half_length - 14_000, rung.y as int, text, rung_style(theme)),
                text_at(rung.half_length + 14_000, rung.y as int, text, rung_style(theme)),
            ]
        } else {
            seq![]
        }
    }
}

fn put_rung_labels(out: &mut Vec<Mark>, rungs: &Vec<Rung>, reach: i64, theme: &Theme)
    requires
        -4 * LONGEST_SIDE <= reach <= 4 * LONGEST_SIDE,
        rungs@.len() == rungs_shown(reach as int),
        forall|k: int| 0 <= k < rungs@.len() ==> #[trigger] rungs@[k] == rung_at(reach as int, k),
    ensures
        drawn(final(out)@) == drawn(old(out)@) + rung_labels(
            reach as int,
            rungs_shown(reach as int),
            *theme,
        ),
{
    let ghost was = drawn(out@);
    let style: Style = Style::new(
        theme.text_primary,
        theme.font_size_tag,
        Align::Center,
        Baseline::Middle,
    );
    let mut k: usize = 0;
    assert(drawn(out@) =~= was + rung_labels(reach as int, 0, *theme));
    while k < rungs.len()
        invariant
            k <= rungs@.len(),
            -4 * LONGEST_SIDE <= reach <= 4 * LONGEST_SIDE,
            rungs@.len() == rungs_shown(reach as int),
            forall|k: int|
                0 <= k < rungs@.len() ==> #[trigger] rungs@[k] == rung_at(reach as int, k),
            style == rung_style(*theme),
            drawn(out@) == was + rung_labels(reach as int, k as int, *theme),
        decreases rungs.len() - k,
    {
        let rung: Rung = rungs[k];
        assert(rung == rung_at(reach as int, k as int));
        if rung.major {
            let size: i64 = if rung.degrees < 0 {
                -rung.degrees
            } else {
                rung.degrees
            };
            let mut text: String = String::new();
            push_decimal(&mut text, size as u64);
            assert(text@ =~= decimal(size as nat));
            put_text(out, -rung.half_length - 14_000, rung.y, text.as_str(), style);
            put_text(out, rung.half_length + 14_000, rung.y, text.as_str(), style);
        }
        k = k + 1;
        assert(drawn(out@) =~= was + rung_labels(reach as int, k as int, *theme));
    }
}

/// How far the sky and the ground reach: far enough to cover the area at any bank.
pub open spec fn horizon_span(area: Instrument, layout: Layout) -> int {
    2 * larger(layout.content_x1 - layout.content_x0, area.bottom - area.top)
}

/// Blue over brown filling the attitude area, turned against the bank and moved down by nose-up.
pub open spec fn horizon_marks(
    area: Instrument,
    pitch_mdeg: int,
    roll_mdeg: int,
    layout: Layout,
    theme: Theme,
) -> Seq<Painted> {
    let span = horizon_span(area, layout);
    let reach = area.half_height as int;
    seq![
        Painted::Clip {
            x: layout.content_x0 as int,
            y: area.top as int,
            w: layout.content_x1 - layout.content_x0,
            h: area.bottom - area.top,
        },
        Painted::Turn {
            at: (area.cx as int, area.cy as int),
            mdeg: -roll_mdeg,
            down: horizon_shift(reach, pitch_mdeg),
        },
        block(-span, -span, 2 * span, span, sky()),
        block(-span, 0, 2 * span, span, ground()),
        stroke((-span, 0), (span, 0), theme.text_primary, 2_000),
    ] + rung_marks(reach, false, rungs_shown(reach), theme.text_primary, 1_000) + rung_marks(
        reach,
        true,
        rungs_shown(reach),
        theme.text_primary,
        1_600,
    ) + rung_labels(reach, rungs_shown(reach), theme) + seq![Painted::Unturn, Painted::Unclip]
}

fn draw_horizon(
    area: &Instrument,
    pitch_mdeg: i32,
    roll_mdeg: i32,
    layout: &Layout,
    theme: &Theme,
) -> (r: Vec<Mark>)
    requires
        layout.wf(),
        theme.sizes_ok(),
        *area == instrument_of(*layout, *theme),
        area.wf(),
        -LONGEST_SIDE <= area.top <= LONGEST_SIDE,
        -LONGEST_SIDE <= area.bottom <= LONGEST_SIDE,
    ensures
        drawn(r@) == horizon_marks(*area, pitch_mdeg as int, roll_mdeg as int, *layout, *theme),
{
    let width: i64 = layout.content_width();
    let height: i64 = area.bottom - area.top;
    let mut out: Vec<Mark> = nothing();
    put(
        &mut out,
        Mark::Clip { area: Area { x: layout.content_x0, y: area.top, w: width, h: height } },
    );
    put(
        &mut out,
        Mark::Turn {
            at: (area.cx, area.cy),
            mdeg: -(roll_mdeg as i64),
            down: horizon_offset(area, pitch_mdeg),
        },
    );
    // Oversized so that the turned rectangles still cover the area.
    let span: i64 = 2 * larger_of(width, height);
    put_fill(&mut out, -span, -span, 2 * span, span, Color::rgb(33, 92, 168));
    put_fill(&mut out, -span, 0, 2 * span, span, Color::rgb(102, 66, 33));
    put_line(&mut out, (-span, 0), (span, 0), theme.text_primary, 2_000);
    let rungs: Vec<Rung> = pitch_ladder(area);
    assert forall|k: int| 0 <= k < rungs@.len() implies #[trigger] rungs@[k] == rung_at(
        area.half_height as int,
        k,
    ) by {}
    put_rungs(&mut out, &rungs, area.half_height, false, theme.text_primary, 1_000);
    put_rungs(&mut out, &rungs, area.half_height, true, theme.text_primary, 1_600);
    put_rung_labels(&mut out, &rungs, area.half_height, theme);
    put(&mut out, Mark::Unturn);
    put(&mut out, Mark::Unclip);
    assert(drawn(out@) =~= horizon_marks(
        *area,
        pitch_mdeg as int,
        roll_mdeg as int,
        *layout,
        *theme,
    ));
    out
}

/// One tick of the roll scale, this far round from straight up.
pub open spec fn roll_tick(area: Instrument, degrees: int, length: int, theme: Theme) -> Seq<
    Painted,
> {
    let reach = area.half_height as int;
    seq![
        Painted::Turn { at: (area.cx as int, area.cy as int), mdeg: degrees * 1000, down: 0 },
        stroke((0, -reach), (0, -(reach - length)), theme.text_secondary, 1_400),
        Painted::Unturn,
    ]
}

/// The ticks of the roll scale at the first `n` of its angles, either side.
pub open spec fn roll_ticks(area: Instrument, n: int, theme: Theme) -> Seq<Painted>
    decreases n,
{
    if n <= 0 {
        seq![]
    } else {
        let degrees = ROLL_TICKS[n - 1] as int;
        let length = share(area.half_height as int, tick_percent(degrees), 100);
        roll_ticks(area, n - 1, theme) + roll_tick(area, -degrees, length, theme) + roll_tick(
            area,
            degrees,
            length,
            theme,
        )
    }
}

/// The corners of the roll pointer as it stands with no bank.
pub open spec fn pointer_points(reach: int) -> Seq<(i64, i64)> {
    let (base, inner) = (share(reach, 55, 1000), reach - share(reach, 11, 100));
    seq![
        (0i64, (2_000 - reach) as i64),
        (base as i64, -inner as i64),
        (-base as i64, -inner as i64),
    ]
}

/// Fixed roll scale with a moving pointer at the top of the instrument.
pub open spec fn roll_marks(area: Instrument, roll_mdeg: int, theme: Theme) -> Seq<Painted> {
    roll_ticks(area, 5, theme) + seq![
        Painted::Turn { at: (area.cx as int, area.cy as int), mdeg: -roll_mdeg, down: 0 },
        Painted::Shape {
            points: pointer_points(area.half_height as int),
            colour: roll_colour_of(roll_mdeg, theme),
        },
        Painted::Unturn,
    ]
}

fn put_roll_tick(out: &mut Vec<Mark>, area: &Instrument, degrees: i32, length: i64, theme: &Theme)
    requires
        area.wf(),
        -360 <= degrees <= 360,
        -LONGEST_SIDE <= length <= LONGEST_SIDE,
    ensures
        drawn(final(out)@) == drawn(old(out)@) + roll_tick(
            *area,
            degrees as int,
            length as int,
            *theme,
        ),
{
    let ghost was = drawn(out@);
    let reach: i64 = area.half_height;
    put(out, Mark::Turn { at: (area.cx, area.cy), mdeg: degrees as i64 * 1000, down: 0 });
    put_line(out, (0, -reach), (0, -(reach - length)), theme.text_secondary, 1_400);
    put(out, Mark::Unturn);
    assert(drawn(out@) =~= was + roll_tick(*area, degrees as int, length as int, *theme));
}

fn draw_roll_scale(area: &Instrument, roll_mdeg: i32, theme: &Theme) -> (r: Vec<Mark>)
    requires
        area.wf(),
    ensures
        drawn(r@) == roll_marks(*area, roll_mdeg as int, *theme),
{
    let reach: i64 = area.half_height;
    let mut out: Vec<Mark> = nothing();
    let mut k: usize = 0;
    assert(drawn(out@) =~= roll_ticks(*area, 0, *theme));
    while k < 5
        invariant
            k <= 5,
            area.wf(),
            reach == area.half_height,
            drawn(out@) == roll_ticks(*area, k as int, *theme),
        decreases 5 - k,
    {
        let degrees: i32 = ROLL_TICKS[k];
        assert(0 <= degrees <= 60);
        let percent: i64 = roll_tick_percent(degrees);
        assert(-4_000_000_000 * 12 <= reach * percent <= 4_000_000_000 * 12) by (nonlinear_arith)
            requires
                -4_000_000_000 <= reach <= 4_000_000_000,
                0 <= percent <= 12,
        ;
        let length: i64 = share_of(reach, percent, 100);
        assert(-LONGEST_SIDE <= length <= LONGEST_SIDE) by {
            let (a, b) = (reach * percent, length as int);
            assert(a >= 0 ==> b == a / 100);
            assert(a < 0 ==> b == -((-a) / 100));
        }
        put_roll_tick(&mut out, area, -degrees, length, theme);
        put_roll_tick(&mut out, area, degrees, length, theme);
        k = k + 1;
        assert(drawn(out@) =~= roll_ticks(*area, k as int, *theme));
    }
    put(&mut out, Mark::Turn { at: (area.cx, area.cy), mdeg: -(roll_mdeg as i64), down: 0 });
    let base: i64 = share_of(reach, 55, 1000);
    let inner: i64 = reach - share_of(reach, 11, 100);
    let mut points: Vec<(i64, i64)> = Vec::new();
    points.push((0, 2_000 - reach));
    points.push((base, -inner));
    points.push((-base, -inner));
    assert(points@ =~= pointer_points(reach as int));
    put(&mut out, Mark::Shape { points, colour: roll_colour(roll_mdeg, theme) });
    put(&mut out, Mark::Unturn);
    assert(drawn(out@) =~= roll_marks(*area, roll_mdeg as int, *theme));
    out
}

/// The fixed aircraft reference: wings and a centre dot.
pub open spec fn aircraft_marks(area: Instrument, theme: Theme) -> Seq<Painted> {
    let (cx, cy) = (area.cx as int, area.cy as int);
    let half = area.half_height as int;
    let (wing, inner) = (share(half, 34, 100), share(half, 10, 100));
    seq![
        stroke((cx - wing, cy), (cx - inner, cy), theme.ownship, 3_000),
        stroke((cx + inner, cy), (cx + wing, cy), theme.ownship, 3_000),
        Painted::Disc { at: (cx, cy), radius: 3_000, colour: theme.ownship },
    ]
}

/// The slip/skid ball in its cage; without a reading, the cage alone.
pub open spec fn slip_marks(area: Instrument, slip_mdeg: Option<i32>, theme: Theme) -> Seq<Painted> {
    let (cx, half) = (area.cx as int, area.half_height as int);
    let (reach, ball) = (share(half, 22, 100), share(half, 45, 1000));
    let y = area.cy + share(half, 78, 100);
    let side = share(ball, 16, 10);
    seq![
        stroke((cx - reach, y - side), (cx - reach, y + side), theme.text_secondary, 1_500),
        stroke((cx + reach, y - side), (cx + reach, y + side), theme.text_secondary, 1_500),
    ] + match slip_mdeg {
        Some(slip) => seq![
            Painted::Disc {
                at: (cx + ball_offset(slip as int, reach), y),
                radius: ball,
                colour: theme.text_primary,
            },
        ],
        None => seq![],
    }
}

fn draw_symbols(area: &Instrument, slip_mdeg: Option<i32>, theme: &Theme) -> (r: Vec<Mark>)
    requires
        area.wf(),
    ensures
        drawn(r@) == aircraft_marks(*area, *theme) + slip_marks(*area, slip_mdeg, *theme),
{
    let (cx, cy, half) = (area.cx, area.cy, area.half_height);
    let wing: i64 = share_of(half, 34, 100);
    let inner: i64 = share_of(half, 10, 100);
    let mut out: Vec<Mark> = nothing();
    put_line(&mut out, (cx - wing, cy), (cx - inner, cy), theme.ownship, 3_000);
    put_line(&mut out, (cx + inner, cy), (cx + wing, cy), theme.ownship, 3_000);
    put(&mut out, Mark::Disc { at: (cx, cy), radius: 3_000, colour: theme.ownship });
    assert(drawn(out@) =~= aircraft_marks(*area, *theme));
    let reach: i64 = share_of(half, 22, 100);
    let y: i64 = cy + share_of(half, 78, 100);
    let ball: i64 = share_of(half, 45, 1000);
    let side: i64 = share_of(ball, 16, 10);
    put_line(&mut out, (cx - reach, y - side), (cx - reach, y + side), theme.text_secondary, 1_500);
    put_line(&mut out, (cx + reach, y - side), (cx + reach, y + side), theme.text_secondary, 1_500);
    if let Some(slip) = slip_mdeg {
        let at: (i64, i64) = (cx + slip_offset(slip, reach), y);
        put(&mut out, Mark::Disc { at, radius: ball, colour: theme.text_primary });
    }
    assert(drawn(out@) =~= aircraft_marks(*area, *theme) + slip_marks(
        *area,
        slip_mdeg,
        *theme,
    ));
    out
}

/// The failure flag: a crossed-out disc, what is wrong, and why.
pub open spec fn failure_marks(
    area: Instrument,
    failure: AhrsFailure,
    layout: Layout,
    theme: Theme,
) -> Seq<Painted> {
    let (cx, cy) = (area.cx as int, area.cy as int);
    let radius = smaller(area.half_height as int, layout.content_x1 - cx);
    let (d, apart) = (share(radius, 62, 100), share(radius, 22, 100));
    seq![
        Painted::Disc { at: (cx, cy), radius, colour: theme.background },
        Painted::Ring { at: (cx, cy), radius, colour: theme.warning, width: 2_000 },
        stroke((cx - d, cy - d), (cx + d, cy + d), theme.warning, 4_000),
        stroke((cx + d, cy - d), (cx - d, cy + d), theme.warning, 4_000),
        text_at(
            cx,
            cy - apart,
            failure.name(),
            Style {
                colour: theme.warning,
                size: theme.font_size_large,
                align: Align::Center,
                baseline: Baseline::Middle,
            },
        ),
        text_at(
            cx,
            cy + apart,
            failure.reason(),
            Style {
                colour: theme.text_secondary,
                size: theme.font_size_small,
                align: Align::Center,
                baseline: Baseline::Middle,
            },
        ),
    ]
}

fn draw_failure(
    area: &Instrument,
    failure: AhrsFailure,
    layout: &Layout,
    theme: &Theme,
) -> (r: Vec<Mark>)
    requires
        area.wf(),
        layout.wf(),
    ensures
        drawn(r@) == failure_marks(*area, failure, *layout, *theme),
{
    let (cx, cy) = (area.cx, area.cy);
    let radius: i64 = smaller_of(area.half_height, layout.content_x1 - cx);
    let mut out: Vec<Mark> = nothing();
    put(&mut out, Mark::Disc { at: (cx, cy), radius, colour: theme.background });
    put(&mut out, Mark::Ring { at: (cx, cy), radius, colour: theme.warning, width: 2_000 });
    // A big X across the instrument: the conventional "not to be used" mark, unmistakable at a
    // glance even without reading the text.
    let d: i64 = share_of(radius, 62, 100);
    put_line(&mut out, (cx - d, cy - d), (cx + d, cy + d), theme.warning, 4_000);
    put_line(&mut out, (cx + d, cy - d), (cx - d, cy + d), theme.warning, 4_000);
    let apart: i64 = share_of(radius, 22, 100);
    let style: Style = Style::new(
        theme.warning,
        theme.font_size_large,
        Align::Center,
        Baseline::Middle,
    );
    put_text(&mut out, cx, cy - apart, failure.label(), style);
    let style: Style = Style::new(
        theme.text_secondary,
        theme.font_size_small,
        Align::Center,
        Baseline::Middle,
    );
    put_text(&mut out, cx, cy + apart, failure.detail(), style);
    assert(drawn(out@) =~= failure_marks(*area, failure, *layout, *theme));
    out
}

/// Heading or track, in a box under the attitude.
pub open spec fn heading_marks(
    area: Instrument,
    source: HeadingSource,
    layout: Layout,
    theme: Theme,
) -> Seq<Painted> {
    let cx = area.cx as int;
    let cy = share(area.bottom + layout.height - layout.footer_height, 1, 2);
    let (w, h) = (theme.font_size_large * 5, theme.font_size_large * 3 / 2);
    seq![
        block(cx - w / 2, cy - h / 2, w, h, readout_fill()),
        Painted::Frame {
            x: cx - w / 2,
            y: cy - h / 2,
            w,
            h,
            corner: 0,
            colour: theme.text_primary,
            width: 1_400,
        },
        text_at(
            cx,
            cy,
            source.written(),
            Style {
                colour: theme.text_primary,
                size: theme.font_size_large,
                align: Align::Center,
                baseline: Baseline::Middle,
            },
        ),
    ]
}

fn draw_heading(
    area: &Instrument,
    source: HeadingSource,
    layout: &Layout,
    theme: &Theme,
) -> (r: Vec<Mark>)
    requires
        area.wf(),
        layout.wf(),
        theme.sizes_ok(),
        -LONGEST_SIDE <= area.bottom <= LONGEST_SIDE,
    ensures
        drawn(r@) == heading_marks(*area, source, *layout, *theme),
{
    let cx: i64 = area.cx;
    let cy: i64 = share_of(area.bottom + layout.footer_y0(), 1, 2);
    let w: i64 = theme.font_size_large * 5;
    let h: i64 = theme.font_size_large * 3 / 2;
    let mut out: Vec<Mark> = nothing();
    put_fill(&mut out, cx - w / 2, cy - h / 2, w, h, Color::rgba(0, 0, 0, 235));
    put(
        &mut out,
        Mark::Frame {
            area: Area { x: cx - w / 2, y: cy - h / 2, w, h },
            corner: 0,
            colour: theme.text_primary,
            width: 1_400,
        },
    );
    let style: Style = Style::new(
        theme.text_primary,
        theme.font_size_large,
        Align::Center,
        Baseline::Middle,
    );
    let text: String = source.text();
    put_text(&mut out, cx, cy, text.as_str(), style);
    assert(drawn(out@) =~= heading_marks(*area, source, *layout, *theme));
    out
}

/// The standing reminder, on a field of its own: the pitch ladder leaves no corner of the attitude
/// area that is reliably empty.
pub open spec fn reminder_marks(
    area: Instrument,
    width: int,
    layout: Layout,
    theme: Theme,
) -> Seq<Painted> {
    let (x, y) = (layout.content_x0 + GS_TAPE_W + 8_000, area.bottom - 5_000);
    let height = theme.font_size_tag * 135 / 100;
    seq![
        block(x - 4_000, y - height, width + 8_000, height + 2_000, theme.target_outline),
        text_at(
            x,
            y,
            BANNER@,
            Style {
                colour: theme.caution,
                size: theme.font_size_tag,
                align: Align::Left,
                baseline: Baseline::Bottom,
            },
        ),
    ]
}

fn draw_banner(area: &Instrument, width: i64, layout: &Layout, theme: &Theme) -> (r: Vec<Mark>)
    requires
        layout.wf(),
        theme.sizes_ok(),
        0 <= width <= LONGEST_SIDE,
        -LONGEST_SIDE <= area.bottom <= LONGEST_SIDE,
    ensures
        drawn(r@) == reminder_marks(*area, width as int, *layout, *theme),
{
    let x: i64 = layout.content_x0 + GS_TAPE_W + 8_000;
    let y: i64 = area.bottom - 5_000;
    let height: i64 = theme.font_size_tag * 135 / 100;
    let mut out: Vec<Mark> = nothing();
    put_fill(
        &mut out,
        x - 4_000,
        y - height,
        width + 8_000,
        height + 2_000,
        theme.target_outline,
    );
    let style: Style = Style::new(
        theme.caution,
        theme.font_size_tag,
        Align::Left,
        Baseline::Bottom,
    );
    put_text(&mut out, x, y, BANNER, style);
    assert(drawn(out@) =~= reminder_marks(*area, width as int, *layout, *theme));
    out
}

/// What this page shows besides the attitude.
#[derive(Debug, Clone, Copy, PartialEq, Eq, Structural)]
pub struct FlightData {
    pub ground_speed_mkt: Option<i64>,
    pub pressure_altitude_mft: Option<i64>,
    pub altitude_msl_mft: Option<i64>,
    pub vertical_speed_mfpm: Option<i64>,
    pub track_mdeg: Option<i32>,
}

/// Whether a value is one a tape can show.
pub open spec fn showable(value: Option<i64>) -> bool {
    value matches Some(value) ==> -LARGEST_VALUE <= value <= LARGEST_VALUE
}

impl FlightData {
    pub open spec fn wf(self) -> bool {
        &&& showable(self.ground_speed_mkt)
        &&& showable(self.pressure_altitude_mft)
        &&& showable(self.altitude_msl_mft)
        &&& showable(self.vertical_speed_mfpm)
    }
}

/// The tapes.
pub open spec fn tapes_marks(data: FlightData, layout: Layout, theme: Theme) -> Seq<Painted> {
    let altitude = altitude_of(data.pressure_altitude_mft, data.altitude_msl_mft);
    tape_marks(speed_tape_of(layout), "GS KT"@, known(data.ground_speed_mkt), theme) + tape_marks(
        altitude_tape_of(layout),
        altitude.name(),
        known(altitude.height()),
        theme,
    ) + vsi_marks(vertical_strip_of(layout), known(data.vertical_speed_mfpm), theme)
}

/// The tapes are driven by the GPS and the pressure sensor, not by the attitude sensor, so they keep
/// working when the attitude fails.
fn draw_tapes(data: &FlightData, layout: &Layout, theme: &Theme) -> (r: Vec<Mark>)
    requires
        data.wf(),
        layout.wf(),
        theme.sizes_ok(),
    ensures
        drawn(r@) == tapes_marks(*data, *layout, *theme),
{
    let mut out: Vec<Mark> = draw_tape(&speed_tape(layout), "GS KT", data.ground_speed_mkt, theme);
    let altitude: AltSource = altitude_source(data.pressure_altitude_mft, data.altitude_msl_mft);
    put_all(
        &mut out,
        draw_tape(&altitude_tape(layout), altitude.caption(), altitude.value(), theme),
    );
    put_all(&mut out, draw_vsi(&vertical_strip(layout), data.vertical_speed_mfpm, theme));
    assert(drawn(out@) =~= tapes_marks(*data, *layout, *theme));
    out
}

/// The attitude, or the failure flag in its place.
pub open spec fn attitude_marks(ahrs: Ahrs, now: u64, layout: Layout, theme: Theme) -> Seq<Painted> {
    let area = instrument_of(layout, theme);
    match shown(ahrs, now as int) {
        AhrsRender::Failed(failure) => failure_marks(area, failure, layout, theme),
        AhrsRender::Attitude => horizon_marks(
            area,
            ahrs.pitch_mdeg->0 as int,
            ahrs.roll_mdeg->0 as int,
            layout,
            theme,
        ) + roll_marks(area, ahrs.roll_mdeg->0 as int, theme) + aircraft_marks(area, theme)
            + slip_marks(area, ahrs.slip_skid_mdeg, theme),
    }
}

/// The page: the attitude or the failure flag, the tapes over it, the heading under it, and the
/// standing reminder. Also what was decided. `banner_width` is how wide the reminder is.
pub fn draw(
    ahrs: &Ahrs,
    data: &FlightData,
    banner_width: i64,
    now: u64,
    layout: &Layout,
    theme: &Theme,
) -> (r: (Vec<Mark>, AhrsRender))
    requires
        data.wf(),
        layout.wf(),
        theme.sizes_ok(),
        0 <= banner_width <= LONGEST_SIDE,
    ensures
        r.1 == shown(*ahrs, now as int),
        drawn(r.0@) == attitude_marks(*ahrs, now, *layout, *theme) + tapes_marks(
            *data,
            *layout,
            *theme,
        ) + heading_marks(
            instrument_of(*layout, *theme),
            heading_of(*ahrs, data.track_mdeg),
            *layout,
            *theme,
        ) + reminder_marks(
            instrument_of(*layout, *theme),
            banner_width as int,
            *layout,
            *theme,
        ),
{
    let area: Instrument = instrument(layout, theme);
    let decision: AhrsRender = classify(ahrs, now);
    let mut out: Vec<Mark> = nothing();
    match decision {
        AhrsRender::Failed(failure) => put_all(
            &mut out,
            draw_failure(&area, failure, layout, theme),
        ),
        AhrsRender::Attitude => {
            if let (Some(pitch), Some(roll)) = (ahrs.pitch_mdeg, ahrs.roll_mdeg) {
                put_all(&mut out, draw_horizon(&area, pitch, roll, layout, theme));
                put_all(&mut out, draw_roll_scale(&area, roll, theme));
                put_all(&mut out, draw_symbols(&area, ahrs.slip_skid_mdeg, theme));
            }
        },
    }
    assert(drawn(out@) =~= attitude_marks(*ahrs, now, *layout, *theme));
    put_all(&mut out, draw_tapes(data, layout, theme));
    let source: HeadingSource = heading_source(ahrs, data.track_mdeg);
    put_all(&mut out, draw_heading(&area, source, layout, theme));
    put_all(&mut out, draw_banner(&area, banner_width, layout, theme));
    (out, decision)
}

// --- laws ----------------------------------------------------------------------------------

/// No horizon without a live reading: an attitude is shown only when the module is present, both
/// angles are there, and they are at most a second old.
pub proof fn no_horizon_without_a_live_reading(ahrs: Ahrs, now: int)
    requires
        shown(ahrs, now) == AhrsRender::Attitude,
    ensures
        ahrs.status != 0,
        ahrs.pitch_mdeg is Some,
        ahrs.roll_mdeg is Some,
        ahrs.received matches Some(received) && now <= received + STALE_AFTER,
{
}

/// Without a live reading there is nothing on the glass that could be taken for a horizon: no turned
/// picture, no sky and no ground, only the failure flag with its name and its reason.
pub proof fn a_failed_attitude_paints_no_horizon(ahrs: Ahrs, now: u64, layout: Layout, theme: Theme)
    requires
        shown(ahrs, now as int) is Failed,
    ensures
        forall|k: int|
            0 <= k < attitude_marks(ahrs, now, layout, theme).len() ==> !((
            #[trigger] attitude_marks(ahrs, now, layout, theme)[k]) is Turn) && !(attitude_marks(
                ahrs,
                now,
                layout,
                theme,
            )[k] is Fill),
        exists|k: int|
            0 <= k < attitude_marks(ahrs, now, layout, theme).len() && (#[trigger] attitude_marks(
                ahrs,
                now,
                layout,
                theme,
            )[k] matches Painted::Text { text, .. } && text == shown(
                ahrs,
                now as int,
            )->Failed_0.name()),
        exists|k: int|
            0 <= k < attitude_marks(ahrs, now, layout, theme).len() && (#[trigger] attitude_marks(
                ahrs,
                now,
                layout,
                theme,
            )[k] matches Painted::Text { text, .. } && text == shown(
                ahrs,
                now as int,
            )->Failed_0.reason()),
{
    let marks = attitude_marks(ahrs, now, layout, theme);
    assert(marks.len() == 6);
    assert(marks[0] is Disc && marks[1] is Ring && marks[2] is Line && marks[3] is Line);
    assert(marks[4] is Text && marks[5] is Text);
}

/// A reading that stops arriving is flagged from then on.
pub proof fn a_stale_horizon_stays_flagged(ahrs: Ahrs, now: int, later: int)
    requires
        now <= later,
        shown(ahrs, now) != AhrsRender::Attitude,
    ensures
        shown(ahrs, later) != AhrsRender::Attitude,
{
}

/// The ladder is symmetric: every line above the horizon has one as far below.
pub proof fn the_ladder_is_symmetric(half_height: int, step: int)
    requires
        0 <= half_height <= 4 * LONGEST_SIDE,
        1 <= step <= 6,
    ensures
        rung_of(half_height, -step).y == -rung_of(half_height, step).y,
        rung_of(half_height, step).y <= 0,
        rung_of(half_height, -step).half_length == rung_of(half_height, step).half_length,
{
    assert(0 <= 5 * step * half_height <= 30 * 4_000_000_000) by (nonlinear_arith)
        requires
            0 <= half_height <= 4_000_000_000,
            1 <= step <= 6,
    ;
}

/// Nose-up pushes the horizon down and nose-down pushes it up, by as much.
pub proof fn the_horizon_moves_opposite(half_height: int, pitch_mdeg: int)
    ensures
        horizon_shift(half_height, -pitch_mdeg) == -horizon_shift(half_height, pitch_mdeg),
        half_height >= 0 && pitch_mdeg >= 0 ==> horizon_shift(half_height, pitch_mdeg) >= 0,
        horizon_shift(half_height, 0) == 0,
{
    assert(half_height * (-pitch_mdeg) == -(half_height * pitch_mdeg)) by (nonlinear_arith);
    assert(half_height >= 0 && pitch_mdeg >= 0 ==> half_height * pitch_mdeg >= 0)
        by (nonlinear_arith);
    assert(half_height * 0 == 0);
}

/// A horizon is shown of a live reading and of nothing else: a module that reports both pitch and roll,
/// heard from within the last second. Without them there is no data, and past that it is stale.
pub proof fn only_a_live_reading_is_shown(ahrs: Ahrs, now: int)
    ensures
        ({
            let reports = ahrs.status != 0 && ahrs.pitch_mdeg is Some && ahrs.roll_mdeg is Some;
            let recent = ahrs.received is Some && now - ahrs.received->0 <= 1_000_000_000;
            &&& shown(ahrs, now) == AhrsRender::Attitude <==> reports && recent
            &&& shown(ahrs, now) == AhrsRender::Failed(AhrsFailure::NoData) <==> !reports
            &&& shown(ahrs, now) == AhrsRender::Failed(AhrsFailure::Stale) <==> reports && !recent
        }),
{
}

/// Blue is above the horizon and brown is below it. Whenever an attitude is shown, what is filled above
/// the horizon line, before the picture is turned, is blue, what is filled below it is brown, and both
/// reach as far as the page does whichever way it is turned.
pub proof fn the_sky_is_above_the_ground(ahrs: Ahrs, now: u64, layout: Layout, theme: Theme)
    requires
        layout.wf(),
        0 <= theme.font_size_large <= LONGEST_SIDE,
        shown(ahrs, now as int) == AhrsRender::Attitude,
    ensures
        ({
            let marks = attitude_marks(ahrs, now, layout, theme);
            let (above, below, line) = (marks[2], marks[3], marks[4]);
            let (wide, high) = (
                layout.content_x1 - layout.content_x0,
                layout.height - layout.footer_height - theme.font_size_large * 17 / 10
                    - layout.status_bar_height,
            );
            &&& marks.len() > 5
            &&& above is Fill && below is Fill && line is Line
            &&& above->Fill_colour == (Color { r: 3_300, g: 9_200, b: 16_800, a: 25_500 })
            &&& below->Fill_colour == (Color { r: 10_200, g: 6_600, b: 3_300, a: 25_500 })
            &&& above->Fill_y + above->Fill_h == 0
            &&& below->Fill_y == 0
            &&& above->Fill_h > 0 && below->Fill_h == above->Fill_h
            &&& above->Fill_h >= 2 * wide && above->Fill_h >= 2 * high
            &&& above->Fill_h == 2 * wide || above->Fill_h == 2 * high
            &&& above->Fill_x == -above->Fill_h && above->Fill_w == 2 * above->Fill_h
            &&& below->Fill_x == above->Fill_x && below->Fill_w == above->Fill_w
            &&& line->from == (above->Fill_x, 0int) && line->to == (-above->Fill_x, 0int)
            &&& line->Line_colour == theme.text_primary
            &&& marks[0] is Clip && marks[0]->Clip_y == layout.status_bar_height
                && marks[0]->Clip_h == high && marks[0]->Clip_x == layout.content_x0
                && marks[0]->Clip_w == wide
        }),
{
    let area = instrument_of(layout, theme);
    let whole = horizon_marks(
        area,
        ahrs.pitch_mdeg->0 as int,
        ahrs.roll_mdeg->0 as int,
        layout,
        theme,
    );
    assert(attitude_marks(ahrs, now, layout, theme).take(whole.len() as int) =~= whole);
    let marks = attitude_marks(ahrs, now, layout, theme);
    assert(marks[0] == whole[0] && marks[1] == whole[1] && marks[2] == whole[2] && marks[3]
        == whole[3] && marks[4] == whole[4]);
}

/// The picture is turned against the roll, and moved down by the pitch at a rate that takes twenty-five
/// degrees from the middle of the instrument to its edge. Level, it is neither turned nor moved.
pub proof fn the_horizon_follows_pitch_and_roll(ahrs: Ahrs, now: u64, layout: Layout, theme: Theme)
    requires
        layout.wf(),
        shown(ahrs, now as int) == AhrsRender::Attitude,
    ensures
        ({
            let marks = attitude_marks(ahrs, now, layout, theme);
            let (pitch, roll) = (ahrs.pitch_mdeg->0 as int, ahrs.roll_mdeg->0 as int);
            let area = instrument_of(layout, theme);
            let half = area.half_height as int;
            &&& marks[1] is Turn
            &&& marks[1]->Turn_at == (area.cx as int, area.cy as int)
            &&& marks[1]->mdeg == -roll
            &&& -25_000 < half * pitch - 25_000 * marks[1]->down < 25_000
            &&& pitch == 0 ==> marks[1]->down == 0
            &&& pitch > 0 && half >= 0 ==> marks[1]->down >= 0
            &&& pitch == 25_000 ==> marks[1]->down == half
        }),
{
    let area = instrument_of(layout, theme);
    let (pitch, roll) = (ahrs.pitch_mdeg->0 as int, ahrs.roll_mdeg->0 as int);
    let whole = horizon_marks(area, pitch, roll, layout, theme);
    let marks = attitude_marks(ahrs, now, layout, theme);
    assert(marks[1] == whole[1]);
    shares_are_near(area.half_height as int, pitch, 25_000);
    assert(area.half_height * 0 == 0);
    let half = area.half_height as int;
    assert(pitch > 0 && half >= 0 ==> half * pitch >= 0) by (nonlinear_arith);
}

/// The instrument is the middle of what the bars and the heading leave: as far from its top as from its
/// bottom, and half way across.
pub proof fn the_instrument_is_in_the_middle(layout: Layout, theme: Theme)
    requires
        layout.wf(),
        0 <= theme.font_size_large <= LONGEST_SIDE,
    ensures
        ({
            let area = instrument_of(layout, theme);
            &&& area.top == layout.status_bar_height
            &&& 10 * (layout.height - layout.footer_height - area.bottom) <= 17
                * theme.font_size_large < 10 * (layout.height - layout.footer_height - area.bottom)
                + 10
            &&& -2 < 2 * area.cy - (area.top + area.bottom) < 2
            &&& -2 < 2 * area.half_height - (area.bottom - area.top) < 2
            &&& 0 <= layout.content_x0 + layout.content_x1 - 2 * area.cx < 2
        }),
{
    let area = instrument_of(layout, theme);
    shares_are_near(area.top + area.bottom, 1, 2);
    shares_are_near(area.bottom - area.top, 1, 2);
}

/// A line of the ladder says where the nose is: with the nose at its degrees, it lies across the middle
/// of the instrument. Every other line is ten degrees, twice as long as those between.
pub proof fn the_ladder_says_where_the_nose_is(half_height: int, step: int)
    requires
        0 <= half_height <= 4 * LONGEST_SIDE,
        -6 <= step <= 6,
    ensures
        ({
            let rung = rung_of(half_height, step);
            &&& rung.degrees == 5 * step
            &&& horizon_shift(half_height, rung.degrees * 1000) + rung.y == 0
            &&& rung.major <==> rung.degrees % 10 == 0
            &&& rung.major ==> 100 * rung.half_length <= 30 * half_height < 100 * rung.half_length
                + 100
            &&& !rung.major ==> 100 * rung.half_length <= 15 * half_height < 100 * rung.half_length
                + 100
        }),
{
    let n = half_height * (5000 * step);
    let size = if step < 0 {
        -5 * step
    } else {
        5 * step
    };
    assert(0 <= size * half_height <= 30 * half_height) by (nonlinear_arith)
        requires
            0 <= size <= 30,
            0 <= half_height,
    ;
    assert(step >= 0 ==> half_height * (5000 * step) == 1000 * (size * half_height))
        by (nonlinear_arith)
        requires
            step >= 0 ==> size == 5 * step,
    ;
    assert(step < 0 ==> half_height * (5000 * step) == -1000 * (size * half_height))
        by (nonlinear_arith)
        requires
            step < 0 ==> size == -5 * step,
    ;
    let away = size * half_height;
    assert(1000 * away / 25_000 == away / 25);
}

/// Which lines the ladder has: six above the horizon and six below, five degrees apart, none of them
/// the horizon itself.
pub proof fn the_ladder_has_twelve_lines(half_height: int, k: int)
    requires
        0 <= k < 12,
        half_height >= 0,
    ensures
        rungs_shown(half_height) == 12,
        k < 6 ==> rung_at(half_height, k).degrees == 5 * (k - 6),
        k >= 6 ==> rung_at(half_height, k).degrees == 5 * (k - 5),
{
}

/// The ten-degree lines are numbered at both ends with their degrees, at their own height.
pub proof fn the_ladder_is_numbered(half_height: int, theme: Theme)
    requires
        0 <= half_height <= 4 * LONGEST_SIDE,
    ensures
        ({
            let labels = rung_labels(half_height, 12, theme);
            &&& labels.len() == 12
            &&& forall|i: int|
                0 <= i < 6 ==> {
                    let degrees: int = if i < 3 {
                        10 * (i - 3)
                    } else {
                        10 * (i - 2)
                    };
                    let size = if i < 3 {
                        -degrees
                    } else {
                        degrees
                    };
                    let (left, right) = (#[trigger] labels[2 * i], labels[2 * i + 1]);
                    &&& left is Text && right is Text
                    &&& left->text == decimal(size as nat) && right->text == decimal(size as nat)
                    &&& left->Text_y == rung_of(half_height, degrees / 5).y
                    &&& right->Text_y == rung_of(half_height, degrees / 5).y
                    &&& left->Text_x < 0 && right->Text_x == -left->Text_x
                }
        }),
{
    reveal_with_fuel(rung_labels, 13);
    let labels = rung_labels(half_height, 12, theme);
    assert forall|i: int| 0 <= i < 6 implies {
        let degrees: int = if i < 3 {
            10 * (i - 3)
        } else {
            10 * (i - 2)
        };
        let size = if i < 3 {
            -degrees
        } else {
            degrees
        };
        let (left, right) = (#[trigger] labels[2 * i], labels[2 * i + 1]);
        &&& left is Text && right is Text
        &&& left->text == decimal(size as nat) && right->text == decimal(size as nat)
        &&& left->Text_y == rung_of(half_height, degrees / 5).y
        &&& right->Text_y == rung_of(half_height, degrees / 5).y
        &&& left->Text_x < 0 && right->Text_x == -left->Text_x
    } by {
        if i == 0 {
        } else if i == 1 {
        } else if i == 2 {
        } else if i == 3 {
        } else if i == 4 {
        } else {
        }
    }
}

/// The roll scale has a tick at ten, twenty, thirty, forty-five and sixty degrees on either side,
/// straight in from the edge, the longer ones at thirty and sixty.
pub proof fn the_roll_scale_is_marked(area: Instrument, theme: Theme, k: int)
    requires
        0 <= k < 5,
        100 <= area.half_height,
    ensures
        ({
            let marks = roll_ticks(area, 5, theme);
            let (left, right) = (marks[6 * k], marks[6 * k + 3]);
            let (one, other) = (marks[6 * k + 1], marks[6 * k + 4]);
            let degrees: int = if k == 0 {
                10
            } else if k == 1 {
                20
            } else if k == 2 {
                30
            } else if k == 3 {
                45
            } else {
                60
            };
            let percent: int = if degrees == 30 || degrees == 60 {
                12
            } else {
                7
            };
            let reach = area.half_height as int;
            &&& marks.len() == 30
            &&& left is Turn && left->mdeg == -1000 * degrees && left->down == 0
            &&& right is Turn && right->mdeg == 1000 * degrees && right->down == 0
            &&& left->Turn_at == (area.cx as int, area.cy as int)
            &&& right->Turn_at == left->Turn_at
            &&& one is Line && one->from == (0int, -reach) && one->to.0 == 0
            &&& percent * reach - 100 < 100 * (one->to.1 + reach) <= percent * reach
            &&& other == one
            &&& marks[6 * k + 2] == Painted::Unturn && marks[6 * k + 5] == Painted::Unturn
        }),
{
    reveal_with_fuel(roll_ticks, 6);
    let reach = area.half_height as int;
    shares_are_near(reach, 12, 100);
    shares_are_near(reach, 7, 100);
    assert(ROLL_TICKS[0] == 10 && ROLL_TICKS[1] == 20 && ROLL_TICKS[2] == 30 && ROLL_TICKS[3] == 45
        && ROLL_TICKS[4] == 60);
}

/// The roll pointer is turned with the horizon, its tip outermost and straight up before that, and
/// turns amber past thirty degrees either way.
pub proof fn the_roll_pointer_turns_with_the_horizon(area: Instrument, roll_mdeg: int, theme: Theme)
    requires
        20_000 <= area.half_height <= 4 * LONGEST_SIDE,
    ensures
        ({
            let marks = roll_marks(area, roll_mdeg, theme);
            let points = marks[31]->Shape_points;
            &&& marks.len() == 33
            &&& marks[30] is Turn && marks[30]->mdeg == -roll_mdeg && marks[30]->down == 0
            &&& marks[30]->Turn_at == (area.cx as int, area.cy as int)
            &&& marks[31] is Shape && points.len() == 3
            &&& points[0].0 == 0 && points[1].0 == -points[2].0 && points[1].1 == points[2].1
            &&& -area.half_height < points[0].1 < points[1].1 < 0
            &&& -30_000 <= roll_mdeg <= 30_000 ==> marks[31]->Shape_colour == theme.text_primary
            &&& roll_mdeg > 30_000 || roll_mdeg < -30_000 ==> marks[31]->Shape_colour
                == theme.caution
            &&& marks[32] == Painted::Unturn
        }),
{
    reveal_with_fuel(roll_ticks, 6);
    let reach = area.half_height as int;
    shares_are_parts(reach, 55, 1000);
    shares_are_near(reach, 11, 100);
    assert(roll_ticks(area, 5, theme).len() == 30);
}

/// The aircraft stands in the middle of the instrument and never moves: a dot with a wing as long on
/// either side, in own-ship's colour.
pub proof fn the_aircraft_stands_still(area: Instrument, theme: Theme)
    requires
        100 <= area.half_height <= 4 * LONGEST_SIDE,
    ensures
        ({
            let marks = aircraft_marks(area, theme);
            let (cx, cy) = (area.cx as int, area.cy as int);
            &&& marks.len() == 3
            &&& marks[2] is Disc && marks[2]->Disc_at == (cx, cy)
            &&& marks[0]->from.1 == cy && marks[0]->to.1 == cy && marks[1]->from.1 == cy
                && marks[1]->to.1 == cy
            &&& marks[0]->from.0 < marks[0]->to.0 < cx < marks[1]->from.0 < marks[1]->to.0
            &&& cx - marks[0]->from.0 == marks[1]->to.0 - cx
            &&& cx - marks[0]->to.0 == marks[1]->from.0 - cx
            &&& marks[0]->Line_colour == theme.ownship && marks[1]->Line_colour == theme.ownship
            &&& marks[2]->Disc_colour == theme.ownship
            &&& 34 * area.half_height - 100 < 100 * (marks[1]->to.0 - cx) <= 34 * area.half_height
            &&& 10 * area.half_height - 100 < 100 * (marks[1]->from.0 - cx) <= 10
                * area.half_height
        }),
{
    let half = area.half_height as int;
    shares_are_near(half, 34, 100);
    shares_are_near(half, 10, 100);
}

/// The ball goes to the side of the slip: to the right of the middle for a slip to the right, to the
/// left for one to the left, in the middle for none, and to the post at ten degrees and past it. With no
/// reading there is no ball, only the posts.
pub proof fn the_ball_goes_to_the_side_of_the_slip(
    area: Instrument,
    slip_mdeg: Option<i32>,
    theme: Theme,
)
    requires
        100 <= area.half_height <= 4 * LONGEST_SIDE,
    ensures
        ({
            let marks = slip_marks(area, slip_mdeg, theme);
            let cx = area.cx as int;
            let (left, right) = (marks[0]->from.0, marks[1]->from.0);
            let ball = marks[2]->Disc_at;
            &&& left < cx < right && cx - left == right - cx
            &&& marks[0]->to.0 == left && marks[1]->to.0 == right
            &&& slip_mdeg is None ==> marks.len() == 2
            &&& slip_mdeg matches Some(slip) ==> {
                &&& marks.len() == 3 && marks[2] is Disc
                &&& left <= ball.0 <= right
                &&& slip >= 10_000 ==> ball.0 == right
                &&& slip <= -10_000 ==> ball.0 == left
                &&& slip == 0 ==> ball.0 == cx
                &&& slip > 0 ==> ball.0 >= cx
                &&& slip < 0 ==> ball.0 <= cx
                &&& -10_000 <= slip <= 10_000 ==> -10_000 < (right - cx) * slip - 10_000 * (ball.0
                    - cx) < 10_000
                &&& marks[0]->from.1 + marks[0]->to.1 == 2 * ball.1
                &&& ball.1 > area.cy
            }
        }),
{
    let half = area.half_height as int;
    shares_are_near(half, 22, 100);
    shares_are_near(half, 78, 100);
    let reach = share(half, 22, 100);
    if let Some(slip) = slip_mdeg {
        let s = slip as int;
        shares_are_near(reach, s, 10_000);
        let marks = slip_marks(area, slip_mdeg, theme);
        assert(s >= 0 ==> reach * s >= 0) by (nonlinear_arith)
            requires
                reach >= 0,
        ;
        assert(s <= 0 ==> reach * s <= 0) by (nonlinear_arith)
            requires
                reach >= 0,
        ;
        assert(-10_000 <= s <= 10_000 ==> -10_000 * reach <= reach * s <= 10_000 * reach)
            by (nonlinear_arith)
            requires
                reach >= 0,
        ;
        let off = marks[1]->from.0 - area.cx;
        assert(off == reach);
        assert(off * s == reach * s);
        assert(s == 10_000 ==> reach * s - 10_000 * reach == 0) by (nonlinear_arith);
        assert(s == -10_000 ==> reach * s + 10_000 * reach == 0) by (nonlinear_arith);
        assert(reach * 0 == 0);
    }
}

/// A failed attitude is crossed out in red, under its name and over its reason.
pub proof fn a_failure_is_crossed_out(
    area: Instrument,
    failure: AhrsFailure,
    layout: Layout,
    theme: Theme,
)
    requires
        layout.wf(),
        100 <= area.half_height <= 4 * LONGEST_SIDE,
        area.cx + 100 <= layout.content_x1,
    ensures
        ({
            let marks = failure_marks(area, failure, layout, theme);
            let (cx, cy) = (area.cx as int, area.cy as int);
            &&& marks.len() == 6
            &&& marks[0] is Disc && marks[0]->Disc_at == (cx, cy) && marks[0]->Disc_colour
                == theme.background
            &&& marks[2] is Line && marks[3] is Line
            &&& marks[2]->from.0 == marks[3]->to.0 && marks[3]->from.0 == marks[2]->to.0
            &&& marks[2]->from.1 == marks[3]->from.1 && marks[2]->to.1 == marks[3]->to.1
            &&& marks[2]->from.0 < cx < marks[2]->to.0 && marks[2]->from.1 < cy < marks[2]->to.1
            &&& marks[2]->Line_colour == theme.warning && marks[3]->Line_colour == theme.warning
            &&& marks[1] is Ring && marks[1]->Ring_colour == theme.warning
            &&& marks[4]->style.colour == theme.warning
            &&& marks[4]->Text_y < cy < marks[5]->Text_y
            &&& failure == AhrsFailure::NoData ==> marks[4]->text == "AHRS UNAVAILABLE"@
                && marks[5]->text == "no attitude sensor reporting"@
            &&& failure == AhrsFailure::Stale ==> marks[4]->text == "AHRS DATA STALE"@
                && marks[5]->text == "sensor stopped updating"@
        }),
{
    let radius = smaller(area.half_height as int, layout.content_x1 - area.cx);
    shares_are_near(radius, 62, 100);
    shares_are_near(radius, 22, 100);
}

/// The altitude shown is pressure altitude where there is one, and only then the receiver's own; the
/// heading shown is the magnetic one, then the gyro's, then the track over the ground. The page says
/// which, and shows nothing in place of what it has not.
pub proof fn the_better_source_is_shown(
    pressure_mft: Option<i64>,
    msl_mft: Option<i64>,
    ahrs: Ahrs,
    track_mdeg: Option<i32>,
)
    ensures
        pressure_mft is Some ==> altitude_of(pressure_mft, msl_mft).height() == pressure_mft
            && altitude_of(pressure_mft, msl_mft).name() == "BARO FT"@,
        pressure_mft is None ==> altitude_of(pressure_mft, msl_mft).height() == msl_mft,
        pressure_mft is None && msl_mft is Some ==> altitude_of(pressure_mft, msl_mft).name()
            == "GPS FT"@,
        pressure_mft is None && msl_mft is None ==> altitude_of(pressure_mft, msl_mft).name()
            == "ALT FT"@,
        ahrs.mag_heading_mdeg matches Some(v) ==> heading_of(ahrs, track_mdeg) == HeadingSource::Mag(
            v,
        ),
        ahrs.mag_heading_mdeg is None ==> (ahrs.gyro_heading_mdeg matches Some(v) ==> heading_of(
            ahrs,
            track_mdeg,
        ) == HeadingSource::Gyro(v)),
        ahrs.mag_heading_mdeg is None && ahrs.gyro_heading_mdeg is None ==> (track_mdeg matches Some(
            v,
        ) ==> heading_of(ahrs, track_mdeg) == HeadingSource::Track(v)),
        ahrs.mag_heading_mdeg is None && ahrs.gyro_heading_mdeg is None && track_mdeg is None
            ==> heading_of(ahrs, track_mdeg) == HeadingSource::Unknown,
        HeadingSource::Unknown.written() == "---"@,
        forall|v: i32| (#[trigger] HeadingSource::Mag(v).name()) == "HDG mag"@,
        forall|v: i32| (#[trigger] HeadingSource::Gyro(v).name()) == "HDG gyro"@,
        forall|v: i32| (#[trigger] HeadingSource::Track(v).name()) == "TRK gps"@,
        HeadingSource::Unknown.name() == "HDG"@,
        forall|v: i32| (#[trigger] HeadingSource::Mag(v).written()) == direction_text(v as int),
        forall|v: i32| (#[trigger] HeadingSource::Gyro(v).written()) == direction_text(v as int),
        forall|v: i32| (#[trigger] HeadingSource::Track(v).written()) == direction_text(v as int),
{
}

/// A direction reads back as three digits and the degree sign, within half a degree of what it is, and
/// the same every time round.
pub proof fn directions_read_back(mdeg: int)
    ensures
        ({
            let text = direction_text(mdeg);
            &&& text.len() == 4
            &&& text[3] == '\u{00B0}'
            &&& -500 <= mdeg % 360_000 - 1000 * number(text.take(3)) <= 500
        }),
        direction_text(mdeg + 360_000) == direction_text(mdeg),
{
    let turned = (mdeg % 360_000) as nat;
    rounding_is_to_the_nearest(turned, 1000);
    let degrees = nearest(turned, 1000);
    assert(degrees <= 360);
    assert(ten_to(0) == 1);
    assert(ten_to(1) == 10 * ten_to(0));
    assert(ten_to(2) == 10 * ten_to(1));
    assert(ten_to(3) == 10 * ten_to(2));
    padded_reads_back(degrees, 3);
    assert(direction_text(mdeg).take(3) =~= padded(degrees, 3));
    vstd::arithmetic::div_mod::lemma_mod_add_multiples_vanish(mdeg, 360_000);
    assert((mdeg + 360_000) % 360_000 == mdeg % 360_000);
}

/// Ground speed is on the left, altitude on the right with the vertical speed outside it, all as high as
/// the page between its bars. A pixel is a quarter of a knot or two and a half feet; the scales are
/// numbered every ten knots and every hundred feet, and the vertical speed runs to two thousand feet a
/// minute.
pub proof fn the_tapes_stand_at_the_sides(layout: Layout)
    requires
        layout.wf(),
    ensures
        ({
            let (speed, altitude, rate) = (
                speed_tape_of(layout),
                altitude_tape_of(layout),
                vertical_strip_of(layout),
            );
            &&& speed.x == layout.content_x0 && speed.side == Side::Left
            &&& altitude.side == Side::Right
            &&& altitude.x + altitude.width == rate.x
            &&& rate.x + rate.width == layout.content_x1
            &&& speed.top == layout.status_bar_height && altitude.top == speed.top && rate.top
                == speed.top
            &&& speed.bottom == layout.height - layout.footer_height && altitude.bottom
                == speed.bottom && rate.bottom == speed.bottom
            &&& speed.units_per_px == 250 && speed.major == 10_000 && speed.minor == 5_000
            &&& altitude.units_per_px == 2_500 && altitude.major == 100_000 && altitude.minor
                == 20_000
            &&& rate.full_scale == 2_000
            &&& speed.width > 0 && altitude.width > 0 && rate.width > 0
        }),
{
}

/// Each tape shows its own reading: ground speed, altitude from the better source, and vertical speed.
pub proof fn each_tape_shows_its_own_reading(data: FlightData, layout: Layout, theme: Theme)
    ensures
        ({
            let marks = tapes_marks(data, layout, theme);
            let altitude = if data.pressure_altitude_mft is Some {
                data.pressure_altitude_mft
            } else {
                data.altitude_msl_mft
            };
            let caption = if data.pressure_altitude_mft is Some {
                "BARO FT"@
            } else if data.altitude_msl_mft is Some {
                "GPS FT"@
            } else {
                "ALT FT"@
            };
            let speeds = tape_marks(
                speed_tape_of(layout),
                "GS KT"@,
                known(data.ground_speed_mkt),
                theme,
            );
            let heights = tape_marks(altitude_tape_of(layout), caption, known(altitude), theme);
            let rates = vsi_marks(vertical_strip_of(layout), known(data.vertical_speed_mfpm), theme);
            marks == speeds + heights + rates
        }),
{
}

/// The heading stands in a box under the instrument, half way across it, between the instrument and the
/// footer.
pub proof fn the_heading_stands_under_the_instrument(
    area: Instrument,
    source: HeadingSource,
    layout: Layout,
    theme: Theme,
)
    requires
        layout.wf(),
        area.wf(),
        0 <= area.bottom <= layout.height - layout.footer_height,
        1_000 <= theme.font_size_large <= LONGEST_SIDE,
    ensures
        ({
            let marks = heading_marks(area, source, layout, theme);
            let text = marks[2];
            &&& marks.len() == 3
            &&& marks[0] is Fill && marks[1] is Frame && text is Text
            &&& text->text == source.written()
            &&& text->Text_x == area.cx
            &&& area.bottom <= text->Text_y <= layout.height - layout.footer_height
            &&& marks[0]->Fill_x < text->Text_x < marks[0]->Fill_x + marks[0]->Fill_w
            &&& marks[0]->Fill_y < text->Text_y < marks[0]->Fill_y + marks[0]->Fill_h
            &&& marks[1]->Frame_x == marks[0]->Fill_x && marks[1]->Frame_y == marks[0]->Fill_y
            &&& marks[0]->Fill_colour == (Color { r: 0, g: 0, b: 0, a: 23_500 })
            &&& text->style.colour == theme.text_primary
        }),
{
    shares_are_near(area.bottom + layout.height - layout.footer_height, 1, 2);
}

/// The page always says that it is no primary reference, in amber, at the foot of the instrument.
pub proof fn the_reminder_is_always_there(
    area: Instrument,
    width: int,
    layout: Layout,
    theme: Theme,
)
    ensures
        ({
            let marks = reminder_marks(area, width, layout, theme);
            &&& marks.last() is Text
            &&& marks.last()->text == "AHRS \u{2014} NOT FOR PRIMARY REFERENCE"@
            &&& marks.last()->style.colour == theme.caution
            &&& marks.last()->Text_y == area.bottom - 5_000
        }),
{
}

} // verus!
