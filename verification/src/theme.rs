//! Colours and sizes.
//!
//! Tuned for a 7" panel in daylight behind a windscreen, which is a harsher environment than a
//! desk monitor: thin lines disappear, mid greys wash out, and small type is unreadable with
//! vibration. Hence heavier strokes and fewer, more saturated colours than a desktop UI would use.
//!
//! The background is deliberately not pure black. On a dim panel, pure black makes "the app
//! crashed" and "the app is running with nothing to draw" look identical.

use vstd::prelude::*;

use crate::threat::ThreatLevel;

verus! {

/// The value of a fully lit channel. Divisible by 255 and by 100, so colours given in bytes and
/// colours given in per cent are both exact.
pub const CHANNEL_FULL: u32 = 25_500;

/// A colour, each channel from 0 to [`CHANNEL_FULL`].
#[derive(Debug, Clone, Copy, PartialEq, Eq, Structural)]
pub struct Color {
    pub r: u32,
    pub g: u32,
    pub b: u32,
    pub a: u32,
}

impl Color {
    /// Whether every channel is in range.
    pub open spec fn wf(self) -> bool {
        self.r <= CHANNEL_FULL && self.g <= CHANNEL_FULL && self.b <= CHANNEL_FULL && self.a
            <= CHANNEL_FULL
    }

    /// The colour with these channels out of 255.
    pub open spec fn of_bytes(r: u8, g: u8, b: u8, a: u8) -> Color {
        Color {
            r: (r * 100) as u32,
            g: (g * 100) as u32,
            b: (b * 100) as u32,
            a: (a * 100) as u32,
        }
    }

    /// The colour with these channels out of 100.
    pub open spec fn of_percent(r: u8, g: u8, b: u8, a: u8) -> Color {
        Color {
            r: (r * 255) as u32,
            g: (g * 255) as u32,
            b: (b * 255) as u32,
            a: (a * 255) as u32,
        }
    }

    /// An opaque colour out of bytes.
    pub fn rgb(r: u8, g: u8, b: u8) -> (c: Color)
        ensures
            c == Color::of_bytes(r, g, b, 255),
            c.wf(),
    {
        Color::rgba(r, g, b, 255)
    }

    /// A colour out of bytes.
    pub fn rgba(r: u8, g: u8, b: u8, a: u8) -> (c: Color)
        ensures
            c == Color::of_bytes(r, g, b, a),
            c.wf(),
    {
        Color { r: r as u32 * 100, g: g as u32 * 100, b: b as u32 * 100, a: a as u32 * 100 }
    }

    /// A colour out of per cent.
    pub fn percent(r: u8, g: u8, b: u8, a: u8) -> (c: Color)
        requires
            r <= 100 && g <= 100 && b <= 100 && a <= 100,
        ensures
            c == Color::of_percent(r, g, b, a),
            c.wf(),
    {
        Color { r: r as u32 * 255, g: g as u32 * 255, b: b as u32 * 255, a: a as u32 * 255 }
    }
}

/// A colour with its alpha scaled by a number of per cent.
pub open spec fn faded_by(colour: Color, percent: int) -> Color {
    Color { a: (colour.a * percent / 100) as u32, ..colour }
}

/// Dim a colour by scaling its alpha. Used for coasting targets and stale weather.
pub fn faded(colour: Color, percent: u8) -> (r: Color)
    requires
        percent <= 100,
    ensures
        r == faded_by(colour, percent as int),
        colour.wf() ==> r.wf(),
{
    assert(0 <= colour.a * percent <= colour.a * 100) by (nonlinear_arith)
        requires
            0 <= percent <= 100,
            0 <= colour.a,
    ;
    let a: u32 = (colour.a as u64 * percent as u64 / 100) as u32;
    Color { r: colour.r, g: colour.g, b: colour.b, a }
}

/// The palette, and the sizes in thousandths of a pixel.
#[derive(Debug, Clone, Copy, PartialEq, Eq, Structural)]
pub struct Theme {
    pub background: Color,
    pub bar_background: Color,
    pub ring: Color,
    pub ring_fill: Color,
    pub ring_label: Color,
    pub compass_tick: Color,
    pub ownship: Color,
    pub target_normal: Color,
    pub target_advisory: Color,
    pub target_alert: Color,
    /// Outline drawn under every symbol so it stays legible over weather.
    pub target_outline: Color,
    pub tag_text: Color,
    pub text_primary: Color,
    pub text_secondary: Color,
    pub text_dim: Color,
    pub good: Color,
    pub caution: Color,
    pub warning: Color,
    pub font_size_tag: i64,
    pub font_size_small: i64,
    pub font_size_normal: i64,
    pub font_size_large: i64,
    pub symbol_size: i64,
    pub line_width: i64,
}

impl Theme {
    /// The standard dark cockpit theme.
    pub open spec fn dark_theme() -> Theme {
        Theme {
            background: Color::of_bytes(8, 10, 14, 255),
            bar_background: Color::of_percent(5, 7, 10, 94),
            ring: Color::of_bytes(90, 190, 250, 200),
            ring_fill: Color::of_percent(13, 35, 62, 10),
            ring_label: Color::of_bytes(130, 190, 225, 255),
            compass_tick: Color::of_bytes(120, 200, 245, 170),
            ownship: Color::of_bytes(120, 255, 170, 255),
            target_normal: Color::of_bytes(220, 235, 245, 255),
            target_advisory: Color::of_bytes(255, 200, 40, 255),
            target_alert: Color::of_bytes(255, 80, 60, 255),
            target_outline: Color::of_bytes(8, 10, 14, 255),
            tag_text: Color::of_bytes(205, 222, 235, 255),
            text_primary: Color::of_bytes(235, 245, 255, 255),
            text_secondary: Color::of_bytes(160, 185, 205, 255),
            text_dim: Color::of_bytes(105, 125, 145, 255),
            good: Color::of_bytes(120, 235, 160, 255),
            caution: Color::of_bytes(255, 195, 60, 255),
            warning: Color::of_bytes(255, 90, 70, 255),
            font_size_tag: 11_000,
            font_size_small: 11_000,
            font_size_normal: 14_000,
            font_size_large: 19_000,
            symbol_size: 9_000,
            line_width: 1_600,
        }
    }

    /// The standard dark cockpit theme.
    pub fn dark() -> (r: Theme)
        ensures
            r == Theme::dark_theme(),
    {
        Theme {
            background: Color::rgb(8, 10, 14),
            bar_background: Color::percent(5, 7, 10, 94),
            ring: Color::rgba(90, 190, 250, 200),
            ring_fill: Color::percent(13, 35, 62, 10),
            ring_label: Color::rgb(130, 190, 225),
            compass_tick: Color::rgba(120, 200, 245, 170),
            ownship: Color::rgb(120, 255, 170),
            target_normal: Color::rgb(220, 235, 245),
            target_advisory: Color::rgb(255, 200, 40),
            target_alert: Color::rgb(255, 80, 60),
            target_outline: Color::rgb(8, 10, 14),
            tag_text: Color::rgb(205, 222, 235),
            text_primary: Color::rgb(235, 245, 255),
            text_secondary: Color::rgb(160, 185, 205),
            text_dim: Color::rgb(105, 125, 145),
            good: Color::rgb(120, 235, 160),
            caution: Color::rgb(255, 195, 60),
            warning: Color::rgb(255, 90, 70),
            font_size_tag: 11_000,
            font_size_small: 11_000,
            font_size_normal: 14_000,
            font_size_large: 19_000,
            symbol_size: 9_000,
            line_width: 1_600,
        }
    }

    /// The colour of a threat level.
    pub open spec fn level_colour(self, level: ThreatLevel) -> Color {
        match level {
            ThreatLevel::Normal => self.target_normal,
            ThreatLevel::Advisory => self.target_advisory,
            ThreatLevel::Alert => self.target_alert,
        }
    }

    pub fn colour_for(&self, level: ThreatLevel) -> (r: Color)
        ensures
            r == self.level_colour(level),
    {
        match level {
            ThreatLevel::Normal => self.target_normal,
            ThreatLevel::Advisory => self.target_advisory,
            ThreatLevel::Alert => self.target_alert,
        }
    }
}

impl Default for Theme {
    fn default() -> (r: Theme)
        ensures
            r == Theme::dark_theme(),
    {
        Theme::dark()
    }
}

// --- laws ----------------------------------------------------------------------------------

/// A level has a colour of its own, whatever the palette: the one the palette gives it.
pub proof fn levels_are_told_apart_by_colour(theme: Theme)
    ensures
        theme.level_colour(ThreatLevel::Alert) == theme.target_alert,
        theme.level_colour(ThreatLevel::Advisory) == theme.target_advisory,
        theme.level_colour(ThreatLevel::Normal) == theme.target_normal,
{
}

/// Fading takes opacity away and leaves the hue: the colour fades to that many hundredths of what its
/// opacity was, rounded down.
pub proof fn fading_keeps_the_hue(colour: Color, percent: int)
    requires
        0 <= percent <= 100,
    ensures
        faded_by(colour, percent).r == colour.r,
        faded_by(colour, percent).g == colour.g,
        faded_by(colour, percent).b == colour.b,
        100 * faded_by(colour, percent).a <= colour.a * percent,
        colour.a * percent < 100 * faded_by(colour, percent).a + 100,
{
    assert(0 <= colour.a * percent <= colour.a * 100) by (nonlinear_arith)
        requires
            0 <= percent <= 100,
            0 <= colour.a,
    ;
}

/// A byte is a byte's part of a full channel, and a per cent a hundredth of it.
pub proof fn channels_run_to_full(r: u8, g: u8, b: u8, a: u8)
    ensures
        ({
            let c = Color::of_bytes(r, g, b, a);
            &&& 255 * c.r == r * 25_500 && 255 * c.g == g * 25_500
            &&& 255 * c.b == b * 25_500 && 255 * c.a == a * 25_500
        }),
        ({
            let c = Color::of_percent(r, g, b, a);
            &&& 100 * c.r == r * 25_500 && 100 * c.g == g * 25_500
            &&& 100 * c.b == b * 25_500 && 100 * c.a == a * 25_500
        }),
        CHANNEL_FULL == 25_500,
{
}

/// The dark palette: own-ship and what is well in green, what is to be watched in amber, what is to be
/// acted on in red, and text in near white over near black.
pub proof fn the_dark_palette()
    ensures
        ({
            let t = Theme::dark_theme();
            &&& t.background == (Color { r: 800, g: 1_000, b: 1_400, a: 25_500 })
            &&& t.target_outline == t.background
            &&& t.ownship == (Color { r: 12_000, g: 25_500, b: 17_000, a: 25_500 })
            &&& t.target_normal == (Color { r: 22_000, g: 23_500, b: 24_500, a: 25_500 })
            &&& t.target_advisory == (Color { r: 25_500, g: 20_000, b: 4_000, a: 25_500 })
            &&& t.target_alert == (Color { r: 25_500, g: 8_000, b: 6_000, a: 25_500 })
            &&& t.good == (Color { r: 12_000, g: 23_500, b: 16_000, a: 25_500 })
            &&& t.caution == (Color { r: 25_500, g: 19_500, b: 6_000, a: 25_500 })
            &&& t.warning == (Color { r: 25_500, g: 9_000, b: 7_000, a: 25_500 })
            &&& t.text_primary == (Color { r: 23_500, g: 24_500, b: 25_500, a: 25_500 })
            &&& t.text_secondary == (Color { r: 16_000, g: 18_500, b: 20_500, a: 25_500 })
            &&& t.text_dim == (Color { r: 10_500, g: 12_500, b: 14_500, a: 25_500 })
            &&& t.tag_text == (Color { r: 20_500, g: 22_200, b: 23_500, a: 25_500 })
            &&& t.ring == (Color { r: 9_000, g: 19_000, b: 25_000, a: 20_000 })
            &&& t.ring_label == (Color { r: 13_000, g: 19_000, b: 22_500, a: 25_500 })
            &&& t.compass_tick == (Color { r: 12_000, g: 20_000, b: 24_500, a: 17_000 })
            &&& t.ring_fill == (Color { r: 3_315, g: 8_925, b: 15_810, a: 2_550 })
            &&& t.bar_background == (Color { r: 1_275, g: 1_785, b: 2_550, a: 23_970 })
        }),
{
}

} // verus!
