//! Moving-scale tapes: the vertical strips either side of the attitude display.
//!
//! A tape shows a value by sliding a numbered scale past a fixed pointer, rather than by printing a
//! number. That is worth the pixels because it encodes **rate and direction** as well as magnitude.
//!
//! The pointer never moves. The scale slides. The eye learns one screen position for "current
//! value" and never has to hunt for a needle, and the digital box sits at that same position.
//!
//! A tape with no value has **no scale and no box**. It must never park the scale at zero: a tape
//! reading zero looks exactly like a working instrument reporting zero.
//!
//! Values are in thousandths of a unit, lengths in thousandths of a pixel.

use vstd::prelude::*;

use crate::layout::{larger, share, share_of, shares_are_near, shares_are_parts, LONGEST_SIDE};
use crate::marks::{
    block, drawn, nothing, put, put_all, put_fill, put_line, put_text, stroke, text_at, Align,
    Area, Baseline, Painted, Mark, Style,
};
use crate::text::{
    decimal, decimals_read_back, nearest, number, push_decimal, push_rounded, rounded,
};
use crate::theme::{faded, faded_by, Color, Theme};

verus! {

/// Which edge the pointer box projects from.
#[derive(Debug, Clone, Copy, PartialEq, Eq, Structural)]
pub enum Side {
    /// Tape on the left of the screen; the box points right, towards the attitude.
    Left,
    /// Tape on the right; the box points left.
    Right,
}

/// Geometry and scale of one tape.
#[derive(Debug, Clone, Copy, PartialEq, Eq, Structural)]
pub struct Tape {
    pub x: i64,
    pub width: i64,
    pub top: i64,
    pub bottom: i64,
    /// How much of the scale one pixel covers. Smaller means a longer, finer tape.
    pub units_per_px: i64,
    /// Labelled tick interval.
    pub major: i64,
    /// Unlabelled tick interval.
    pub minor: i64,
    pub side: Side,
}

/// The largest value a tape can show: a billion units.
pub const LARGEST_VALUE: i64 = 1_000_000_000_000;

impl Tape {
    pub open spec fn wf(self) -> bool {
        &&& -LONGEST_SIDE <= self.x <= LONGEST_SIDE
        &&& 0 <= self.width <= LONGEST_SIDE
        &&& -LONGEST_SIDE <= self.top <= LONGEST_SIDE
        &&& -LONGEST_SIDE <= self.bottom <= LONGEST_SIDE
        &&& -LONGEST_SIDE <= self.bottom - self.top <= LONGEST_SIDE
        &&& 0 < self.units_per_px <= 1_000_000
        &&& 0 < self.minor <= 1_000_000_000
        &&& 0 < self.major <= 1_000_000_000
    }

    /// Where the pointer is.
    pub open spec fn middle(self) -> int {
        share(self.top + self.bottom, 1, 2)
    }

    pub fn centre_y(&self) -> (r: i64)
        requires
            self.wf(),
        ensures
            r == self.middle(),
            -LONGEST_SIDE <= r <= LONGEST_SIDE,
    {
        share_of(self.top + self.bottom, 1, 2)
    }

    /// Screen y for a scale value, given what is currently under the pointer.
    pub open spec fn place(self, value: int, current: int) -> int {
        self.middle() - (value - current) * 1000 / self.units_per_px as int
    }

    /// Screen y for a scale value, given what is currently under the pointer. Higher values sit
    /// higher on screen.
    pub fn y_for(&self, value: i64, current: i64) -> (r: i64)
        requires
            self.wf(),
            -2 * LARGEST_VALUE <= value <= 2 * LARGEST_VALUE,
            -2 * LARGEST_VALUE <= current <= 2 * LARGEST_VALUE,
        ensures
            r == self.place(value as int, current as int),
    {
        let n: i64 = (value - current) * 1000;
        let d: i64 = self.units_per_px;
        proof {
            quotient_is_modest(n as int, d as int);
        }
        self.centre_y() - floor_ratio(n, d)
    }

    /// Half of what the tape shows of its scale.
    pub open spec fn half_span(self) -> int {
        share(self.bottom - self.top, self.units_per_px as int, 2000)
    }

    /// The lowest value a tick is drawn for, with `current` under the pointer. A tick beyond the
    /// ends is still drawn: its label may be partly visible, and losing it would make the scale
    /// flicker at the edges as it slides.
    pub open spec fn lowest(self, current: int) -> int {
        current - self.half_span() - self.major
    }

    /// The highest value a tick is drawn for.
    pub open spec fn highest(self, current: int) -> int {
        current + self.half_span() + self.major
    }

    /// The values of the ticks at an interval.
    pub fn ticks_at(&self, current: i64, every: i64) -> (r: Vec<i64>)
        requires
            self.wf(),
            -LARGEST_VALUE <= current <= LARGEST_VALUE,
            0 < every <= 1_000_000_000,
        ensures
            are_multiples(
                r@,
                self.lowest(current as int),
                self.highest(current as int),
                every as int,
            ),
    {
        proof {
            self.span_is_modest();
        }
        let span: i64 = share_of(self.bottom - self.top, self.units_per_px, 2000);
        let low: i64 = current - span - self.major;
        let high: i64 = current + span + self.major;
        proof {
            quotient_is_modest(-low, every as int);
            quotient_is_modest(low as int, every as int);
        }
        let first: i64 = -floor_ratio(-low, every);
        proof {
            first_multiple(low as int, every as int);
        }
        let mut out: Vec<i64> = Vec::new();
        let mut n: i64 = first;
        proof {
            multiple_is_modest(first as int, low as int, every as int);
        }
        let mut v: i64 = first * every;
        while v <= high
            invariant
                0 < every <= 1_000_000_000,
                -4 * LARGEST_VALUE <= high <= 4 * LARGEST_VALUE,
                -4 * LARGEST_VALUE <= low <= 4 * LARGEST_VALUE,
                -4 * LARGEST_VALUE <= v <= 5 * LARGEST_VALUE,
                v == n * every,
                n == first + out@.len(),
                (first - 1) * every < low <= first * every,
                -5 * LARGEST_VALUE <= first <= 5 * LARGEST_VALUE,
                forall|k: int| 0 <= k < out@.len() ==> #[trigger] out@[k] == (first + k) * every,
                forall|k: int| 0 <= k < out@.len() ==> #[trigger] out@[k] <= high,
            decreases high + 1_000_000_000 - v,
        {
            assert((n + 1) * every == n * every + every) by (nonlinear_arith);
            assert(n <= 4 * LARGEST_VALUE) by (nonlinear_arith)
                requires
                    n * every <= 4 * 1_000_000_000_000,
                    0 < every,
            ;
            out.push(v);
            v = v + every;
            n = n + 1;
        }
        proof {
            first_is_unique(first as int, low as int, every as int);
        }
        out
    }

    /// The values of the labelled ticks, lowest first.
    pub fn major_ticks(&self, current: i64) -> (r: Vec<i64>)
        requires
            self.wf(),
            -LARGEST_VALUE <= current <= LARGEST_VALUE,
        ensures
            are_multiples(
                r@,
                self.lowest(current as int),
                self.highest(current as int),
                self.major as int,
            ),
    {
        self.ticks_at(current, self.major)
    }

    /// The values of the unlabelled ticks, lowest first: those of the finer interval that no
    /// labelled tick stands on.
    pub fn minor_ticks(&self, current: i64) -> (r: Vec<i64>)
        requires
            self.wf(),
            -LARGEST_VALUE <= current <= LARGEST_VALUE,
        ensures
            exists|all: Seq<i64>| #[trigger]
                are_multiples(
                    all,
                    self.lowest(current as int),
                    self.highest(current as int),
                    self.minor as int,
                ) && r@ == not_on(all, self.major as int),
    {
        let all: Vec<i64> = self.ticks_at(current, self.minor);
        let major: i64 = self.major;
        let mut out: Vec<i64> = Vec::new();
        let mut i: usize = 0;
        assert(all@.take(0) =~= seq![]);
        while i < all.len()
            invariant
                i <= all.len(),
                0 < major == self.major,
                out@ == not_on(all@.take(i as int), major as int),
            decreases all.len() - i,
        {
            proof {
                assert(all@.take(i + 1).drop_last() =~= all@.take(i as int));
                assert(all@.take(i + 1).last() == all@[i as int]);
            }
            if !is_multiple(all[i], major) {
                out.push(all[i]);
            }
            i = i + 1;
        }
        assert(all@.take(i as int) =~= all@);
        out
    }

    proof fn span_is_modest(self)
        requires
            self.wf(),
        ensures
            -1_000_000_000_000_000 <= (self.bottom - self.top) * self.units_per_px
                <= 1_000_000_000_000_000,
            -500_000_000_000 <= self.half_span() <= 500_000_000_000,
    {
        let (a, b) = (self.bottom - self.top, self.units_per_px as int);
        assert(-1_000_000_000_000_000 <= a * b <= 1_000_000_000_000_000) by (nonlinear_arith)
            requires
                -1_000_000_000 <= a <= 1_000_000_000,
                0 <= b <= 1_000_000,
        ;
    }
}

/// Whether a list holds all the multiples of an interval from `low` to `high`, ascending.
pub open spec fn are_multiples(list: Seq<i64>, low: int, high: int, every: int) -> bool {
    let first = first_at(low, every);
    &&& forall|k: int| 0 <= k < list.len() ==> #[trigger] list[k] == (first + k) * every
    &&& forall|k: int| 0 <= k < list.len() ==> #[trigger] list[k] <= high
    &&& (first + list.len()) * every > high
}

/// The values of a list that are no multiple of an interval.
pub open spec fn not_on(list: Seq<i64>, every: int) -> Seq<i64>
    decreases list.len(),
{
    if list.len() == 0 {
        seq![]
    } else if list.last() as int % every == 0 {
        not_on(list.drop_last(), every)
    } else {
        not_on(list.drop_last(), every).push(list.last())
    }
}

fn is_multiple(value: i64, every: i64) -> (r: bool)
    requires
        0 < every,
    ensures
        r == (value as int % every as int == 0),
{
    let size: i128 = if value < 0 {
        -(value as i128)
    } else {
        value as i128
    };
    proof {
        sign_keeps_multiples(value as int, every as int);
    }
    size % (every as i128) == 0
}

proof fn sign_keeps_multiples(value: int, every: int)
    requires
        0 < every,
    ensures
        (value % every == 0) == ((-value) % every == 0),
{
    vstd::arithmetic::div_mod::lemma_fundamental_div_mod(value, every);
    vstd::arithmetic::div_mod::lemma_fundamental_div_mod(-value, every);
    let (q, r) = (value / every, value % every);
    let (p, s) = ((-value) / every, (-value) % every);
    assert(every * q + every * p == every * (q + p)) by (nonlinear_arith);
    assert(every * (q + p) + r + s == 0);
    let t = q + p;
    assert((r == 0) == (s == 0)) by (nonlinear_arith)
        requires
            every * t + r + s == 0,
            0 <= r < every,
            0 <= s < every,
            0 < every,
    ;
}

/// How many intervals up the first multiple not below a value is.
pub open spec fn first_at(low: int, every: int) -> int {
    -((-low) / every)
}

/// The whole number of times a number goes into another, rounded down.
fn floor_ratio(n: i64, d: i64) -> (r: i64)
    requires
        0 < d,
        n > i64::MIN,
    ensures
        r == n as int / d as int,
{
    if n >= 0 {
        n / d
    } else {
        proof {
            let (m, e) = (-n - 1, d as int);
            vstd::arithmetic::div_mod::lemma_fundamental_div_mod(m, e);
            let q = m / e;
            let rest = m % e;
            assert(e * q == q * e) by (nonlinear_arith);
            assert(n == (-q - 1) * e + (e - 1 - rest)) by (nonlinear_arith)
                requires
                    -n - 1 == e * q + rest,
            ;
            vstd::arithmetic::div_mod::lemma_fundamental_div_mod_converse(
                n as int,
                e,
                -q - 1,
                e - 1 - rest,
            );
            assert(0 <= q <= m) by (nonlinear_arith)
                requires
                    e * q + rest == m,
                    0 <= rest,
                    e >= 1,
                    q >= 0,
            ;
        }
        -((-(n + 1)) / d) - 1
    }
}

proof fn quotient_is_modest(n: int, d: int)
    requires
        0 < d,
    ensures
        n >= 0 ==> 0 <= n / d <= n,
        n < 0 ==> n <= n / d <= 0,
{
    vstd::arithmetic::div_mod::lemma_fundamental_div_mod(n, d);
    let q = n / d;
    let r = n % d;
    if n >= 0 {
        assert(0 <= q <= n) by (nonlinear_arith)
            requires
                n == d * q + r,
                0 <= r < d,
                n >= 0,
                d >= 1,
        ;
    } else {
        assert(n <= q <= 0) by (nonlinear_arith)
            requires
                n == d * q + r,
                0 <= r < d,
                n < 0,
                d >= 1,
        ;
    }
}

proof fn first_multiple(low: int, every: int)
    requires
        0 < every,
    ensures
        (first_at(low, every) - 1) * every < low <= first_at(low, every) * every,
{
    vstd::arithmetic::div_mod::lemma_fundamental_div_mod(-low, every);
    let q = (-low) / every;
    assert((-q - 1) * every < low <= (-q) * every) by (nonlinear_arith)
        requires
            -low == every * q + (-low) % every,
            0 <= (-low) % every < every,
    ;
}

proof fn first_is_unique(first: int, low: int, every: int)
    requires
        0 < every,
        (first - 1) * every < low <= first * every,
    ensures
        first == first_at(low, every),
{
    first_multiple(low, every);
    let other = first_at(low, every);
    if first < other {
        assert(first * every <= (other - 1) * every) by (nonlinear_arith)
            requires
                first <= other - 1,
                0 < every,
        ;
    } else if other < first {
        assert(other * every <= (first - 1) * every) by (nonlinear_arith)
            requires
                other <= first - 1,
                0 < every,
        ;
    }
}

proof fn multiple_is_modest(first: int, low: int, every: int)
    requires
        0 < every <= 1_000_000_000,
        (first - 1) * every < low <= first * every,
    ensures
        low <= first * every < low + every,
{
    assert((first - 1) * every == first * every - every) by (nonlinear_arith);
}

/// A value under the pointer, or a label of the scale: whole units.
pub fn value_text(value: i64) -> (r: String)
    ensures
        r@ == rounded(value as int, 1000),
{
    let mut out: String = String::new();
    push_rounded(&mut out, value, 1000);
    assert(out@ =~= rounded(value as int, 1000));
    out
}

/// How much of a tape the sliding scale may use: all but the band its caption is in. A scale label
/// sliding through the caption makes both unreadable at exactly the moment the value is changing.
pub fn scale_height(tape: &Tape, theme: &Theme) -> (r: i64)
    requires
        tape.wf(),
        theme.sizes_ok(),
    ensures
        r == larger(tape.bottom - tape.top - theme.font_size_tag * 17 / 10, 1_000),
{
    let height: i64 = tape.bottom - tape.top - theme.font_size_tag * 17 / 10;
    if height < 1_000 {
        1_000
    } else {
        height
    }
}

/// The fixed digital readout: its box, where its chevron points, and where its text is anchored.
#[derive(Debug, Clone, Copy, PartialEq, Eq, Structural)]
pub struct ValueBox {
    pub x0: i64,
    pub x1: i64,
    pub point_x: i64,
    pub text_x: i64,
    pub right_aligned: bool,
    pub y0: i64,
    pub y1: i64,
}

/// The fixed digital readout, with a chevron pointing at the scale. The chevron is the pointer
/// proper: it is what makes the box read as "the value here".
pub fn value_box(tape: &Tape, theme: &Theme) -> (r: ValueBox)
    requires
        tape.wf(),
        theme.sizes_ok(),
    ensures
        r.right_aligned == (tape.side == Side::Left),
        r.y0 == tape.middle() - theme.font_size_large * 75 / 100,
        r.y1 == tape.middle() + theme.font_size_large * 75 / 100,
        tape.side == Side::Left ==> r.x0 == tape.x - 2_000 && r.x1 == tape.x + tape.width + 4_000
            && r.point_x == r.x1 + 7_000 && r.text_x == tape.x + tape.width,
        tape.side == Side::Right ==> r.x0 == tape.x - 4_000 && r.x1 == tape.x + tape.width + 2_000
            && r.point_x == r.x0 - 7_000 && r.text_x == tape.x,
{
    let half: i64 = theme.font_size_large * 75 / 100;
    let middle: i64 = tape.centre_y();
    match tape.side {
        Side::Left => ValueBox {
            x0: tape.x - 2_000,
            x1: tape.x + tape.width + 4_000,
            point_x: tape.x + tape.width + 11_000,
            text_x: tape.x + tape.width,
            right_aligned: true,
            y0: middle - half,
            y1: middle + half,
        },
        Side::Right => ValueBox {
            x0: tape.x - 4_000,
            x1: tape.x + tape.width + 2_000,
            point_x: tape.x - 11_000,
            text_x: tape.x,
            right_aligned: false,
            y0: middle - half,
            y1: middle + half,
        },
    }
}

// --- vertical speed ------------------------------------------------------------------------

/// The vertical-speed strip: a fixed scale with a moving pointer, unlike the sliding tapes.
///
/// Vertical speed is bounded and symmetric about zero, so a fixed scale puts "level" at a constant
/// screen position, which is the thing being checked most of the time.
#[derive(Debug, Clone, Copy, PartialEq, Eq, Structural)]
pub struct Vsi {
    pub x: i64,
    pub width: i64,
    pub top: i64,
    pub bottom: i64,
    /// Full-scale deflection, in feet per minute.
    pub full_scale: i64,
}

/// Vertical padding so the full-scale labels are not clipped by the chrome above and below.
pub const VSI_INSET: i64 = 22_000;

/// One tick of the vertical-speed scale.
#[derive(Debug, Clone, Copy, PartialEq, Eq, Structural)]
pub struct VsiTick {
    pub y: i64,
    pub length: i64,
    /// What it is labelled with, in thousands of feet per minute.
    pub label: Option<u64>,
}

impl Vsi {
    pub open spec fn wf(self) -> bool {
        &&& -LONGEST_SIDE <= self.x <= LONGEST_SIDE
        &&& 0 <= self.width <= LONGEST_SIDE
        &&& -LONGEST_SIDE <= self.top <= LONGEST_SIDE
        &&& -LONGEST_SIDE <= self.bottom <= LONGEST_SIDE
        &&& 0 < self.full_scale <= 100_000
    }

    /// Whether it is high enough for its scale.
    pub open spec fn has_room(self) -> bool {
        self.top + 2 * VSI_INSET <= self.bottom
    }

    pub open spec fn middle(self) -> int {
        share(self.top + self.bottom, 1, 2)
    }

    pub fn centre_y(&self) -> (r: i64)
        requires
            self.wf(),
        ensures
            r == self.middle(),
            -LONGEST_SIDE <= r <= LONGEST_SIDE,
    {
        share_of(self.top + self.bottom, 1, 2)
    }

    /// How far the pointer goes from the middle at full scale. On a strip too low for its scale it is
    /// negative, and the scale upside down.
    pub open spec fn reach(self) -> int {
        share(self.bottom - self.top, 1, 2) - VSI_INSET
    }

    /// How far from the middle a rate of some size is, up to full scale.
    pub open spec fn deflection(self, size_mfpm: int) -> int {
        if size_mfpm >= self.full_scale * 1000 {
            self.reach()
        } else {
            share(self.reach(), size_mfpm, self.full_scale * 1000)
        }
    }

    /// Screen y for a rate in thousandths of a foot per minute.
    pub open spec fn place(self, mfpm: int) -> int {
        if mfpm >= 0 {
            self.middle() - self.deflection(mfpm)
        } else {
            self.middle() + self.deflection(-mfpm)
        }
    }

    /// Screen y for a rate. Linear is honest and legible at this size, and past full scale the
    /// pointer stays at the end of the strip.
    pub fn y_for(&self, mfpm: i64) -> (r: i64)
        requires
            self.wf(),
            -LARGEST_VALUE <= mfpm <= LARGEST_VALUE,
        ensures
            r == self.place(mfpm as int),
            -3 * LONGEST_SIDE <= r <= 3 * LONGEST_SIDE,
            self.has_room() ==> self.top <= r <= self.bottom,
    {
        let size: i64 = if mfpm < 0 {
            -mfpm
        } else {
            mfpm
        };
        let reach: i64 = share_of(self.bottom - self.top, 1, 2) - VSI_INSET;
        let full: i64 = self.full_scale * 1000;
        let away: i64 = if size >= full {
            reach
        } else {
            assert(-100_000_000 * 2_000_000_000 <= reach * size <= 100_000_000 * 2_000_000_000)
                by (nonlinear_arith)
                requires
                    0 <= size <= 100_000_000,
                    -2_000_000_000 <= reach <= 2_000_000_000,
            ;
            share_of(reach, size, full)
        };
        if mfpm < 0 {
            self.centre_y() + away
        } else {
            self.centre_y() - away
        }
    }

    /// The tick `k` of the scale: every 500 feet per minute from the bottom of the scale, longer and
    /// labelled every 1000, but for zero.
    pub open spec fn tick(self, k: int) -> VsiTick {
        let fpm = 500 * k - self.full_scale;
        let major = fpm % 1000 == 0;
        VsiTick {
            y: self.place(fpm * 1000) as i64,
            length: if major {
                9_000
            } else {
                5_000
            },
            label: if major && fpm != 0 {
                Some(
                    (if fpm < 0 {
                        -fpm / 1000
                    } else {
                        fpm / 1000
                    }) as u64,
                )
            } else {
                None
            },
        }
    }

    /// The ticks of the scale, bottom to top.
    pub fn ticks(&self) -> (r: Vec<VsiTick>)
        requires
            self.wf(),
        ensures
            r@.len() == self.full_scale * 2 / 500 + 1,
            forall|k: int| 0 <= k < r@.len() ==> #[trigger] r@[k] == self.tick(k),
    {
        let mut out: Vec<VsiTick> = Vec::new();
        let mut fpm: i64 = -self.full_scale;
        while fpm <= self.full_scale
            invariant
                self.wf(),
                fpm == 500 * out@.len() - self.full_scale,
                fpm <= self.full_scale + 500,
                forall|k: int| 0 <= k < out@.len() ==> #[trigger] out@[k] == self.tick(k),
            decreases self.full_scale + 500 - fpm,
        {
            let size: i64 = if fpm < 0 {
                -fpm
            } else {
                fpm
            };
            let major: bool = size % 1000 == 0;
            assert(major == (fpm as int % 1000 == 0));
            let y: i64 = self.y_for(fpm * 1000);
            out.push(
                VsiTick {
                    y,
                    length: if major {
                        9_000
                    } else {
                        5_000
                    },
                    label: if major && fpm != 0 {
                        Some((size / 1000) as u64)
                    } else {
                        None
                    },
                },
            );
            fpm = fpm + 500;
        }
        out
    }
}

/// A rate rounded to fifties of feet per minute, halves away from zero, in fifties.
pub open spec fn fifties(mfpm: int) -> int {
    if mfpm < 0 {
        -((-mfpm + 25_000) / 50_000)
    } else {
        (mfpm + 25_000) / 50_000
    }
}

/// The digital figure of a rate: with its sign, nothing for level.
pub open spec fn rate_figure(mfpm: int) -> Option<Seq<char>> {
    let n = 50 * fifties(mfpm);
    if n == 0 {
        None
    } else if n > 0 {
        Some("+"@ + decimal(n as nat))
    } else {
        Some("-"@ + decimal((-n) as nat))
    }
}

/// The digital figure, rounded to 50 fpm: a derived rate jitters, and a last digit that never
/// settles is one you stop reading.
pub fn rate_text(mfpm: i64) -> (r: Option<String>)
    requires
        -LARGEST_VALUE <= mfpm <= LARGEST_VALUE,
    ensures
        match r {
            Some(text) => rate_figure(mfpm as int) == Some(text@),
            None => rate_figure(mfpm as int) is None,
        },
{
    let size: i64 = if mfpm < 0 {
        -mfpm
    } else {
        mfpm
    };
    let n: i64 = 50 * ((size + 25_000) / 50_000);
    if n == 0 {
        return None;
    }
    let mut out: String = String::new();
    if mfpm < 0 {
        out.append("-");
    } else {
        out.append("+");
    }
    push_decimal(&mut out, n as u64);
    assert(mfpm < 0 ==> out@ =~= "-"@ + decimal(n as nat));
    assert(mfpm >= 0 ==> out@ =~= "+"@ + decimal(n as nat));
    Some(out)
}

/// The bar from zero to a rate: its top and its height. Length and direction are both apparent
/// without resolving where a thin pointer is sitting.
pub fn rate_bar(vsi: &Vsi, mfpm: i64) -> (r: (i64, i64))
    requires
        vsi.wf(),
        -LARGEST_VALUE <= mfpm <= LARGEST_VALUE,
    ensures
        r.0 == if vsi.place(mfpm as int) < vsi.middle() {
            vsi.place(mfpm as int)
        } else {
            vsi.middle()
        },
        r.1 == if vsi.place(mfpm as int) < vsi.middle() {
            vsi.middle() - vsi.place(mfpm as int)
        } else {
            vsi.place(mfpm as int) - vsi.middle()
        },
{
    let y: i64 = vsi.y_for(mfpm);
    let middle: i64 = vsi.centre_y();
    if y < middle {
        (y, middle - y)
    } else {
        (middle, y - middle)
    }
}

// --- the picture ---------------------------------------------------------------------------

/// The multiples of an interval from `low` to `high`, ascending.
pub open spec fn multiples(low: int, high: int, every: int) -> Seq<i64> {
    let first = first_at(low, every);
    Seq::new(
        larger(high / every - first + 1, 0) as nat,
        |k: int| ((first + k) * every) as i64,
    )
}

/// A list that holds all of them holds nothing else.
proof fn multiples_are_these(list: Seq<i64>, low: int, high: int, every: int)
    requires
        0 < every,
        are_multiples(list, low, high, every),
    ensures
        list == multiples(low, high, every),
{
    let first = first_at(low, every);
    let n = list.len() as int;
    let q = first + n - 1;
    if n > 0 {
        assert(list[n - 1] == (first + (n - 1)) * every);
        assert(list[n - 1] <= high);
        assert(high == every * q + (high - every * q) && 0 <= high - every * q < every)
            by (nonlinear_arith)
            requires
                q * every <= high,
                (q + 1) * every > high,
        ;
        vstd::arithmetic::div_mod::lemma_fundamental_div_mod_converse(
            high,
            every,
            q,
            high - every * q,
        );
    } else {
        vstd::arithmetic::div_mod::lemma_fundamental_div_mod(high, every);
        let h = high / every;
        assert(h < first) by (nonlinear_arith)
            requires
                first * every > high,
                high == every * h + high % every,
                high % every >= 0,
                0 < every,
        ;
    }
    assert(list =~= multiples(low, high, every));
}

impl Tape {
    /// The values with a labelled tick.
    pub open spec fn majors(self, current: int) -> Seq<i64> {
        multiples(self.lowest(current), self.highest(current), self.major as int)
    }

    /// The values with an unlabelled tick.
    pub open spec fn minors(self, current: int) -> Seq<i64> {
        not_on(
            multiples(self.lowest(current), self.highest(current), self.minor as int),
            self.major as int,
        )
    }

    /// The edge the scale starts from: the one nearest the attitude.
    pub open spec fn edge(self) -> int {
        match self.side {
            Side::Left => self.x + self.width,
            Side::Right => self.x as int,
        }
    }

    /// A point this far from that edge, into the tape.
    pub open spec fn inside(self, by: int) -> int {
        match self.side {
            Side::Left => self.x + self.width - by,
            Side::Right => self.x + by,
        }
    }

    fn inwards(&self, by: i64) -> (r: i64)
        requires
            self.wf(),
            0 <= by <= LONGEST_SIDE,
        ensures
            r == self.inside(by as int),
    {
        match self.side {
            Side::Left => self.x + self.width - by,
            Side::Right => self.x + by,
        }
    }

    /// The side of a text that is against the scale.
    pub open spec fn text_align(self) -> Align {
        match self.side {
            Side::Left => Align::Right,
            Side::Right => Align::Left,
        }
    }
}

/// Ticks of a length from the edge of a tape.
pub open spec fn tick_marks(
    tape: Tape,
    values: Seq<i64>,
    n: int,
    current: int,
    length: int,
    colour: Color,
    width: int,
) -> Seq<Painted> {
    Seq::new(
        n as nat,
        |k: int|
            stroke(
                (tape.edge(), tape.place(values[k] as int, current)),
                (tape.inside(length), tape.place(values[k] as int, current)),
                colour,
                width,
            ),
    )
}

/// Whether values are ones a tape can place.
pub open spec fn placeable(values: Seq<i64>) -> bool {
    forall|k: int|
        0 <= k < values.len() ==> -2 * LARGEST_VALUE <= #[trigger] values[k] <= 2 * LARGEST_VALUE
}

fn put_ticks(
    out: &mut Vec<Mark>,
    tape: &Tape,
    values: &Vec<i64>,
    current: i64,
    length: i64,
    colour: Color,
    width: i64,
)
    requires
        tape.wf(),
        placeable(values@),
        -LARGEST_VALUE <= current <= LARGEST_VALUE,
        0 <= length <= LONGEST_SIDE,
    ensures
        drawn(final(out)@) == drawn(old(out)@) + tick_marks(
            *tape,
            values@,
            values@.len() as int,
            current as int,
            length as int,
            colour,
            width as int,
        ),
{
    let ghost was = drawn(out@);
    let mut k: usize = 0;
    assert(drawn(out@) =~= was + tick_marks(
        *tape,
        values@,
        0,
        current as int,
        length as int,
        colour,
        width as int,
    ));
    while k < values.len()
        invariant
            k <= values.len(),
            tape.wf(),
            placeable(values@),
            -LARGEST_VALUE <= current <= LARGEST_VALUE,
            0 <= length <= LONGEST_SIDE,
            drawn(out@) == was + tick_marks(
                *tape,
                values@,
                k as int,
                current as int,
                length as int,
                colour,
                width as int,
            ),
        decreases values.len() - k,
    {
        assert(-2 * LARGEST_VALUE <= values@[k as int] <= 2 * LARGEST_VALUE);
        let y: i64 = tape.y_for(values[k], current);
        put_line(out, (tape.inwards(0), y), (tape.inwards(length), y), colour, width);
        k = k + 1;
        assert(drawn(out@) =~= was + tick_marks(
            *tape,
            values@,
            k as int,
            current as int,
            length as int,
            colour,
            width as int,
        ));
    }
}

/// The labels of the first `n` labelled ticks.
pub open spec fn number_marks(
    tape: Tape,
    values: Seq<i64>,
    n: int,
    current: int,
    theme: Theme,
) -> Seq<Painted> {
    Seq::new(
        n as nat,
        |k: int|
            text_at(
                tape.inside(12_000),
                tape.place(values[k] as int, current),
                rounded(values[k] as int, 1000),
                Style {
                    colour: theme.text_primary,
                    size: theme.font_size_small,
                    align: tape.text_align(),
                    baseline: Baseline::Middle,
                },
            ),
    )
}

/// The scale of a tape, clipped short of its caption: a scale label sliding through the caption
/// would make both unreadable at exactly the moment the value is changing.
pub open spec fn scale_marks(tape: Tape, current: int, theme: Theme) -> Seq<Painted> {
    let majors = tape.majors(current);
    let minors = tape.minors(current);
    seq![
        Painted::Clip {
            x: tape.x as int,
            y: tape.top as int,
            w: tape.width as int,
            h: larger(tape.bottom - tape.top - theme.font_size_tag * 17 / 10, 1_000),
        },
    ] + tick_marks(tape, minors, minors.len() as int, current, 4_400, theme.text_dim, 1_000)
        + number_marks(tape, majors, majors.len() as int, current, theme) + tick_marks(
        tape,
        majors,
        majors.len() as int,
        current,
        8_000,
        theme.text_secondary,
        1_400,
    ) + seq![Painted::Unclip]
}

proof fn multiples_are_placeable(tape: Tape, list: Seq<i64>, current: int, every: int)
    requires
        tape.wf(),
        -LARGEST_VALUE <= current <= LARGEST_VALUE,
        0 < every,
        are_multiples(list, tape.lowest(current), tape.highest(current), every),
    ensures
        placeable(list),
{
    tape.span_is_modest();
    let low = tape.lowest(current);
    let first = first_at(low, every);
    vstd::arithmetic::div_mod::lemma_fundamental_div_mod(-low, every);
    let q = (-low) / every;
    assert forall|k: int| 0 <= k < list.len() implies -2 * LARGEST_VALUE <= #[trigger] list[k] <= 2
        * LARGEST_VALUE by {
        assert(list[k] <= tape.highest(current));
        assert((first + k) * every >= low) by (nonlinear_arith)
            requires
                first == -q,
                -low == every * q + (-low) % every,
                (-low) % every >= 0,
                0 <= k,
                0 < every,
        ;
    }
}

proof fn what_is_left_is_placeable(list: Seq<i64>, every: int)
    requires
        placeable(list),
    ensures
        placeable(not_on(list, every)),
    decreases list.len(),
{
    if list.len() > 0 {
        assert(placeable(list.drop_last())) by {
            assert forall|k: int| 0 <= k < list.drop_last().len() implies -2 * LARGEST_VALUE
                <= #[trigger] list.drop_last()[k] <= 2 * LARGEST_VALUE by {
                assert(list.drop_last()[k] == list[k]);
            }
        }
        what_is_left_is_placeable(list.drop_last(), every);
        assert(-2 * LARGEST_VALUE <= list[list.len() - 1] <= 2 * LARGEST_VALUE);
    }
}

fn draw_scale(tape: &Tape, current: i64, theme: &Theme) -> (r: Vec<Mark>)
    requires
        tape.wf(),
        theme.sizes_ok(),
        -LARGEST_VALUE <= current <= LARGEST_VALUE,
    ensures
        drawn(r@) == scale_marks(*tape, current as int, *theme),
{
    let mut out: Vec<Mark> = nothing();
    let area: Area = Area {
        x: tape.x,
        y: tape.top,
        w: tape.width,
        h: scale_height(tape, theme),
    };
    put(&mut out, Mark::Clip { area });
    let minors: Vec<i64> = tape.minor_ticks(current);
    let majors: Vec<i64> = tape.major_ticks(current);
    proof {
        let (low, high) = (tape.lowest(current as int), tape.highest(current as int));
        multiples_are_these(majors@, low, high, tape.major as int);
        multiples_are_placeable(*tape, majors@, current as int, tape.major as int);
        let all = choose|all: Seq<i64>| #[trigger]
            are_multiples(all, low, high, tape.minor as int) && minors@ == not_on(
                all,
                tape.major as int,
            );
        multiples_are_these(all, low, high, tape.minor as int);
        multiples_are_placeable(*tape, all, current as int, tape.minor as int);
        what_is_left_is_placeable(all, tape.major as int);
    }
    // Unlabelled ticks first, so a labelled one drawn over one wins.
    put_ticks(&mut out, tape, &minors, current, 4_400, theme.text_dim, 1_000);
    let ghost before = drawn(out@);
    let style: Style = Style::new(
        theme.text_primary,
        theme.font_size_small,
        match tape.side {
            Side::Left => Align::Right,
            Side::Right => Align::Left,
        },
        Baseline::Middle,
    );
    let mut k: usize = 0;
    assert(drawn(out@) =~= before + number_marks(*tape, majors@, 0, current as int, *theme));
    while k < majors.len()
        invariant
            k <= majors.len(),
            tape.wf(),
            placeable(majors@),
            -LARGEST_VALUE <= current <= LARGEST_VALUE,
            style == (Style {
                colour: theme.text_primary,
                size: theme.font_size_small,
                align: tape.text_align(),
                baseline: Baseline::Middle,
            }),
            drawn(out@) == before + number_marks(
                *tape,
                majors@,
                k as int,
                current as int,
                *theme,
            ),
        decreases majors.len() - k,
    {
        assert(-2 * LARGEST_VALUE <= majors@[k as int] <= 2 * LARGEST_VALUE);
        let y: i64 = tape.y_for(majors[k], current);
        let text: String = value_text(majors[k]);
        put_text(&mut out, tape.inwards(12_000), y, text.as_str(), style);
        k = k + 1;
        assert(drawn(out@) =~= before + number_marks(
            *tape,
            majors@,
            k as int,
            current as int,
            *theme,
        ));
    }
    put_ticks(&mut out, tape, &majors, current, 8_000, theme.text_secondary, 1_400);
    put(&mut out, Mark::Unclip);
    assert(drawn(out@) =~= scale_marks(*tape, current as int, *theme));
    out
}

/// The corners of the readout, its chevron pointing at the scale.
pub open spec fn box_points(tape: Tape, theme: Theme) -> Seq<(i64, i64)> {
    let y = tape.middle() as i64;
    let up = (tape.middle() - theme.font_size_large * 75 / 100) as i64;
    let down = (tape.middle() + theme.font_size_large * 75 / 100) as i64;
    match tape.side {
        Side::Left => {
            let (x0, x1) = ((tape.x - 2_000) as i64, (tape.x + tape.width + 4_000) as i64);
            seq![(x0, up), (x1, up), ((x1 + 7_000) as i64, y), (x1, down), (x0, down)]
        },
        Side::Right => {
            let (x0, x1) = ((tape.x - 4_000) as i64, (tape.x + tape.width + 2_000) as i64);
            seq![(x0, up), (x1, up), (x1, down), (x0, down), ((x0 - 7_000) as i64, y)]
        },
    }
}

/// What a readout is filled with, so that the figure in it is legible over anything.
pub open spec fn readout_fill() -> Color {
    Color::of_bytes(0, 0, 0, 235)
}

/// The fixed digital readout.
pub open spec fn readout_marks(tape: Tape, current: int, theme: Theme) -> Seq<Painted> {
    seq![
        Painted::Shape { points: box_points(tape, theme), colour: readout_fill() },
        Painted::Outline {
            points: box_points(tape, theme),
            colour: theme.text_primary,
            width: 1_600,
        },
        text_at(
            match tape.side {
                Side::Left => tape.x + tape.width,
                Side::Right => tape.x as int,
            },
            tape.middle(),
            rounded(current, 1000),
            Style {
                colour: theme.text_primary,
                size: theme.font_size_large,
                align: tape.text_align(),
                baseline: Baseline::Middle,
            },
        ),
    ]
}

fn readout_points(tape: &Tape, theme: &Theme) -> (r: Vec<(i64, i64)>)
    requires
        tape.wf(),
        theme.sizes_ok(),
    ensures
        r@ == box_points(*tape, *theme),
{
    let b: ValueBox = value_box(tape, theme);
    let y: i64 = tape.centre_y();
    let mut r: Vec<(i64, i64)> = Vec::new();
    r.push((b.x0, b.y0));
    r.push((b.x1, b.y0));
    match tape.side {
        Side::Left => r.push((b.point_x, y)),
        Side::Right => {},
    }
    r.push((b.x1, b.y1));
    r.push((b.x0, b.y1));
    match tape.side {
        Side::Left => {},
        Side::Right => r.push((b.point_x, y)),
    }
    assert(r@ =~= box_points(*tape, *theme));
    r
}

fn draw_value_box(tape: &Tape, current: i64, theme: &Theme) -> (r: Vec<Mark>)
    requires
        tape.wf(),
        theme.sizes_ok(),
    ensures
        drawn(r@) == readout_marks(*tape, current as int, *theme),
{
    let b: ValueBox = value_box(tape, theme);
    let mut out: Vec<Mark> = nothing();
    put(
        &mut out,
        Mark::Shape { points: readout_points(tape, theme), colour: Color::rgba(0, 0, 0, 235) },
    );
    put(
        &mut out,
        Mark::Outline {
            points: readout_points(tape, theme),
            colour: theme.text_primary,
            width: 1_600,
        },
    );
    let align: Align = if b.right_aligned {
        Align::Right
    } else {
        Align::Left
    };
    let style: Style = Style::new(
        theme.text_primary,
        theme.font_size_large,
        align,
        Baseline::Middle,
    );
    let text: String = value_text(current);
    put_text(&mut out, b.text_x, tape.centre_y(), text.as_str(), style);
    assert(drawn(out@) =~= readout_marks(*tape, current as int, *theme));
    out
}

/// A tape's frame: a panel translucent enough that the horizon stays readable behind it, and a rule
/// down the edge nearest the attitude.
pub open spec fn frame_marks(tape: Tape, theme: Theme) -> Seq<Painted> {
    seq![
        block(
            tape.x as int,
            tape.top as int,
            tape.width as int,
            tape.bottom - tape.top,
            faded_by(theme.background, 55),
        ),
        stroke(
            (tape.edge(), tape.top as int),
            (tape.edge(), tape.bottom as int),
            theme.text_dim,
            1_000,
        ),
    ]
}

/// A tape, captioned. Without a value it has no scale and no box, and says so.
pub open spec fn tape_marks(
    tape: Tape,
    label: Seq<char>,
    value: Option<int>,
    theme: Theme,
) -> Seq<Painted> {
    let caption = text_at(
        tape.x + tape.width as int / 2,
        tape.bottom - 3_000,
        label,
        Style {
            colour: theme.text_dim,
            size: theme.font_size_tag,
            align: Align::Center,
            baseline: Baseline::Bottom,
        },
    );
    match value {
        Some(current) => frame_marks(tape, theme) + scale_marks(tape, current, theme) + seq![
            caption,
        ] + readout_marks(tape, current, theme),
        None => frame_marks(tape, theme) + seq![
            caption,
            text_at(
                tape.x + tape.width as int / 2,
                tape.middle(),
                "NO DATA"@,
                Style {
                    colour: theme.warning,
                    size: theme.font_size_small,
                    align: Align::Center,
                    baseline: Baseline::Middle,
                },
            ),
        ],
    }
}

/// A value that may be there, as a number.
pub open spec fn known(value: Option<i64>) -> Option<int> {
    match value {
        Some(value) => Some(value as int),
        None => None,
    }
}

/// Draw a tape. `None` means no reading: the scale and the box are omitted entirely.
pub fn draw(tape: &Tape, label: &str, value: Option<i64>, theme: &Theme) -> (r: Vec<Mark>)
    requires
        tape.wf(),
        theme.sizes_ok(),
        value matches Some(value) ==> -LARGEST_VALUE <= value <= LARGEST_VALUE,
    ensures
        drawn(r@) == tape_marks(*tape, label@, known(value), *theme),
{
    let mut out: Vec<Mark> = nothing();
    put_fill(
        &mut out,
        tape.x,
        tape.top,
        tape.width,
        tape.bottom - tape.top,
        faded(theme.background, 55),
    );
    let edge: i64 = tape.inwards(0);
    put_line(&mut out, (edge, tape.top), (edge, tape.bottom), theme.text_dim, 1_000);
    assert(drawn(out@) =~= frame_marks(*tape, *theme));
    if let Some(current) = value {
        put_all(&mut out, draw_scale(tape, current, theme));
    }
    let middle: i64 = tape.x + tape.width / 2;
    let style: Style = Style::new(
        theme.text_dim,
        theme.font_size_tag,
        Align::Center,
        Baseline::Bottom,
    );
    put_text(&mut out, middle, tape.bottom - 3_000, label, style);
    match value {
        Some(current) => put_all(&mut out, draw_value_box(tape, current, theme)),
        None => {
            let style: Style = Style::new(
                theme.warning,
                theme.font_size_small,
                Align::Center,
                Baseline::Middle,
            );
            put_text(&mut out, middle, tape.centre_y(), "NO DATA", style);
        },
    }
    assert(drawn(out@) =~= tape_marks(*tape, label@, known(value), *theme));
    out
}

/// The labels of the first `n` ticks of the vertical-speed scale; most have none.
pub open spec fn rate_numbers(vsi: Vsi, n: int, theme: Theme) -> Seq<Painted>
    decreases n,
{
    if n <= 0 {
        seq![]
    } else {
        rate_numbers(vsi, n - 1, theme) + match vsi.tick(n - 1).label {
            Some(thousands) => seq![
                text_at(
                    vsi.x + 12_000,
                    vsi.tick(n - 1).y as int,
                    decimal(thousands as nat),
                    Style {
                        colour: theme.text_secondary,
                        size: theme.font_size_tag,
                        align: Align::Left,
                        baseline: Baseline::Middle,
                    },
                ),
            ],
            None => seq![],
        }
    }
}

/// The first `n` ticks of the vertical-speed scale.
pub open spec fn rate_ticks(vsi: Vsi, n: int, theme: Theme) -> Seq<Painted> {
    Seq::new(
        n as nat,
        |k: int|
            stroke(
                (vsi.x as int, vsi.tick(k).y as int),
                (vsi.x + vsi.tick(k).length, vsi.tick(k).y as int),
                theme.text_dim,
                1_200,
            ),
    )
}

/// The strip without a rate: its frame, its scale, the zero line and its caption.
pub open spec fn strip_marks(vsi: Vsi, theme: Theme) -> Seq<Painted> {
    let n = vsi.full_scale * 2 / 500 + 1;
    seq![
        block(
            vsi.x as int,
            vsi.top as int,
            vsi.width as int,
            vsi.bottom - vsi.top,
            faded_by(theme.background, 55),
        ),
        stroke(
            (vsi.x as int, vsi.top as int),
            (vsi.x as int, vsi.bottom as int),
            theme.text_dim,
            1_000,
        ),
    ] + rate_numbers(vsi, n, theme) + rate_ticks(vsi, n, theme) + seq![
        stroke(
            (vsi.x as int, vsi.middle()),
            (vsi.x + vsi.width, vsi.middle()),
            theme.text_secondary,
            1_000,
        ),
        text_at(
            vsi.x + vsi.width as int / 2,
            vsi.bottom - 3_000,
            "VS"@,
            Style {
                colour: theme.text_dim,
                size: theme.font_size_tag,
                align: Align::Center,
                baseline: Baseline::Bottom,
            },
        ),
    ]
}

fn draw_strip(vsi: &Vsi, theme: &Theme) -> (r: Vec<Mark>)
    requires
        vsi.wf(),
    ensures
        drawn(r@) == strip_marks(*vsi, *theme),
{
    let mut out: Vec<Mark> = nothing();
    put_fill(
        &mut out,
        vsi.x,
        vsi.top,
        vsi.width,
        vsi.bottom - vsi.top,
        faded(theme.background, 55),
    );
    put_line(&mut out, (vsi.x, vsi.top), (vsi.x, vsi.bottom), theme.text_dim, 1_000);
    let ghost frame = drawn(out@);
    let ticks: Vec<VsiTick> = vsi.ticks();
    let style: Style = Style::new(
        theme.text_secondary,
        theme.font_size_tag,
        Align::Left,
        Baseline::Middle,
    );
    let mut k: usize = 0;
    assert(drawn(out@) =~= frame + rate_numbers(*vsi, 0, *theme));
    while k < ticks.len()
        invariant
            k <= ticks.len(),
            vsi.wf(),
            forall|k: int| 0 <= k < ticks@.len() ==> #[trigger] ticks@[k] == vsi.tick(k),
            style == (Style {
                colour: theme.text_secondary,
                size: theme.font_size_tag,
                align: Align::Left,
                baseline: Baseline::Middle,
            }),
            drawn(out@) == frame + rate_numbers(*vsi, k as int, *theme),
        decreases ticks.len() - k,
    {
        let tick: VsiTick = ticks[k];
        if let Some(thousands) = tick.label {
            let mut text: String = String::new();
            push_decimal(&mut text, thousands);
            assert(text@ =~= decimal(thousands as nat));
            put_text(&mut out, vsi.x + 12_000, tick.y, text.as_str(), style);
        }
        k = k + 1;
        assert(drawn(out@) =~= frame + rate_numbers(*vsi, k as int, *theme));
    }
    let ghost numbered = drawn(out@);
    let mut k: usize = 0;
    assert(drawn(out@) =~= numbered + rate_ticks(*vsi, 0, *theme));
    while k < ticks.len()
        invariant
            k <= ticks.len(),
            vsi.wf(),
            forall|k: int| 0 <= k < ticks@.len() ==> #[trigger] ticks@[k] == vsi.tick(k),
            drawn(out@) == numbered + rate_ticks(*vsi, k as int, *theme),
        decreases ticks.len() - k,
    {
        let tick: VsiTick = ticks[k];
        assert(ticks@[k as int] == vsi.tick(k as int));
        put_line(
            &mut out,
            (vsi.x, tick.y),
            (vsi.x + tick.length, tick.y),
            theme.text_dim,
            1_200,
        );
        k = k + 1;
        assert(drawn(out@) =~= numbered + rate_ticks(*vsi, k as int, *theme));
    }
    let middle: i64 = vsi.centre_y();
    put_line(
        &mut out,
        (vsi.x, middle),
        (vsi.x + vsi.width, middle),
        theme.text_secondary,
        1_000,
    );
    let style: Style = Style::new(
        theme.text_dim,
        theme.font_size_tag,
        Align::Center,
        Baseline::Bottom,
    );
    put_text(&mut out, vsi.x + vsi.width / 2, vsi.bottom - 3_000, "VS", style);
    assert(drawn(out@) =~= strip_marks(*vsi, *theme));
    out
}

/// The bar from zero to a rate, the pointer at it, and its figure.
pub open spec fn rate_marks(vsi: Vsi, mfpm: int, theme: Theme) -> Seq<Painted> {
    let y = vsi.place(mfpm);
    let (top, bottom) = if y < vsi.middle() {
        (y, vsi.middle())
    } else {
        (vsi.middle(), y)
    };
    seq![
        block(vsi.x + 1_000, top, 4_000, bottom - top, theme.good),
        Painted::Shape {
            points: seq![
                (vsi.x, y as i64),
                ((vsi.x + 9_000) as i64, (y - 5_000) as i64),
                ((vsi.x + 9_000) as i64, (y + 5_000) as i64),
            ],
            colour: theme.text_primary,
        },
    ] + match rate_figure(mfpm) {
        Some(text) => seq![
            text_at(
                vsi.x + vsi.width as int / 2,
                if mfpm >= 0 {
                    vsi.top + 14_000
                } else {
                    vsi.bottom - 16_000
                },
                text,
                Style {
                    colour: theme.text_primary,
                    size: theme.font_size_small,
                    align: Align::Center,
                    baseline: if mfpm >= 0 {
                        Baseline::Bottom
                    } else {
                        Baseline::Top
                    },
                },
            ),
        ],
        None => seq![],
    }
}

/// The strip. Without a rate it has its scale, and dashes where the pointer would be.
pub open spec fn vsi_marks(vsi: Vsi, rate: Option<int>, theme: Theme) -> Seq<Painted> {
    strip_marks(vsi, theme) + match rate {
        Some(rate) => rate_marks(vsi, rate, theme),
        None => seq![
            text_at(
                vsi.x + vsi.width as int / 2,
                vsi.middle(),
                "--"@,
                Style {
                    colour: theme.warning,
                    size: theme.font_size_tag,
                    align: Align::Center,
                    baseline: Baseline::Middle,
                },
            ),
        ],
    }
}

/// Draw the vertical-speed strip: a fixed scale with a moving pointer, unlike the sliding tapes, so
/// that "level" is at a constant position.
pub fn draw_vsi(vsi: &Vsi, rate: Option<i64>, theme: &Theme) -> (r: Vec<Mark>)
    requires
        vsi.wf(),
        rate matches Some(rate) ==> -LARGEST_VALUE <= rate <= LARGEST_VALUE,
    ensures
        drawn(r@) == vsi_marks(*vsi, known(rate), *theme),
{
    let mut out: Vec<Mark> = draw_strip(vsi, theme);
    let middle: i64 = vsi.x + vsi.width / 2;
    match rate {
        None => {
            let style: Style = Style::new(
                theme.warning,
                theme.font_size_tag,
                Align::Center,
                Baseline::Middle,
            );
            put_text(&mut out, middle, vsi.centre_y(), "--", style);
        },
        Some(rate) => {
            let (top, height) = rate_bar(vsi, rate);
            put_fill(&mut out, vsi.x + 1_000, top, 4_000, height, theme.good);
            let y: i64 = vsi.y_for(rate);
            let mut points: Vec<(i64, i64)> = Vec::new();
            points.push((vsi.x, y));
            points.push((vsi.x + 9_000, y - 5_000));
            points.push((vsi.x + 9_000, y + 5_000));
            assert(points@ =~= seq![
                (vsi.x, y),
                ((vsi.x + 9_000) as i64, (y - 5_000) as i64),
                ((vsi.x + 9_000) as i64, (y + 5_000) as i64),
            ]);
            put(&mut out, Mark::Shape { points, colour: theme.text_primary });
            if let Some(figure) = rate_text(rate) {
                let (at, baseline) = if rate >= 0 {
                    (vsi.top + 14_000, Baseline::Bottom)
                } else {
                    (vsi.bottom - 16_000, Baseline::Top)
                };
                let style: Style = Style::new(
                    theme.text_primary,
                    theme.font_size_small,
                    Align::Center,
                    baseline,
                );
                put_text(&mut out, middle, at, figure.as_str(), style);
            }
        },
    }
    assert(drawn(out@) =~= vsi_marks(*vsi, known(rate), *theme));
    out
}

// --- laws ----------------------------------------------------------------------------------

/// A tape without a reading shows no figure: the only words on it are its caption and that there is
/// no data. One that read zero instead would look exactly like a working instrument.
pub proof fn a_blank_tape_shows_no_figure(tape: Tape, label: Seq<char>, theme: Theme, k: int)
    requires
        0 <= k < tape_marks(tape, label, None, theme).len(),
    ensures
        tape_marks(tape, label, None, theme)[k] matches Painted::Text { text, .. } ==> text == label
            || text == "NO DATA"@,
        tape_marks(tape, label, None, theme).last() matches Painted::Text { text, .. } && text
            == "NO DATA"@,
{
    let marks = tape_marks(tape, label, None, theme);
    assert(marks.len() == 4);
    assert(marks[0] is Fill && marks[1] is Line);
}

/// The current value sits at the pointer, and higher values are never lower on screen.
pub proof fn higher_values_are_higher_on_screen(tape: Tape, value: int, other: int, current: int)
    requires
        tape.wf(),
        value <= other,
    ensures
        tape.place(current, current) == tape.middle(),
        tape.place(other, current) <= tape.place(value, current),
{
    let d = tape.units_per_px as int;
    vstd::arithmetic::div_mod::lemma_div_is_ordered(
        (value - current) * 1000,
        (other - current) * 1000,
        d,
    );
    assert((current - current) * 1000 == 0);
    assert(0int / d == 0) by (nonlinear_arith)
        requires
            d > 0,
    ;
}

/// On a strip high enough for its scale a climb deflects upward, a descent by as much downward, and
/// nothing runs off the strip.
pub proof fn the_pointer_stays_on_the_strip(vsi: Vsi, mfpm: int)
    requires
        vsi.wf(),
        vsi.has_room(),
        mfpm >= 0,
    ensures
        vsi.place(0) == vsi.middle(),
        vsi.place(mfpm) <= vsi.middle() <= vsi.place(-mfpm),
        vsi.middle() - vsi.place(mfpm) == vsi.place(-mfpm) - vsi.middle(),
        0 <= vsi.deflection(mfpm) <= vsi.reach(),
        mfpm >= vsi.full_scale * 1000 ==> vsi.deflection(mfpm) == vsi.reach(),
{
    if mfpm < vsi.full_scale * 1000 {
        shares_are_parts(vsi.reach(), mfpm, vsi.full_scale * 1000);
    }
    assert(vsi.reach() * 0 == 0);
}

/// A pixel of scale is so many units of value: what is that many units above the current value is that
/// many pixels above the pointer.
pub proof fn the_scale_is_even(tape: Tape, current: int, pixels: int)
    requires
        tape.wf(),
    ensures
        tape.place(current + pixels * tape.units_per_px, current) == tape.middle() - 1000 * pixels,
        -2 < 2 * tape.middle() - (tape.top + tape.bottom) < 2,
{
    let d = tape.units_per_px as int;
    let n = (current + pixels * d - current) * 1000;
    assert(n == (1000 * pixels) * d) by (nonlinear_arith)
        requires
            n == (current + pixels * d - current) * 1000,
    ;
    vstd::arithmetic::div_mod::lemma_div_multiples_vanish(1000 * pixels, d);
    assert(d * (1000 * pixels) == (1000 * pixels) * d) by (nonlinear_arith);
    shares_are_near(tape.top + tape.bottom, 1, 2);
}

/// The marks of a scale are its multiples: each is one, they follow each other without a gap, and none
/// between the ends is missing.
pub proof fn scales_are_marked_at_multiples(low: int, high: int, every: int, v: int)
    requires
        0 < every,
        i64::MIN <= low <= high <= i64::MAX,
    ensures
        ({
            let list = multiples(low, high, every);
            &&& forall|k: int|
                0 <= k < list.len() ==> (#[trigger] list[k]) as int % every == 0 && low <= list[k]
                    <= high
            &&& forall|k: int| 0 < k < list.len() ==> #[trigger] list[k] == list[k - 1] + every
            &&& low <= v <= high && v % every == 0 ==> list.contains(v as i64)
        }),
{
    let list = multiples(low, high, every);
    let first = first_at(low, every);
    vstd::arithmetic::div_mod::lemma_fundamental_div_mod(-low, every);
    vstd::arithmetic::div_mod::lemma_mod_bound(-low, every);
    vstd::arithmetic::div_mod::lemma_fundamental_div_mod(high, every);
    vstd::arithmetic::div_mod::lemma_mod_bound(high, every);
    assert(first * every == -(every * ((-low) / every))) by (nonlinear_arith)
        requires
            first == -((-low) / every),
    ;
    let top = high / every;
    assert(top * every == every * top) by (nonlinear_arith);
    assert forall|k: int| 0 <= k < list.len() implies (first + k) * every == #[trigger] list[k]
        && low <= (first + k) * every <= high && ((first + k) * every) % every == 0 by {
        let m = first + k;
        assert(first * every <= m * every <= top * every) by (nonlinear_arith)
            requires
                first <= m <= top,
                0 < every,
        ;
        vstd::arithmetic::div_mod::lemma_mod_multiples_basic(m, every);
    }
    assert forall|k: int| 0 < k < list.len() implies #[trigger] list[k] == list[k - 1] + every by {
        assert((first + k) * every == (first + k - 1) * every + every) by (nonlinear_arith);
        assert(list[k - 1] == (first + (k - 1)) * every);
    }
    if low <= v <= high && v % every == 0 {
        vstd::arithmetic::div_mod::lemma_fundamental_div_mod(v, every);
        let m = v / every;
        assert(v == m * every) by (nonlinear_arith)
            requires
                v == every * m,
        ;
        assert(first <= m) by (nonlinear_arith)
            requires
                low <= m * every,
                first * every < low + every,
                0 < every,
        ;
        assert(m <= top) by (nonlinear_arith)
            requires
                m * every <= high,
                high < top * every + every,
                0 < every,
        ;
        assert(list[m - first] == v);
    }
}

/// Of a list, what is left when the multiples are taken out is what is not a multiple, and all of it.
pub proof fn what_is_not_on_a_multiple_stays(list: Seq<i64>, every: int, v: i64)
    ensures
        not_on(list, every).contains(v) <==> list.contains(v) && v as int % every != 0,
    decreases list.len(),
{
    if list.len() > 0 {
        let front = list.drop_last();
        what_is_not_on_a_multiple_stays(front, every, v);
        let rest = not_on(front, every);
        let all = not_on(list, every);
        assert(list =~= front.push(list.last()));
        if list.contains(v) {
            let k = choose|k: int| 0 <= k < list.len() && list[k] == v;
            if k < front.len() {
                assert(front[k] == v);
            }
        }
        if front.contains(v) {
            let k = choose|k: int| 0 <= k < front.len() && front[k] == v;
            assert(list[k] == v);
        }
        if rest.contains(v) {
            let k = choose|k: int| 0 <= k < rest.len() && rest[k] == v;
            assert(all[k] == v);
        }
        if list.last() as int % every != 0 {
            assert(all[all.len() - 1] == list.last());
            assert(list[list.len() - 1] == list.last());
            if all.contains(v) {
                let k = choose|k: int| 0 <= k < all.len() && all[k] == v;
                if k < rest.len() {
                    assert(rest[k] == v);
                }
            }
        }
    } else {
        assert(not_on(list, every).len() == 0);
    }
}

/// Each number stands at the height of its own value, and each tick too, from the edge of the tape that
/// the box points past inward.
pub proof fn numbers_stand_at_their_values(
    tape: Tape,
    values: Seq<i64>,
    k: int,
    current: int,
    length: int,
    colour: Color,
    width: int,
    theme: Theme,
)
    requires
        0 <= k < values.len(),
        0 < length,
    ensures
        ({
            let number = number_marks(tape, values, values.len() as int, current, theme)[k];
            let tick = tick_marks(
                tape,
                values,
                values.len() as int,
                current,
                length,
                colour,
                width,
            )[k];
            let y = tape.place(values[k] as int, current);
            &&& number is Text && number->Text_y == y
            &&& values[k] >= 0 ==> number->text == decimal(nearest(values[k] as nat, 1000))
            &&& values[k] < 0 ==> number->text == "-"@ + decimal(nearest((-values[k]) as nat, 1000))
            &&& tick is Line && tick->from.1 == y && tick->to.1 == y
            &&& tape.side == Side::Left ==> tick->from.0 == tape.x + tape.width && tick->to.0
                == tick->from.0 - length && number->Text_x < tick->from.0
                && number->style.align == Align::Right
            &&& tape.side == Side::Right ==> tick->from.0 == tape.x && tick->to.0 == tick->from.0
                + length && number->Text_x > tick->from.0 && number->style.align == Align::Left
            &&& tick->Line_colour == colour
        }),
{
}

/// The box shows the current value at the pointer, which never moves: half way down the tape, pointing
/// at the attitude, to the right from a tape on the left and to the left from one on the right.
pub proof fn the_box_shows_the_current_value(
    tape: Tape,
    label: Seq<char>,
    current: int,
    theme: Theme,
)
    requires
        tape.wf(),
        1_000 <= theme.font_size_large <= LONGEST_SIDE,
    ensures
        ({
            let marks = tape_marks(tape, label, Some(current), theme);
            let n = marks.len();
            let (shape, text) = (marks[n - 3], marks[n - 1]);
            let points = shape->Shape_points;
            &&& n >= 4
            &&& text is Text && text->Text_y == tape.middle()
            &&& current >= 0 ==> text->text == decimal(nearest(current as nat, 1000))
            &&& current < 0 ==> text->text == "-"@ + decimal(nearest((-current) as nat, 1000))
            &&& text->style.colour == theme.text_primary
            &&& shape is Shape && shape->Shape_colour == (Color { r: 0, g: 0, b: 0, a: 23_500 })
            &&& points.len() == 5
            &&& tape.side == Side::Left ==> points[2].1 == tape.middle() && forall|k: int|
                0 <= k < 5 && k != 2 ==> (#[trigger] points[k]).0 < points[2].0 && points[k].1
                    != points[2].1
            &&& tape.side == Side::Right ==> points[4].1 == tape.middle() && forall|k: int|
                0 <= k < 4 ==> (#[trigger] points[k]).0 > points[4].0 && points[k].1 != points[4].1
            &&& marks[n - 2] is Outline && marks[n - 2]->Outline_points == points
            &&& marks[n - 4] is Text && marks[n - 4]->text == label
        }),
{
    shares_are_near(tape.top + tape.bottom, 1, 2);
    let points = box_points(tape, theme);
    assert(points.len() == 5);
}

/// Twice the rate goes twice as far up the strip, to within the rounding, and the end of the scale is
/// as far as it goes. A climb is up and a descent is down.
pub proof fn rates_go_up_and_down_the_strip(vsi: Vsi, mfpm: int)
    requires
        vsi.wf(),
        vsi.has_room(),
    ensures
        ({
            let full = vsi.full_scale * 1000;
            let off = vsi.middle() - vsi.place(mfpm);
            &&& mfpm >= full ==> off == vsi.reach()
            &&& mfpm <= -full ==> off == -vsi.reach()
            &&& -full < mfpm < full ==> -full < vsi.reach() * mfpm - full * off < full
            &&& mfpm >= 0 ==> off >= 0
            &&& mfpm <= 0 ==> off <= 0
            &&& -2 < 2 * vsi.reach() + 44_000 - (vsi.bottom - vsi.top) < 2
            &&& -2 < 2 * vsi.middle() - (vsi.top + vsi.bottom) < 2
        }),
{
    let full = vsi.full_scale * 1000;
    shares_are_near(vsi.top + vsi.bottom, 1, 2);
    shares_are_near(vsi.bottom - vsi.top, 1, 2);
    the_pointer_stays_on_the_strip(vsi, 0);
    let r = vsi.reach();
    let size = if mfpm < 0 {
        -mfpm
    } else {
        mfpm
    };
    shares_are_near(r, size, full);
    assert(r * size >= 0) by (nonlinear_arith)
        requires
            r >= 0,
            size >= 0,
    ;
    shares_are_parts(r, size, full);
    assert(mfpm < 0 ==> r * mfpm == -(r * size)) by (nonlinear_arith)
        requires
            mfpm < 0 ==> size == -mfpm,
    ;
    let off = vsi.middle() - vsi.place(mfpm);
    if -full < mfpm < 0 {
        let q = share(r, size, full);
        assert(off == -q);
        assert(full * (-q) == -(full * q)) by (nonlinear_arith);
    }
}

/// The strip is marked every five hundred feet a minute from the bottom of its scale up, at the height
/// of that rate, and each thousand is numbered with its thousands.
pub proof fn the_strip_is_marked(vsi: Vsi, k: int)
    requires
        vsi.wf(),
        vsi.has_room(),
        0 <= k <= vsi.full_scale / 250,
    ensures
        ({
            let fpm = 500 * k - vsi.full_scale;
            let tick = vsi.tick(k);
            &&& tick.y == vsi.place(1000 * fpm)
            &&& fpm % 1000 == 0 ==> tick.length == 9_000
            &&& fpm % 1000 != 0 ==> tick.length == 5_000 && tick.label is None
            &&& fpm == 0 ==> tick.label is None && tick.y == vsi.middle()
            &&& fpm % 1000 == 0 && fpm > 0 ==> (tick.label is Some && 1000 * tick.label->0 == fpm)
            &&& fpm % 1000 == 0 && fpm < 0 ==> (tick.label is Some && 1000 * tick.label->0 == -fpm)
        }),
{
    let fpm = 500 * k - vsi.full_scale;
    rates_go_up_and_down_the_strip(vsi, fpm * 1000);
    the_pointer_stays_on_the_strip(vsi, 0);
    if fpm >= 0 {
        the_pointer_stays_on_the_strip(vsi, fpm * 1000);
    } else {
        the_pointer_stays_on_the_strip(vsi, -fpm * 1000);
    }
}

/// The figure reads back as the rate to the nearest fifty, with its sign, and is left out where that is
/// level. It stands at the top of the strip in a climb and at the bottom in a descent, and the bar runs
/// from the middle of the strip to the rate.
pub proof fn the_rate_reads_back(vsi: Vsi, mfpm: int, theme: Theme)
    ensures
        rate_figure(mfpm) is None <==> -25_000 < mfpm < 25_000,
        rate_figure(mfpm) matches Some(text) ==> {
            let n = number(text.skip(1));
            &&& n % 50 == 0 && n > 0
            &&& mfpm > 0 ==> text[0] == '+' && -25_000 <= 1000 * n - mfpm <= 25_000
            &&& mfpm < 0 ==> text[0] == '-' && -25_000 <= 1000 * n + mfpm <= 25_000
        },
        ({
            let marks = rate_marks(vsi, mfpm, theme);
            let bar = marks[0];
            &&& bar is Fill && bar->Fill_colour == theme.good
            &&& mfpm >= 0 && vsi.place(mfpm) <= vsi.middle() ==> bar->Fill_y == vsi.place(mfpm)
                && bar->Fill_y + bar->Fill_h == vsi.middle()
            &&& mfpm < 0 && vsi.place(mfpm) >= vsi.middle() ==> bar->Fill_y == vsi.middle()
                && bar->Fill_y + bar->Fill_h == vsi.place(mfpm)
            &&& rate_figure(mfpm) matches Some(text) ==> marks.last() is Text && marks.last()->text
                == text
            &&& rate_figure(mfpm) is Some && mfpm > 0 ==> marks.last()->Text_y == vsi.top + 14_000
            &&& rate_figure(mfpm) is Some && mfpm < 0 ==> marks.last()->Text_y == vsi.bottom - 16_000
        }),
{
    reveal_strlit("+");
    reveal_strlit("-");
    let n = 50 * fifties(mfpm);
    if n > 0 {
        decimals_read_back(n as nat);
        assert(("+"@ + decimal(n as nat)).skip(1) =~= decimal(n as nat));
    } else if n < 0 {
        decimals_read_back((-n) as nat);
        assert(("-"@ + decimal((-n) as nat)).skip(1) =~= decimal((-n) as nat));
    }
}

/// Without a rate the strip has its scale and dashes in red, and no figure and no bar.
pub proof fn a_strip_without_a_rate_shows_dashes(vsi: Vsi, theme: Theme)
    ensures
        vsi_marks(vsi, None, theme).len() == strip_marks(vsi, theme).len() + 1,
        vsi_marks(vsi, None, theme).last() is Text,
        vsi_marks(vsi, None, theme).last()->text == "--"@,
        vsi_marks(vsi, None, theme).last()->style.colour == theme.warning,
        vsi_marks(vsi, None, theme).last()->Text_y == vsi.middle(),
{
}

/// Every round value that can be seen is marked and numbered: a multiple of the major step that lies
/// between the top and the bottom of the tape is among those drawn.
pub proof fn what_can_be_seen_is_marked(tape: Tape, current: int, value: int)
    requires
        tape.wf(),
        tape.top <= tape.bottom,
        tape.major >= tape.units_per_px + 2,
        -LARGEST_VALUE <= current <= LARGEST_VALUE,
        value % (tape.major as int) == 0,
        tape.top <= tape.place(value, current) <= tape.bottom,
    ensures
        tape.majors(current).contains(value as i64),
        tape.lowest(current) <= value <= tape.highest(current),
{
    let (u, h) = (tape.units_per_px as int, tape.bottom - tape.top);
    let off = value - current;
    let up = off * 1000 / u;
    vstd::arithmetic::div_mod::lemma_fundamental_div_mod(off * 1000, u);
    vstd::arithmetic::div_mod::lemma_mod_bound(off * 1000, u);
    shares_are_near(tape.top + tape.bottom, 1, 2);
    assert(h * u >= 0) by (nonlinear_arith)
        requires
            h >= 0,
            u >= 0,
    ;
    shares_are_near(h, u, 2000);
    let half = tape.half_span();
    assert(-h - 2 <= 2 * up <= h + 2);
    assert(2 * (u * up) <= u * h + 2 * u && -(u * h) - 2 * u <= 2 * (u * up)) by (nonlinear_arith)
        requires
            -h - 2 <= 2 * up <= h + 2,
            u > 0,
    ;
    assert(u * h == h * u) by (nonlinear_arith);
    assert(off * 2000 < h * u + 4 * u);
    assert(h * u < 2000 * half + 2000);
    assert(0 <= half <= h * u) by {
        shares_are_parts(h, u, 2000);
    }
    assert(h * u <= 1_000_000_000_000_000_000) by (nonlinear_arith)
        requires
            0 <= h <= 1_000_000_000,
            0 <= u <= 1_000_000,
    ;
    scales_are_marked_at_multiples(
        tape.lowest(current),
        tape.highest(current),
        tape.major as int,
        value,
    );
}

/// A tape's scale is drawn inside it: the small ticks, then each number at its own tick, the longer ones.
pub proof fn each_number_has_its_tick(tape: Tape, current: int, theme: Theme, k: int)
    requires
        0 <= k < tape.majors(current).len(),
    ensures
        ({
            let marks = scale_marks(tape, current, theme);
            let (m, n) = (tape.minors(current).len() as int, tape.majors(current).len() as int);
            let value = tape.majors(current)[k] as int;
            let (number, tick) = (marks[1 + m + k], marks[1 + m + n + k]);
            &&& marks.len() == 2 + m + 2 * n
            &&& marks[0] is Clip && marks[0]->Clip_x == tape.x && marks[0]->Clip_w == tape.width
            &&& marks[0]->Clip_y == tape.top
            &&& number is Text && number->text == rounded(value, 1000)
            &&& number->Text_y == tape.place(value, current)
            &&& number->style.colour == theme.text_primary
            &&& tick is Line && tick->from.1 == tape.place(value, current)
            &&& tick->from.0 == tape.edge()
            &&& tape.side == Side::Left ==> tick->from.0 - tick->to.0 == 8_000
            &&& tape.side == Side::Right ==> tick->to.0 - tick->from.0 == 8_000
            &&& marks[1 + m + 2 * n] == Painted::Unclip
        }),
{
}

/// A tape is drawn over a faded ground as large as it is, with a line along the edge its scale starts
/// from; its caption stands half way across at its foot, and where it has nothing to show it says so half
/// way up, in red.
pub proof fn tapes_are_drawn_in_their_frame(tape: Tape, label: Seq<char>, value: Option<int>, theme: Theme)
    ensures
        ({
            let marks = tape_marks(tape, label, value, theme);
            let blank = tape_marks(tape, label, None, theme);
            &&& marks[0] is Fill && marks[0]->Fill_x == tape.x && marks[0]->Fill_y == tape.top
            &&& marks[0]->Fill_w == tape.width && marks[0]->Fill_h == tape.bottom - tape.top
            &&& marks[1] is Line && marks[1]->from == (tape.edge(), tape.top as int)
                && marks[1]->to == (tape.edge(), tape.bottom as int)
            &&& tape.side == Side::Left ==> tape.edge() == tape.x + tape.width
            &&& tape.side == Side::Right ==> tape.edge() == tape.x
            &&& blank[2]->text == label && blank[2]->Text_x == tape.x + tape.width as int / 2
            &&& blank[2]->Text_y == tape.bottom - 3_000
            &&& blank[3]->text == "NO DATA"@ && blank[3]->style.colour == theme.warning
            &&& blank[3]->Text_x == tape.x + tape.width as int / 2 && blank[3]->Text_y
                == tape.middle()
        }),
{
}

/// The strip has a tick each five hundred feet a minute, from the bottom of its scale to the top, running
/// in from its edge at the height of its rate, and each numbered one its number beside it.
pub proof fn the_strip_has_its_ticks(vsi: Vsi, theme: Theme, n: int, k: int)
    requires
        0 <= k < n,
        n == vsi.full_scale * 2 / 500 + 1,
    ensures
        rate_ticks(vsi, n, theme).len() == n,
        rate_ticks(vsi, n, theme)[k]->from == (vsi.x as int, vsi.tick(k).y as int),
        rate_ticks(vsi, n, theme)[k]->to == (vsi.x + vsi.tick(k).length, vsi.tick(k).y as int),
        strip_marks(vsi, theme).len() == 4 + rate_numbers(vsi, n, theme).len() + n,
        strip_marks(vsi, theme).last()->text == "VS"@,
        vsi.full_scale % 250 == 0 ==> 500 * (n - 1) - vsi.full_scale == vsi.full_scale,
        vsi.tick(n - 1).label matches Some(thousands) ==> ({
            let number = rate_numbers(vsi, n, theme).last();
            &&& number is Text && number->text == decimal(thousands as nat)
            &&& number->Text_y == vsi.tick(n - 1).y
            &&& number->Text_x == vsi.x + 12_000
        }),
{
}

} // verus!
