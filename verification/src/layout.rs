//! Where things go on screen. Derived from the panel size so the same code works on an 800x480
//! and a 1024x600 panel without a second set of constants.
//!
//! Lengths are in thousandths of a pixel.

use vstd::prelude::*;

use crate::theme::Theme;

verus! {

/// The longest side a panel may have: a million pixels.
pub const LONGEST_SIDE: i64 = 1_000_000_000;

/// The largest type a theme may ask for: ten thousand pixels.
pub const LARGEST_TYPE: i64 = 10_000_000;

impl Theme {
    /// Whether every size is at least a pixel and none is absurd.
    pub open spec fn sizes_ok(self) -> bool {
        &&& 1_000 <= self.font_size_tag <= LARGEST_TYPE
        &&& 1_000 <= self.font_size_small <= LARGEST_TYPE
        &&& 1_000 <= self.font_size_normal <= LARGEST_TYPE
        &&& 1_000 <= self.font_size_large <= LARGEST_TYPE
        &&& 1_000 <= self.symbol_size <= LARGEST_TYPE
        &&& 1_000 <= self.line_width <= LARGEST_TYPE
    }
}

/// The larger of two lengths.
pub open spec fn larger(a: int, b: int) -> int {
    if a < b {
        b
    } else {
        a
    }
}

/// The smaller of two lengths.
pub open spec fn smaller(a: int, b: int) -> int {
    if a < b {
        a
    } else {
        b
    }
}

pub fn larger_of(a: i64, b: i64) -> (r: i64)
    ensures
        r == larger(a as int, b as int),
{
    if a < b {
        b
    } else {
        a
    }
}

pub fn smaller_of(a: i64, b: i64) -> (r: i64)
    ensures
        r == smaller(a as int, b as int),
{
    if a < b {
        a
    } else {
        b
    }
}

/// So much of a length, `top` parts of it out of `under`, rounded towards nothing.
pub open spec fn share(n: int, top: int, under: int) -> int {
    if n * top >= 0 {
        n * top / under
    } else {
        -(-(n * top) / under)
    }
}

/// So much of a length, rounded towards nothing.
pub fn share_of(n: i64, top: i64, under: i64) -> (r: i64)
    requires
        -9_000_000_000_000_000_000 <= n * top <= 9_000_000_000_000_000_000,
        0 < under,
    ensures
        r == share(n as int, top as int, under as int),
        n * top >= 0 ==> 0 <= r <= n * top,
        n * top <= 0 ==> n * top <= r <= 0,
        0 <= top <= under && n >= 0 ==> 0 <= r <= n,
        0 <= top <= under && n <= 0 ==> n <= r <= 0,
{
    let whole: i64 = n * top;
    proof {
        shares_are_parts(n as int, top as int, under as int);
    }
    whole / under
}

/// A share lies between nothing and the whole, on the same side.
pub proof fn shares_are_parts(n: int, top: int, under: int)
    requires
        0 < under,
    ensures
        n * top >= 0 ==> 0 <= share(n, top, under) <= n * top,
        n * top <= 0 ==> n * top <= share(n, top, under) <= 0,
        0 <= top <= under && n >= 0 ==> 0 <= share(n, top, under) <= n,
        0 <= top <= under && n <= 0 ==> n <= share(n, top, under) <= 0,
{
    let size = if n * top >= 0 {
        n * top
    } else {
        -(n * top)
    };
    assert(0 <= size / under <= size) by (nonlinear_arith)
        requires
            0 <= size,
            0 < under,
    ;
    if 0 <= top <= under {
        let m = if n >= 0 {
            n
        } else {
            -n
        };
        assert(size == m * top) by (nonlinear_arith)
            requires
                0 <= top,
                m == n && n >= 0 && (size == n * top || (n * top < 0 && size == -(n * top))) || m
                    == -n && n < 0 && (size == -(n * top) || (n * top >= 0 && size == n * top)),
                size >= 0,
        ;
        assert(0 <= size / under <= m) by (nonlinear_arith)
            requires
                size == m * top,
                0 <= m,
                0 <= top <= under,
                0 < under,
        ;
        assert(n >= 0 ==> n * top >= 0) by (nonlinear_arith)
            requires
                0 <= top,
        ;
        assert(n <= 0 ==> n * top <= 0) by (nonlinear_arith)
            requires
                0 <= top,
        ;
    }
}

#[derive(Debug, Clone, Copy, PartialEq, Eq)]
pub struct Layout {
    pub width: i64,
    pub height: i64,
    pub status_bar_height: i64,
    pub footer_height: i64,
    /// Screen position of own-ship, and therefore the centre of the rings.
    pub center: (i64, i64),
    /// Radius of the outermost range ring.
    pub outer_radius: i64,
    pub margin: i64,
    /// Width of each vertical strip. Both are the same width, which is what makes the content
    /// area centred on the panel rather than merely left of the keys.
    pub strip_width: i64,
    /// Left edge of the content area, immediately right of the function strip.
    ///
    /// **Nothing may be positioned from zero.** The function strip is drawn over what would be
    /// page content there.
    pub content_x0: i64,
    /// Right edge of the content area, immediately left of the page strip. A coordinate and not a
    /// width.
    pub content_x1: i64,
}

/// Height of the status bar: 2.6 lines of small type, and never under 28 pixels.
pub open spec fn status_bar_of(theme: Theme) -> int {
    larger(theme.font_size_small * 26 / 10, 28_000)
}

/// Height of the footer: 1.8 lines of normal type.
pub open spec fn footer_of(theme: Theme) -> int {
    theme.font_size_normal * 18 / 10
}

/// Width of a strip: 12% of the panel, floored at 72 pixels, and never over a quarter of it.
///
/// The floor is what matters: these are the only controls, they get pressed in turbulence, and a
/// strip that scales below roughly a fingertip stops being hittable long before it stops being
/// readable.
pub open spec fn strip_of(width: int) -> int {
    smaller(larger(width * 12 / 100, 72_000), width * 25 / 100)
}

/// Radius of the outermost ring, given the room there is: leaves space outside the ring for its
/// label and the compass ticks.
pub open spec fn ring_of(plan_height: int, content_width: int, theme: Theme) -> int {
    larger(
        smaller(plan_height / 2, content_width / 2) - 8_000 - theme.font_size_small * 16 / 10,
        24_000,
    )
}

impl Layout {
    /// Whether the parts fit together as [`Layout::for_size`] lays them out.
    pub open spec fn wf(self) -> bool {
        &&& 0 <= self.width <= LONGEST_SIDE
        &&& 0 <= self.height <= LONGEST_SIDE
        &&& 28_000 <= self.status_bar_height <= 3 * LARGEST_TYPE
        &&& 0 < self.footer_height <= 2 * LARGEST_TYPE
        &&& self.margin == 8_000
        &&& 0 <= self.strip_width <= LONGEST_SIDE
        &&& self.content_x0 == self.strip_width
        &&& self.content_x0 + 1_000 <= self.content_x1 <= LONGEST_SIDE + 1_000
        &&& 24_000 <= self.outer_radius <= LONGEST_SIDE
        &&& self.content_x0 <= self.center.0 <= self.content_x1
        &&& 0 <= self.center.1 <= 2 * LONGEST_SIDE
    }

    pub fn for_size(width: i64, height: i64, theme: &Theme) -> (r: Layout)
        requires
            0 <= width <= LONGEST_SIDE,
            0 <= height <= LONGEST_SIDE,
            theme.sizes_ok(),
        ensures
            r.wf(),
            r.width == width,
            r.height == height,
            r.status_bar_height == status_bar_of(*theme),
            r.footer_height == footer_of(*theme),
            r.margin == 8_000,
            r.strip_width == strip_of(width as int),
            r.content_x0 == strip_of(width as int),
            r.content_x1 == larger(
                width - strip_of(width as int),
                strip_of(width as int) + 1_000,
            ),
            r.center == (
                (r.content_x0 + (r.content_x1 - r.content_x0) / 2) as i64,
                (status_bar_of(*theme) + larger(
                    height - status_bar_of(*theme) - footer_of(*theme),
                    1_000,
                ) / 2) as i64,
            ),
            r.outer_radius == ring_of(
                larger(height - status_bar_of(*theme) - footer_of(*theme), 1_000),
                r.content_x1 - r.content_x0,
                *theme,
            ),
    {
        let status_bar_height: i64 = larger_of(theme.font_size_small * 26 / 10, 28_000);
        let footer_height: i64 = theme.font_size_normal * 18 / 10;
        let margin: i64 = 8_000;

        let strip_width: i64 = smaller_of(larger_of(width * 12 / 100, 72_000), width * 25 / 100);
        let content_x0: i64 = strip_width;
        let content_x1: i64 = larger_of(width - strip_width, content_x0 + 1_000);
        let content_width: i64 = content_x1 - content_x0;

        let plan_height: i64 = larger_of(height - status_bar_height - footer_height, 1_000);
        let center: (i64, i64) = (
            content_x0 + content_width / 2,
            status_bar_height + plan_height / 2,
        );

        let radius_limit: i64 = smaller_of(plan_height / 2, content_width / 2) - margin;
        let outer_radius: i64 = larger_of(radius_limit - theme.font_size_small * 16 / 10, 24_000);

        Layout {
            width,
            height,
            status_bar_height,
            footer_height,
            center,
            outer_radius,
            margin,
            strip_width,
            content_x0,
            content_x1,
        }
    }

    /// Width of the area between the two strips.
    pub fn content_width(&self) -> (r: i64)
        requires
            self.wf(),
        ensures
            r == self.content_x1 - self.content_x0,
            r >= 1_000,
    {
        self.content_x1 - self.content_x0
    }

    /// Left edge for page content, inside the margin. **Not `margin`**, which would be under the
    /// function strip.
    pub fn content_left(&self) -> (r: i64)
        requires
            self.wf(),
        ensures
            r == self.content_x0 + self.margin,
    {
        self.content_x0 + self.margin
    }

    /// Right edge for page content, inside the margin.
    pub fn content_right(&self) -> (r: i64)
        requires
            self.wf(),
        ensures
            r == self.content_x1 - self.margin,
    {
        self.content_x1 - self.margin
    }

    /// Top of both strips.
    pub open spec fn strip_top(self) -> int {
        self.status_bar_height as int
    }

    /// Bottom of both strips.
    pub open spec fn strip_bottom(self) -> int {
        larger(self.height - self.footer_height, self.status_bar_height + 1_000)
    }

    /// Top of both strips: immediately below the status bar.
    ///
    /// The bars run edge to edge and the strips sit between them. A bar that stops short of the
    /// panel edge reads as a panel of three columns; a bar that crosses it reads as a bar.
    pub fn strip_y0(&self) -> (r: i64)
        ensures
            r == self.strip_top(),
    {
        self.status_bar_height
    }

    /// Bottom of both strips: the top of the footer bar.
    pub fn strip_y1(&self) -> (r: i64)
        requires
            self.wf(),
        ensures
            r == self.strip_bottom(),
    {
        larger_of(self.height - self.footer_height, self.status_bar_height + 1_000)
    }

    /// Height of the strips, between the two bars.
    pub fn strip_height(&self) -> (r: i64)
        requires
            self.wf(),
        ensures
            r == self.strip_bottom() - self.strip_top(),
            r >= 1_000,
    {
        self.strip_y1() - self.strip_y0()
    }

    /// Top of the footer bar.
    pub fn footer_y0(&self) -> (r: i64)
        requires
            self.wf(),
        ensures
            r == self.height - self.footer_height,
    {
        self.height - self.footer_height
    }

    /// Top of a slot when the strips are divided into equal slots.
    pub open spec fn slot_top(self, slot: int, slots: int) -> int {
        self.strip_top() + (self.strip_bottom() - self.strip_top()) * slot / slots
    }

    /// Whether a height on screen falls in a slot.
    pub open spec fn in_slot(self, y: int, slot: int, slots: int) -> bool {
        &&& 0 <= slot < slots
        &&& self.slot_top(slot, slots) <= y < self.slot_top(slot + 1, slots)
    }

    /// The slot a height on screen falls in, if it is between the bars.
    pub open spec fn slot_of(self, y: int, slots: int) -> Option<int> {
        if self.strip_top() <= y < self.strip_bottom() {
            Some(choose|slot: int| self.in_slot(y, slot, slots))
        } else {
            None
        }
    }

    /// Top of a slot when the strips are divided into equal slots.
    pub fn top_of_slot(&self, slot: usize, slots: usize) -> (r: i64)
        requires
            self.wf(),
            slot <= slots,
            0 < slots <= 100,
        ensures
            r == self.slot_top(slot as int, slots as int),
            self.strip_top() <= r <= self.strip_bottom(),
    {
        let height: i64 = self.strip_height();
        proof {
            slots_stay_inside(*self, slot as int, slots as int);
            assert(0 <= height * slot <= 2_000_000_000 * 100) by (nonlinear_arith)
                requires
                    0 <= height <= 2_000_000_000,
                    0 <= slot <= 100,
            ;
        }
        self.strip_y0() + height * (slot as i64) / (slots as i64)
    }

    /// Which slot a height on screen falls in.
    pub fn slot_at(&self, y: i64, slots: usize) -> (r: Option<usize>)
        requires
            self.wf(),
            0 < slots <= 100,
        ensures
            match r {
                Some(slot) => {
                    &&& self.slot_of(y as int, slots as int) == Some(slot as int)
                    &&& self.in_slot(y as int, slot as int, slots as int)
                },
                None => self.slot_of(y as int, slots as int) is None,
            },
    {
        if y < self.strip_y0() || y >= self.strip_y1() {
            return None;
        }
        let mut slot: usize = 0;
        proof {
            slots_fill_the_strip(*self, slots as int);
        }
        while slot + 1 < slots && self.top_of_slot(slot + 1, slots) <= y
            invariant
                self.wf(),
                slot < slots,
                0 < slots <= 100,
                self.slot_top(slot as int, slots as int) <= y,
            decreases slots - slot,
        {
            slot = slot + 1;
        }
        proof {
            slots_fill_the_strip(*self, slots as int);
            assert(self.in_slot(y as int, slot as int, slots as int));
            let held = choose|held: int| self.in_slot(y as int, held, slots as int);
            slots_do_not_overlap(*self, y as int, slot as int, held, slots as int);
        }
        Some(slot)
    }
}

// --- laws ----------------------------------------------------------------------------------

proof fn slots_stay_inside(layout: Layout, slot: int, slots: int)
    requires
        layout.wf(),
        0 <= slot <= slots,
        0 < slots,
    ensures
        layout.strip_top() <= layout.slot_top(slot, slots) <= layout.strip_bottom(),
{
    let h = layout.strip_bottom() - layout.strip_top();
    assert(0 <= h * slot / slots <= h) by (nonlinear_arith)
        requires
            0 <= h,
            0 <= slot <= slots,
            0 < slots,
    ;
}

/// The first slot starts at the top of the strip and the last ends at its bottom.
pub proof fn slots_fill_the_strip(layout: Layout, slots: int)
    requires
        layout.wf(),
        0 < slots,
    ensures
        layout.slot_top(0, slots) == layout.strip_top(),
        layout.slot_top(slots, slots) == layout.strip_bottom(),
{
    let h = layout.strip_bottom() - layout.strip_top();
    assert(h * 0 / slots == 0) by (nonlinear_arith)
        requires
            0 < slots,
    ;
    assert(h * slots / slots == h) by (nonlinear_arith)
        requires
            0 < slots,
    ;
}

/// Slots come one after the other, none of them upside down.
pub proof fn slots_are_in_order(layout: Layout, slot: int, later: int, slots: int)
    requires
        layout.wf(),
        0 <= slot <= later <= slots,
        0 < slots,
    ensures
        layout.slot_top(slot, slots) <= layout.slot_top(later, slots),
{
    let h = layout.strip_bottom() - layout.strip_top();
    assert(h * slot / slots <= h * later / slots) by (nonlinear_arith)
        requires
            0 <= h,
            0 <= slot <= later,
            0 < slots,
    ;
}

/// Slots tile the strip: a height belongs to at most one of them.
pub proof fn slots_do_not_overlap(layout: Layout, y: int, slot: int, other: int, slots: int)
    requires
        layout.wf(),
        layout.in_slot(y, slot, slots),
        layout.in_slot(y, other, slots),
    ensures
        slot == other,
{
    if slot < other {
        slots_are_in_order(layout, slot + 1, other, slots);
    } else if other < slot {
        slots_are_in_order(layout, other + 1, slot, slots);
    }
}

/// What is in a slot is between the two bars.
pub proof fn slots_keep_off_the_bars(layout: Layout, y: int, slot: int, slots: int)
    requires
        layout.wf(),
        layout.in_slot(y, slot, slots),
    ensures
        layout.strip_top() <= y < layout.strip_bottom(),
{
    slots_fill_the_strip(layout, slots);
    slots_are_in_order(layout, 0, slot, slots);
    slots_are_in_order(layout, slot + 1, slots, slots);
}

/// The two strips are as wide as each other and the content area is what is left between them,
/// centred on the panel, on any panel of at least two pixels.
pub proof fn the_content_area_is_centred(width: int)
    requires
        2_000 <= width,
    ensures
        width - strip_of(width) >= strip_of(width) + 1_000,
        strip_of(width) + (width - 2 * strip_of(width)) / 2 == width / 2,
{
}

/// A share is the quotient itself, short of it by less than one and never past it.
pub proof fn shares_are_near(n: int, top: int, under: int)
    requires
        0 < under,
    ensures
        n * top >= 0 ==> 0 <= n * top - under * share(n, top, under) < under,
        n * top <= 0 ==> -under < n * top - under * share(n, top, under) <= 0,
{
    let size = if n * top >= 0 {
        n * top
    } else {
        -(n * top)
    };
    vstd::arithmetic::div_mod::lemma_fundamental_div_mod(size, under);
    vstd::arithmetic::div_mod::lemma_mod_bound(size, under);
    let q = size / under;
    assert(under * (-q) == -(under * q)) by (nonlinear_arith);
}

/// The bars grow with their type, two and a half lines of it and not quite two, and the status bar is
/// never lower than a finger can hit. A key strip takes an eighth of the panel, as much as a finger
/// needs and no more than a quarter.
pub proof fn bars_grow_with_their_type(theme: Theme, width: int)
    requires
        theme.font_size_small >= 0,
        theme.font_size_normal >= 0,
        0 <= width,
    ensures
        status_bar_of(theme) >= 28_000,
        status_bar_of(theme) > 28_000 ==> 26 * theme.font_size_small - 10 < 10 * status_bar_of(theme)
            <= 26 * theme.font_size_small,
        26 * theme.font_size_small >= 280_000 ==> 26 * theme.font_size_small - 10 < 10
            * status_bar_of(theme) <= 26 * theme.font_size_small,
        18 * theme.font_size_normal - 10 < 10 * footer_of(theme) <= 18 * theme.font_size_normal,
        600_000 <= width ==> 12 * width - 100 < 100 * strip_of(width) <= 12 * width,
        288_000 <= width <= 600_000 ==> strip_of(width) == 72_000,
        width <= 288_000 ==> 25 * width - 100 < 100 * strip_of(width) <= 25 * width,
{
}

/// The rings fit the plan view: what they take, with a margin and the lettering round them, is no wider
/// and no higher than there is, on any panel with room for them.
pub proof fn the_rings_fit(plan_height: int, content_width: int, theme: Theme)
    requires
        theme.font_size_small >= 0,
    ensures
        ({
            let ring = ring_of(plan_height, content_width, theme);
            let round = 8_000 + theme.font_size_small * 16 / 10;
            &&& ring >= 24_000
            &&& ring > 24_000 ==> 2 * (ring + round) <= plan_height && 2 * (ring + round)
                <= content_width
            &&& ring > 24_000 ==> 2 * (ring + round) + 1 >= plan_height || 2 * (ring + round) + 1
                >= content_width
        }),
{
}

} // verus!
