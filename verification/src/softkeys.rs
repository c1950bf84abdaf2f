//! The function-key strip down the **left-hand** edge.
//!
//! Six slots, all page-specific. Page selection is not here: it lives on the opposite edge, in
//! [`crate::pagestrip`], where all three pages are visible at once and the active one is filled.
//!
//! On the 800x480 panel six slots are 71 px tall, which is why six and not more: seven would be
//! 60.9 px, against the 60 px below which a key is too short to hit reliably.
//!
//! # The hazard this design carries
//!
//! Context-sensitive keys mean the same physical spot does different things depending on what is
//! on screen. In turbulence that is a real way to press the wrong thing. Three mitigations, all
//! deliberate:
//!
//! * Navigation is never on this strip, so nothing here can move you off the page you are on.
//!   Recovering from a wrong press is always a press on the other edge.
//! * Every key is **labelled with its current action**, and the label is redrawn every frame.
//! * Unused slots are drawn dimmed and inert rather than left blank.
//!
//! Nothing here changes anything. [`hit`] answers *which slot*, [`key_at`] answers *what it does
//! right now*, and [`crate::interact`] applies it.

use vstd::prelude::*;

use crate::layout::{slots_are_in_order, Layout};
use crate::marks::{
    block, drawn, nothing, put_fill, put_line, put_text, stroke, text_at, Align, Baseline, Painted,
    Mark, Style,
};
use crate::projection::Orientation;
use crate::theme::{faded, faded_by, Color, Theme};
use crate::threat::AltitudeFilter;
use crate::view::{CageState, FrameStats, MapLayers, Page, ViewState};

verus! {

/// Number of key slots in the strip, counted from the top.
pub const SLOTS: usize = 6;

/// What a soft key does when pressed.
#[derive(Debug, Clone, Copy, PartialEq, Eq, Structural)]
pub enum SoftKey {
    RangeUp,
    RangeDown,
    /// North-up / track-up.
    ToggleOrientation,
    /// NEXRAD precipitation underlay on the plan view.
    ToggleUnderlay,
    /// Step the vertical filter through its bands. The altitude equivalent of RangeUp.
    CycleAltitudeFilter,
    /// Step the map layer through off, airports, airports and airspace.
    CycleMapLayers,
    ScrollUp,
    ScrollDown,
    /// Tell the AHRS the aircraft is straight and level. Two presses: arm, then confirm.
    CageAhrs,
    /// Expand the selected weather report's abbreviations.
    ToggleDecode,
}

/// The key in a slot of a page's strip, if any.
pub open spec fn key_in(page: Page, slot: int) -> Option<SoftKey> {
    match page {
        Page::PlanView => if slot == 0 {
            Some(SoftKey::RangeUp)
        } else if slot == 1 {
            Some(SoftKey::RangeDown)
        } else if slot == 2 {
            Some(SoftKey::CycleAltitudeFilter)
        } else if slot == 3 {
            Some(SoftKey::ToggleOrientation)
        } else if slot == 4 {
            Some(SoftKey::ToggleUnderlay)
        } else if slot == 5 {
            Some(SoftKey::CycleMapLayers)
        } else {
            None
        },
        Page::Weather => if slot == 0 {
            Some(SoftKey::ScrollUp)
        } else if slot == 1 {
            Some(SoftKey::ScrollDown)
        } else if slot == 2 {
            Some(SoftKey::ToggleDecode)
        } else {
            None
        },
        Page::Ahrs => if slot == 5 {
            Some(SoftKey::CageAhrs)
        } else {
            None
        },
    }
}

/// Which key sits in each slot for the given page.
///
/// `None` means the slot is drawn dimmed and does nothing. Slots are kept rather than compacted
/// so a key never changes position just because a neighbour became unavailable.
pub fn keys_for(page: Page) -> (r: [Option<SoftKey>; SLOTS])
    ensures
        forall|slot: int| 0 <= slot < SLOTS ==> #[trigger] r[slot] == key_in(page, slot),
{
    match page {
        // RNG and ALT sit together: they are the same idea on two axes, horizontal and vertical,
        // and the pilot reaching for "show me less" should find both without hunting.
        Page::PlanView => [
            Some(SoftKey::RangeUp),
            Some(SoftKey::RangeDown),
            Some(SoftKey::CycleAltitudeFilter),
            Some(SoftKey::ToggleOrientation),
            Some(SoftKey::ToggleUnderlay),
            // The last free slot on this page, so both map layers share one key rather than taking
            // one each.
            Some(SoftKey::CycleMapLayers),
        ],
        Page::Weather => [
            Some(SoftKey::ScrollUp),
            Some(SoftKey::ScrollDown),
            Some(SoftKey::ToggleDecode),
            None,
            None,
            None,
        ],
        // LEVEL sits at the bottom of the strip, the furthest point on it from where a hand rests
        // reaching for anything else. It is the only key on this display that changes what an
        // instrument reads rather than how it is drawn, and it should take a deliberate reach.
        Page::Ahrs => [None, None, None, None, None, Some(SoftKey::CageAhrs)],
    }
}

/// The key in `slot` for the current page, if any.
pub fn key_at(view: &ViewState, slot: usize) -> (r: Option<SoftKey>)
    ensures
        r == key_in(view.page, slot as int),
{
    let keys: [Option<SoftKey>; SLOTS] = keys_for(view.page);
    if slot < SLOTS {
        assert(keys[slot as int] == key_in(view.page, slot as int));
        keys[slot]
    } else {
        None
    }
}

/// The text on a key.
pub open spec fn label_of(key: SoftKey, view: ViewState) -> Seq<char> {
    match key {
        SoftKey::RangeUp => "RNG +"@,
        SoftKey::RangeDown => "RNG -"@,
        SoftKey::ToggleOrientation => view.orientation.name(),
        SoftKey::ToggleUnderlay => if view.show_weather_underlay {
            "WX ON"@
        } else {
            "WX OFF"@
        },
        SoftKey::CycleAltitudeFilter => view.altitude_filter.name(),
        SoftKey::CycleMapLayers => view.map_layers.name(),
        SoftKey::ScrollUp => "UP"@,
        SoftKey::ScrollDown => "DOWN"@,
        SoftKey::ToggleDecode => if view.weather_decode {
            "RAW"@
        } else {
            "DECODE"@
        },
        SoftKey::CageAhrs => match view.cage {
            CageState::Idle => "LEVEL"@,
            CageState::Armed => "CONFIRM"@,
            CageState::Requested => "..."@,
            CageState::InFlight => "..."@,
            CageState::Done { ok } => if ok {
                "CAGED"@
            } else {
                "FAILED"@
            },
        },
    }
}

/// The label to paint on a key.
///
/// Toggles are labelled with the state they are **currently in**, not the state they would move
/// to. Both conventions exist in the wild and neither is universally right, but "what am I
/// looking at" is the question a pilot glancing down is actually asking, and it matches the
/// footer, which also reports current state.
pub fn label(key: SoftKey, view: &ViewState) -> (r: &'static str)
    ensures
        r@ == label_of(key, *view),
{
    match key {
        SoftKey::RangeUp => "RNG +",
        SoftKey::RangeDown => "RNG -",
        SoftKey::ToggleOrientation => view.orientation.label(),
        SoftKey::ToggleUnderlay => if view.show_weather_underlay {
            "WX ON"
        } else {
            "WX OFF"
        },
        // Shares its text with the footer readout, so the key and the page can never disagree
        // about which band is selected.
        SoftKey::CycleAltitudeFilter => view.altitude_filter.label(),
        SoftKey::CycleMapLayers => view.map_layers.label(),
        SoftKey::ScrollUp => "UP",
        SoftKey::ScrollDown => "DOWN",
        // Labelled with what pressing it gives you, unlike the state-labelled toggles above:
        // there is no ambiguity about which view you are looking at, so naming the destination
        // is more useful than naming where you already are.
        SoftKey::ToggleDecode => if view.weather_decode {
            "RAW"
        } else {
            "DECODE"
        },
        SoftKey::CageAhrs => match view.cage {
            CageState::Idle => "LEVEL",
            CageState::Armed => "CONFIRM",
            CageState::Requested => "...",
            CageState::InFlight => "...",
            CageState::Done { ok } => if ok {
                "CAGED"
            } else {
                "FAILED"
            },
        },
    }
}

/// The colour of a key's text.
pub open spec fn colour_of(key: SoftKey, view: ViewState, stats: FrameStats, theme: Theme) -> Color {
    match key {
        SoftKey::ToggleUnderlay => if view.show_weather_underlay {
            theme.good
        } else {
            theme.text_primary
        },
        SoftKey::CycleAltitudeFilter => if stats.targets_outside_altitude > 0 {
            theme.caution
        } else {
            theme.text_primary
        },
        SoftKey::CycleMapLayers => match view.map_layers {
            MapLayers::Full => theme.caution,
            MapLayers::Airports => theme.good,
            MapLayers::Off => theme.text_primary,
        },
        SoftKey::ToggleDecode => if view.weather_decode {
            theme.good
        } else {
            theme.text_primary
        },
        SoftKey::CageAhrs => match view.cage {
            CageState::Armed => theme.caution,
            CageState::Done { ok } => if ok {
                theme.good
            } else {
                theme.warning
            },
            _ => theme.text_primary,
        },
        _ => theme.text_primary,
    }
}

/// The colour to paint a key's label in.
///
/// Active toggles get the accent colour so their state is readable without parsing text. `stats`
/// is the frame that has just been drawn, and is used for exactly one thing: colouring the ALT key
/// by whether the filter is *currently withholding traffic*, rather than by whether a filter is
/// merely selected. The default band is a narrowing one, so "amber whenever a filter is set" would
/// light the key on every flight from power-on and mean nothing by the time it did matter.
pub fn colour(key: SoftKey, view: &ViewState, stats: &FrameStats, theme: &Theme) -> (r: Color)
    ensures
        r == colour_of(key, *view, *stats, *theme),
{
    match key {
        SoftKey::ToggleUnderlay => if view.show_weather_underlay {
            theme.good
        } else {
            theme.text_primary
        },
        SoftKey::CycleAltitudeFilter => if stats.targets_outside_altitude > 0 {
            theme.caution
        } else {
            theme.text_primary
        },
        // Amber for airspace, not green: it is the state that raises the NOT FOR NAVIGATION
        // banner, and a key that looked like every other "on" toggle would undersell that.
        SoftKey::CycleMapLayers => if view.map_layers.shows_airspace() {
            theme.caution
        } else if view.map_layers.shows_airports() {
            theme.good
        } else {
            theme.text_primary
        },
        SoftKey::ToggleDecode => if view.weather_decode {
            theme.good
        } else {
            theme.text_primary
        },
        // An armed cage is amber: it is one press from changing the attitude reference, and that
        // state must not look like every other key on the strip.
        SoftKey::CageAhrs => match view.cage {
            CageState::Armed => theme.caution,
            CageState::Done { ok } => if ok {
                theme.good
            } else {
                theme.warning
            },
            _ => theme.text_primary,
        },
        _ => theme.text_primary,
    }
}

/// Rectangle `(x, y, w, h)` of a slot.
pub fn slot_rect(layout: &Layout, slot: usize) -> (r: (i64, i64, i64, i64))
    requires
        layout.wf(),
        slot < SLOTS,
    ensures
        r.0 == 0,
        r.1 == layout.slot_top(slot as int, 6),
        r.2 == layout.strip_width,
        r.1 + r.3 == layout.slot_top(slot + 1, 6),
        r.3 >= 0,
        layout.strip_top() <= r.1,
        r.1 + r.3 <= layout.strip_bottom(),
{
    proof {
        slots_are_in_order(*layout, slot as int, slot + 1, 6);
    }
    let top: i64 = layout.top_of_slot(slot, SLOTS);
    let bottom: i64 = layout.top_of_slot(slot + 1, SLOTS);
    (0, top, layout.strip_width, bottom - top)
}

/// The slot a point presses, if it is on the strip.
pub open spec fn pressed_slot(layout: Layout, x: int, y: int) -> Option<int> {
    if x >= layout.content_x0 {
        None
    } else {
        layout.slot_of(y, 6)
    }
}

/// Which slot a point falls in, or `None` if it is outside the strip.
///
/// Both bars belong to themselves: the strip starts below the status bar and ends above the footer,
/// so a press in either is not a key.
pub fn hit(layout: &Layout, x: i64, y: i64) -> (r: Option<usize>)
    requires
        layout.wf(),
    ensures
        match r {
            Some(slot) => {
                &&& pressed_slot(*layout, x as int, y as int) == Some(slot as int)
                &&& layout.in_slot(y as int, slot as int, 6)
            },
            None => pressed_slot(*layout, x as int, y as int) is None,
        },
{
    if x >= layout.content_x0 {
        return None;
    }
    layout.slot_at(y, SLOTS)
}

// --- the picture ---------------------------------------------------------------------------

/// The divider above a slot of a strip whose left edge is `x`.
pub open spec fn divider(layout: Layout, theme: Theme, x: int, slot: int, slots: int) -> Painted {
    let y = layout.slot_top(slot, slots);
    stroke(
        (x + layout.margin, y),
        (x + layout.strip_width - layout.margin, y),
        faded_by(theme.text_dim, 60),
        1_000,
    )
}

/// A strip without its keys: its background, its edge towards the content, and the dividers between
/// its slots.
pub open spec fn strip_marks(
    layout: Layout,
    theme: Theme,
    x: int,
    edge: int,
    slots: int,
) -> Seq<Painted> {
    seq![
        block(
            x,
            layout.strip_top(),
            layout.strip_width as int,
            layout.strip_bottom() - layout.strip_top(),
            theme.bar_background,
        ),
        stroke(
            (edge, layout.strip_top()),
            (edge, layout.strip_bottom()),
            theme.text_dim,
            1_000,
        ),
    ] + Seq::new((slots - 1) as nat, |k: int| divider(layout, theme, x, k + 1, slots))
}

/// A strip without its keys. It sits on the bar colour so that it reads as chrome rather than as
/// part of the moving picture behind it.
pub fn draw_strip(layout: &Layout, theme: &Theme, x: i64, edge: i64, slots: usize) -> (r: Vec<Mark>)
    requires
        layout.wf(),
        0 <= x <= 2_000_000_000,
        1 <= slots <= 100,
    ensures
        drawn(r@) == strip_marks(*layout, *theme, x as int, edge as int, slots as int),
{
    let mut out: Vec<Mark> = nothing();
    put_fill(
        &mut out,
        x,
        layout.strip_y0(),
        layout.strip_width,
        layout.strip_height(),
        theme.bar_background,
    );
    put_line(
        &mut out,
        (edge, layout.strip_y0()),
        (edge, layout.strip_y1()),
        theme.text_dim,
        1_000,
    );
    let ghost chrome = drawn(out@);
    let shade: Color = faded(theme.text_dim, 60);
    let mut slot: usize = 1;
    assert(drawn(out@) =~= chrome + Seq::new(
        0,
        |k: int| divider(*layout, *theme, x as int, k + 1, slots as int),
    ));
    while slot < slots
        invariant
            1 <= slot <= slots <= 100,
            layout.wf(),
            0 <= x <= 2_000_000_000,
            shade == faded_by(theme.text_dim, 60),
            drawn(out@) == chrome + Seq::new(
                (slot - 1) as nat,
                |k: int| divider(*layout, *theme, x as int, k + 1, slots as int),
            ),
        decreases slots - slot,
    {
        let y: i64 = layout.top_of_slot(slot, slots);
        put_line(
            &mut out,
            (x + layout.margin, y),
            (x + layout.strip_width - layout.margin, y),
            shade,
            1_000,
        );
        slot = slot + 1;
        assert(drawn(out@) =~= chrome + Seq::new(
            (slot - 1) as nat,
            |k: int| divider(*layout, *theme, x as int, k + 1, slots as int),
        ));
    }
    assert(drawn(out@) =~= strip_marks(*layout, *theme, x as int, edge as int, slots as int));
    out
}

/// The middle of a slot.
pub open spec fn slot_middle(layout: Layout, slot: int, slots: int) -> int {
    layout.slot_top(slot, slots) + (layout.slot_top(slot + 1, slots) - layout.slot_top(
        slot,
        slots,
    )) / 2
}

/// The labels of the first `n` keys; a slot without a key has none.
pub open spec fn label_marks(
    view: ViewState,
    stats: FrameStats,
    layout: Layout,
    theme: Theme,
    n: int,
) -> Seq<Painted>
    decreases n,
{
    if n <= 0 {
        seq![]
    } else {
        label_marks(view, stats, layout, theme, n - 1) + match key_in(view.page, n - 1) {
            Some(key) => seq![
                text_at(
                    layout.strip_width as int / 2,
                    slot_middle(layout, n - 1, 6),
                    label_of(key, view),
                    Style {
                        colour: colour_of(key, view, stats, theme),
                        size: theme.font_size_small,
                        align: Align::Center,
                        baseline: Baseline::Middle,
                    },
                ),
            ],
            None => seq![],
        }
    }
}

/// The strip: its chrome, and every key labelled with what it does right now.
pub fn draw(view: &ViewState, stats: &FrameStats, layout: &Layout, theme: &Theme) -> (r: Vec<Mark>)
    requires
        layout.wf(),
    ensures
        drawn(r@) == strip_marks(*layout, *theme, 0, layout.content_x0 as int, 6) + label_marks(
            *view,
            *stats,
            *layout,
            *theme,
            6,
        ),
{
    let mut out: Vec<Mark> = draw_strip(layout, theme, 0, layout.content_x0, SLOTS);
    let ghost chrome = drawn(out@);
    let keys: [Option<SoftKey>; SLOTS] = keys_for(view.page);
    let mut slot: usize = 0;
    assert(drawn(out@) =~= chrome + label_marks(*view, *stats, *layout, *theme, 0));
    while slot < SLOTS
        invariant
            slot <= SLOTS,
            layout.wf(),
            forall|k: int| 0 <= k < SLOTS ==> #[trigger] keys[k] == key_in(view.page, k),
            drawn(out@) == chrome + label_marks(*view, *stats, *layout, *theme, slot as int),
        decreases SLOTS - slot,
    {
        let (_, y, w, h) = slot_rect(layout, slot);
        if let Some(key) = keys[slot] {
            let style: Style = Style::new(
                colour(key, view, stats, theme),
                theme.font_size_small,
                Align::Center,
                Baseline::Middle,
            );
            put_text(&mut out, w / 2, y + h / 2, label(key, view), style);
        }
        slot = slot + 1;
        assert(drawn(out@) =~= chrome + label_marks(*view, *stats, *layout, *theme, slot as int));
    }
    out
}

// --- laws ----------------------------------------------------------------------------------

/// Scrolling belongs to the weather page, caging to the attitude page, and everything else to the
/// plan view: no key stands on a page it does not belong to.
pub proof fn every_key_is_on_its_own_page(page: Page, slot: int)
    ensures
        match key_in(page, slot) {
            Some(SoftKey::ScrollUp) => page == Page::Weather,
            Some(SoftKey::ScrollDown) => page == Page::Weather,
            Some(SoftKey::ToggleDecode) => page == Page::Weather,
            Some(SoftKey::CageAhrs) => page == Page::Ahrs,
            Some(_) => page == Page::PlanView,
            None => true,
        },
{
}

/// No page carries the same key twice.
pub proof fn no_key_stands_twice(page: Page, slot: int, other: int)
    requires
        0 <= slot < SLOTS,
        0 <= other < SLOTS,
        key_in(page, slot) is Some,
        key_in(page, slot) == key_in(page, other),
    ensures
        slot == other,
{
}

/// The keys are equally tall, to a thousandth of a pixel.
pub proof fn slots_are_equally_tall(layout: Layout, slot: int)
    requires
        layout.wf(),
        0 <= slot < SLOTS,
    ensures
        ({
            let height = layout.slot_top(slot + 1, 6) - layout.slot_top(slot, 6);
            let share = (layout.strip_bottom() - layout.strip_top()) / 6;
            share <= height <= share + 1
        }),
{
    assert(slot == 0 || slot == 1 || slot == 2 || slot == 3 || slot == 4 || slot == 5);
}

/// Which key stands where: on the traffic page range up, range down, the altitude band, the orientation,
/// the weather and the map, from the top; on the weather page up, down and decode; on the attitude page
/// only the cage, at the bottom. No other slot has a key.
pub proof fn keys_stand_where_they_are_looked_for(slot: int)
    ensures
        key_in(Page::PlanView, 0) == Some(SoftKey::RangeUp),
        key_in(Page::PlanView, 1) == Some(SoftKey::RangeDown),
        key_in(Page::PlanView, 2) == Some(SoftKey::CycleAltitudeFilter),
        key_in(Page::PlanView, 3) == Some(SoftKey::ToggleOrientation),
        key_in(Page::PlanView, 4) == Some(SoftKey::ToggleUnderlay),
        key_in(Page::PlanView, 5) == Some(SoftKey::CycleMapLayers),
        key_in(Page::Weather, 0) == Some(SoftKey::ScrollUp),
        key_in(Page::Weather, 1) == Some(SoftKey::ScrollDown),
        key_in(Page::Weather, 2) == Some(SoftKey::ToggleDecode),
        slot != 0 && slot != 1 && slot != 2 ==> key_in(Page::Weather, slot) is None,
        key_in(Page::Ahrs, slot) is Some <==> slot == 5,
        key_in(Page::Ahrs, 5) == Some(SoftKey::CageAhrs),
{
}

/// A key says what is set, or what it would do: the range keys and the scroll keys say what they do, the
/// others how things stand.
pub proof fn keys_say_how_things_stand(view: ViewState)
    ensures
        label_of(SoftKey::RangeUp, view) == "RNG +"@,
        label_of(SoftKey::RangeDown, view) == "RNG -"@,
        label_of(SoftKey::ScrollUp, view) == "UP"@,
        label_of(SoftKey::ScrollDown, view) == "DOWN"@,
        view.orientation == Orientation::TrackUp ==> label_of(SoftKey::ToggleOrientation, view)
            == "TRK-UP"@,
        view.orientation == Orientation::NorthUp ==> label_of(SoftKey::ToggleOrientation, view)
            == "N-UP"@,
        view.show_weather_underlay ==> label_of(SoftKey::ToggleUnderlay, view) == "WX ON"@,
        !view.show_weather_underlay ==> label_of(SoftKey::ToggleUnderlay, view) == "WX OFF"@,
        view.map_layers == MapLayers::Off ==> label_of(SoftKey::CycleMapLayers, view) == "MAP OFF"@,
        view.map_layers == MapLayers::Airports ==> label_of(SoftKey::CycleMapLayers, view)
            == "MAP APT"@,
        view.map_layers == MapLayers::Full ==> label_of(SoftKey::CycleMapLayers, view) == "MAP ALL"@,
        view.weather_decode ==> label_of(SoftKey::ToggleDecode, view) == "RAW"@,
        !view.weather_decode ==> label_of(SoftKey::ToggleDecode, view) == "DECODE"@,
        view.altitude_filter == AltitudeFilter::Normal ==> label_of(
            SoftKey::CycleAltitudeFilter,
            view,
        ) == "ALT NRM"@,
        view.altitude_filter == AltitudeFilter::Above ==> label_of(
            SoftKey::CycleAltitudeFilter,
            view,
        ) == "ALT ABV"@,
        view.altitude_filter == AltitudeFilter::Below ==> label_of(
            SoftKey::CycleAltitudeFilter,
            view,
        ) == "ALT BLW"@,
        view.altitude_filter == AltitudeFilter::Unrestricted ==> label_of(
            SoftKey::CycleAltitudeFilter,
            view,
        ) == "ALT ALL"@,
        view.cage == CageState::Idle ==> label_of(SoftKey::CageAhrs, view) == "LEVEL"@,
        view.cage == CageState::Armed ==> label_of(SoftKey::CageAhrs, view) == "CONFIRM"@,
        view.cage == CageState::Requested || view.cage == CageState::InFlight ==> label_of(
            SoftKey::CageAhrs,
            view,
        ) == "..."@,
        view.cage matches CageState::Done { ok } ==> (ok ==> label_of(SoftKey::CageAhrs, view)
            == "CAGED"@) && (!ok ==> label_of(SoftKey::CageAhrs, view) == "FAILED"@),
{
}

/// What is on is shown in green, what hides something or waits for a second press in amber, what failed
/// in red, and everything else plainly.
pub proof fn keys_are_coloured_for_what_they_say(
    key: SoftKey,
    view: ViewState,
    stats: FrameStats,
    theme: Theme,
)
    ensures
        ({
            let colour = colour_of(key, view, stats, theme);
            let plain = key == SoftKey::RangeUp || key == SoftKey::RangeDown || key
                == SoftKey::ToggleOrientation || key == SoftKey::ScrollUp || key
                == SoftKey::ScrollDown;
            &&& plain ==> colour == theme.text_primary
            &&& key == SoftKey::ToggleUnderlay && view.show_weather_underlay ==> colour == theme.good
            &&& key == SoftKey::ToggleUnderlay && !view.show_weather_underlay ==> colour
                == theme.text_primary
            &&& key == SoftKey::CycleAltitudeFilter && stats.targets_outside_altitude > 0 ==> colour
                == theme.caution
            &&& key == SoftKey::CycleAltitudeFilter && stats.targets_outside_altitude == 0
                ==> colour == theme.text_primary
            &&& key == SoftKey::CycleMapLayers && view.map_layers == MapLayers::Full ==> colour
                == theme.caution
            &&& key == SoftKey::CycleMapLayers && view.map_layers == MapLayers::Airports ==> colour
                == theme.good
            &&& key == SoftKey::CycleMapLayers && view.map_layers == MapLayers::Off ==> colour
                == theme.text_primary
            &&& key == SoftKey::ToggleDecode && view.weather_decode ==> colour == theme.good
            &&& key == SoftKey::CageAhrs && view.cage == CageState::Armed ==> colour == theme.caution
            &&& key == SoftKey::CageAhrs && view.cage == (CageState::Done { ok: true }) ==> colour
                == theme.good
            &&& key == SoftKey::CageAhrs && view.cage == (CageState::Done { ok: false }) ==> colour
                == theme.warning
            &&& key == SoftKey::CageAhrs && view.cage == CageState::Idle ==> colour
                == theme.text_primary
        }),
{
}

/// A press is on the key whose label is there: the strip is the left edge of the panel, and a press in a
/// slot of it is on that slot. The label of a slot stands inside it, half way down and half way across
/// the strip.
pub proof fn a_press_is_on_the_key_that_is_there(layout: Layout, x: int, y: int, slot: int)
    requires
        layout.wf(),
        layout.strip_bottom() - layout.strip_top() >= 100,
        0 <= slot < 6,
    ensures
        x < layout.content_x0 && layout.in_slot(y, slot, 6) ==> pressed_slot(layout, x, y) == Some(
            slot,
        ),
        x >= layout.content_x0 ==> pressed_slot(layout, x, y) is None,
        y < layout.strip_top() || y >= layout.strip_bottom() ==> pressed_slot(layout, x, y) is None,
        layout.in_slot(slot_middle(layout, slot, 6), slot, 6),
        layout.slot_top(0, 6) == layout.strip_top(),
        layout.slot_top(6, 6) == layout.strip_bottom(),
{
    crate::layout::slots_fill_the_strip(layout, 6);
    slots_are_equally_tall(layout, slot);
    if x < layout.content_x0 && layout.in_slot(y, slot, 6) {
        crate::layout::slots_keep_off_the_bars(layout, y, slot, 6);
        let held = choose|held: int| layout.in_slot(y, held, 6);
        crate::layout::slots_do_not_overlap(layout, y, slot, held, 6);
    }
}

/// The label of every key of a page is on the glass, in the middle of its slot, and there is no other.
pub proof fn every_key_is_labelled(
    view: ViewState,
    stats: FrameStats,
    layout: Layout,
    theme: Theme,
    n: int,
    slot: int,
)
    requires
        0 <= slot < n,
        key_in(view.page, slot) is Some,
    ensures
        exists|k: int|
            0 <= k < label_marks(view, stats, layout, theme, n).len() && #[trigger] label_marks(
                view,
                stats,
                layout,
                theme,
                n,
            )[k] == text_at(
                layout.strip_width as int / 2,
                slot_middle(layout, slot, 6),
                label_of(key_in(view.page, slot)->0, view),
                Style {
                    colour: colour_of(key_in(view.page, slot)->0, view, stats, theme),
                    size: theme.font_size_small,
                    align: Align::Center,
                    baseline: Baseline::Middle,
                },
            ),
    decreases n,
{
    let before = label_marks(view, stats, layout, theme, n - 1);
    let all = label_marks(view, stats, layout, theme, n);
    if slot == n - 1 {
        assert(all[before.len() as int] == all[before.len() as int]);
    } else {
        every_key_is_labelled(view, stats, layout, theme, n - 1, slot);
        let k = choose|k: int|
            0 <= k < before.len() && #[trigger] before[k] == text_at(
                layout.strip_width as int / 2,
                slot_middle(layout, slot, 6),
                label_of(key_in(view.page, slot)->0, view),
                Style {
                    colour: colour_of(key_in(view.page, slot)->0, view, stats, theme),
                    size: theme.font_size_small,
                    align: Align::Center,
                    baseline: Baseline::Middle,
                },
            );
        assert(all[k] == before[k]);
    }
}

} // verus!
