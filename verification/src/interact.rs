//! Mapping gestures onto the view.
//!
//! Deciding what a tap means requires knowing the layout: where the status bar ends, how many
//! weather rows fit. The whole interaction model is here, with no screen and no clock of its own.
//!
//! The gesture vocabulary is deliberately tiny. In turbulence a hand steadies itself against the
//! panel, and every additional gesture is another way for the display to silently wander off the
//! range or heading reference the pilot selected. Two fingers and a tap is the whole language.

use vstd::prelude::*;

use crate::airspace::is_covered;
use crate::chart::Chart;
use crate::domain::LatLon;
use crate::layout::Layout;
use crate::maplayer;
use crate::pagestrip;
use crate::projection::Projection;
use crate::softkeys;
use crate::softkeys::SoftKey;
use crate::theme::Theme;
use crate::view::{CageState, Inspect, Inspected, MapLayers, Page, ViewState};
use crate::weatherpage;

verus! {

/// Where a tap landed.
#[derive(Debug, Clone, Copy, PartialEq, Eq, Structural)]
pub enum TapZone {
    /// The status bar strip along the top.
    StatusBar,
    /// The upper part of the body.
    BodyUpper,
    /// The lower part of the body.
    BodyLower,
    /// The footer strip along the bottom.
    Footer,
}

/// The zone a height on screen lies in.
pub open spec fn zone_of(layout: Layout, y: int) -> TapZone {
    if y <= layout.status_bar_height {
        TapZone::StatusBar
    } else if y >= layout.height - layout.footer_height {
        TapZone::Footer
    } else if 2 * (y - layout.status_bar_height) < layout.height - layout.status_bar_height
        - layout.footer_height {
        TapZone::BodyUpper
    } else {
        TapZone::BodyLower
    }
}

pub fn zone_for(layout: &Layout, _x: i64, y: i64) -> (r: TapZone)
    requires
        layout.wf(),
    ensures
        r == zone_of(*layout, y as int),
{
    if y <= layout.status_bar_height {
        TapZone::StatusBar
    } else if y >= layout.height - layout.footer_height {
        TapZone::Footer
    } else if 2 * (y - layout.status_bar_height) < layout.height - layout.status_bar_height
        - layout.footer_height {
        TapZone::BodyUpper
    } else {
        TapZone::BodyLower
    }
}

/// How far below a number another is; zero if it is not below.
pub open spec fn below(n: int, amount: int) -> int {
    if n > amount {
        n - amount
    } else {
        0
    }
}

/// How far one press of a scroll key moves: a page of rows, or one entry while decoding.
pub open spec fn scroll_step(view: ViewState, rows: int) -> int {
    if view.weather_decode {
        1
    } else {
        rows
    }
}

/// The last place a scroll key stops at.
pub open spec fn last_offset(view: ViewState, rows: int, total: int) -> int {
    below(total, scroll_step(view, rows))
}

/// Where a press of DOWN leaves the list.
///
/// It wraps at the end rather than sticking: with no scrollbar to drag, a dead tap looks like the
/// display has frozen.
pub open spec fn scrolled_down(view: ViewState, rows: int, total: int) -> int {
    let last = last_offset(view, rows, total);
    if view.weather_scroll >= last {
        0
    } else if view.weather_scroll + scroll_step(view, rows) > last {
        last
    } else {
        view.weather_scroll + scroll_step(view, rows)
    }
}

/// Where a press of UP leaves the list.
pub open spec fn scrolled_up(view: ViewState, rows: int) -> int {
    below(view.weather_scroll as int, scroll_step(view, rows))
}

fn scroll_down(view: &mut ViewState, rows: usize, total: usize)
    ensures
        *final(view) == (ViewState {
            weather_scroll: scrolled_down(*old(view), rows as int, total as int) as usize,
            ..*old(view)
        }),
{
    // Decoding shows one report at a time, so the keys step by one entry rather than by a page.
    let step: usize = if view.weather_decode {
        1
    } else {
        rows
    };
    let last: usize = if total > step {
        total - step
    } else {
        0
    };
    view.weather_scroll =
    if view.weather_scroll >= last {
        0
    } else if step > last - view.weather_scroll {
        last
    } else {
        view.weather_scroll + step
    };
}

fn scroll_up(view: &mut ViewState, rows: usize)
    ensures
        *final(view) == (ViewState {
            weather_scroll: scrolled_up(*old(view), rows as int) as usize,
            ..*old(view)
        }),
{
    let step: usize = if view.weather_decode {
        1
    } else {
        rows
    };
    view.weather_scroll =
    if view.weather_scroll > step {
        view.weather_scroll - step
    } else {
        0
    };
}

/// A place in the list, brought back inside it.
pub open spec fn inside_list(place: int, total: int) -> int {
    if place < total {
        place
    } else {
        below(total, 1)
    }
}

/// What a soft key makes of the view.
pub open spec fn pressed(
    view: ViewState,
    key: SoftKey,
    rows: int,
    total: int,
    now: u64,
) -> ViewState {
    match key {
        SoftKey::RangeUp => ViewState {
            range_mnm: crate::view::range_above(view.range_mnm),
            ..view
        },
        SoftKey::RangeDown => ViewState {
            range_mnm: crate::view::range_below(view.range_mnm),
            ..view
        },
        SoftKey::ToggleOrientation => ViewState { orientation: view.orientation.other(), ..view },
        SoftKey::CycleAltitudeFilter => ViewState {
            altitude_filter: view.altitude_filter.successor(),
            ..view
        },
        SoftKey::ToggleUnderlay => ViewState {
            show_weather_underlay: !view.show_weather_underlay,
            ..view
        },
        SoftKey::CycleMapLayers => ViewState { map_layers: view.map_layers.successor(), ..view },
        SoftKey::ScrollUp => ViewState {
            weather_scroll: scrolled_up(view, rows) as usize,
            ..view
        },
        SoftKey::ScrollDown => ViewState {
            weather_scroll: scrolled_down(view, rows, total) as usize,
            ..view
        },
        SoftKey::ToggleDecode => ViewState {
            weather_decode: !view.weather_decode,
            weather_scroll: inside_list(view.weather_scroll as int, total) as usize,
            ..view
        },
        SoftKey::CageAhrs => if view.cage == CageState::Idle || view.cage == CageState::Armed {
            view.caged(view.cage.pressed(), now)
        } else {
            view
        },
    }
}

/// Apply a soft key. Separate from [`tap`] so the mapping does not go through hit-testing.
pub fn apply_key_at(
    view: &mut ViewState,
    key: SoftKey,
    weather_rows: usize,
    weather_total: usize,
    now: u64,
)
    ensures
        *final(view) == pressed(*old(view), key, weather_rows as int, weather_total as int, now),
{
    match key {
        SoftKey::RangeUp => view.cycle_range(),
        SoftKey::RangeDown => view.cycle_range_down(),
        SoftKey::ToggleOrientation => view.toggle_orientation(),
        SoftKey::CycleAltitudeFilter => view.cycle_altitude_filter(),
        SoftKey::ToggleUnderlay => {
            view.show_weather_underlay = !view.show_weather_underlay;
        },
        SoftKey::CycleMapLayers => view.cycle_map_layers(),
        SoftKey::ScrollUp => scroll_up(view, weather_rows),
        SoftKey::ScrollDown => scroll_down(view, weather_rows, weather_total),
        SoftKey::ToggleDecode => {
            view.weather_decode = !view.weather_decode;
            // Entering decode selects the first entry that was on screen, so the report being
            // expanded is one the reader was already looking at rather than a jump to the top.
            if view.weather_scroll >= weather_total {
                view.weather_scroll =
                if weather_total > 1 {
                    weather_total - 1
                } else {
                    0
                };
            }
        },
        SoftKey::CageAhrs => match view.cage {
            // Arm, then confirm. A single press must never re-reference the sensor.
            CageState::Idle => view.set_cage(CageState::Armed, now),
            CageState::Armed => view.set_cage(CageState::Requested, now),
            // Already in flight, or showing its result: ignore rather than queueing a second
            // request behind the first.
            _ => {},
        },
    }
}

/// The first entry showing, while the list is browsed.
pub open spec fn first_shown(view: ViewState, rows: int, total: int) -> int {
    if view.weather_scroll < below(total, rows) {
        view.weather_scroll as int
    } else {
        below(total, rows)
    }
}

/// What a tap on the body of the weather page makes of the view: it opens the report under the
/// finger, and closes one that is open, going back to the page of the list it is on.
pub open spec fn weather_tapped(
    view: ViewState,
    row: Option<int>,
    rows: int,
    total: int,
) -> ViewState {
    if view.weather_decode {
        let page = if rows < 1 {
            1
        } else {
            rows
        };
        ViewState {
            weather_decode: false,
            weather_scroll: (view.weather_scroll as int / page * page) as usize,
            ..view
        }
    } else {
        match row {
            Some(row) => if first_shown(view, rows, total) + row < total {
                ViewState {
                    weather_decode: true,
                    weather_scroll: (first_shown(view, rows, total) + row) as usize,
                    ..view
                }
            } else {
                view
            },
            None => view,
        }
    }
}

/// Apply a tap on the body of the weather page.
fn tap_weather(view: &mut ViewState, row: Option<usize>, rows: usize, total: usize)
    ensures
        *final(view) == weather_tapped(
            *old(view),
            match row {
                Some(row) => Some(row as int),
                None => None,
            },
            rows as int,
            total as int,
        ),
{
    if view.weather_decode {
        let page: usize = if rows < 1 {
            1
        } else {
            rows
        };
        let scroll: usize = view.weather_scroll;
        proof {
            vstd::arithmetic::div_mod::lemma_fundamental_div_mod(scroll as int, page as int);
            assert(page * (scroll as int / page as int) == (scroll as int / page as int) * page)
                by (nonlinear_arith);
            assert(0 <= scroll as int / page as int) by (nonlinear_arith)
                requires
                    0 < page,
                    0 <= scroll,
            ;
            assert(0 <= (scroll as int / page as int) * page) by (nonlinear_arith)
                requires
                    0 <= scroll as int / page as int,
                    0 < page,
            ;
        }
        view.weather_decode = false;
        view.weather_scroll = scroll / page * page;
        return;
    }
    match row {
        Some(row) => {
            let last: usize = if total > rows {
                total - rows
            } else {
                0
            };
            let first: usize = if view.weather_scroll < last {
                view.weather_scroll
            } else {
                last
            };
            // There is no report under the space below the last one, and opening the nearest would
            // open a report the finger was not on.
            if first < total && row < total - first {
                view.weather_decode = true;
                view.weather_scroll = first + row;
            }
        },
        None => {},
    }
}

/// What a single-finger tap makes of the view.
pub open spec fn tapped(
    view: ViewState,
    theme: Theme,
    layout: Layout,
    x: int,
    y: int,
    rows: int,
    total: int,
    now: u64,
) -> ViewState {
    match pagestrip::pressed_page(layout, x, y) {
        Some(page) => ViewState { page, ..view },
        None => match softkeys::pressed_slot(layout, x, y) {
            Some(slot) => match softkeys::key_in(view.page, slot) {
                Some(key) => pressed(view, key, rows, total, now),
                None => view,
            },
            None => {
                let zone = zone_of(layout, y);
                if view.page == Page::Weather && zone != TapZone::StatusBar && zone
                    != TapZone::Footer {
                    weather_tapped(view, weatherpage::row_under(theme, layout, y), rows, total)
                } else {
                    view
                }
            },
        },
    }
}

/// Apply a single-finger tap.
///
/// `weather_rows` is how many text entries currently fit, needed to page the weather list; pass
/// [`crate::weatherpage::rows_per_page`].
pub fn tap(
    theme: &Theme,
    view: &mut ViewState,
    layout: &Layout,
    x: i64,
    y: i64,
    weather_rows: usize,
    weather_total: usize,
    now: u64,
)
    requires
        theme.sizes_ok(),
        layout.wf(),
    ensures
        *final(view) == tapped(
            *old(view),
            *theme,
            *layout,
            x as int,
            y as int,
            weather_rows as int,
            weather_total as int,
            now,
        ),
{
    // Both strips win over everything: a key press must never also register as whatever is
    // underneath it.
    match pagestrip::hit(layout, x, y) {
        Some(page) => {
            view.page = page;
            return;
        },
        None => {},
    }
    match softkeys::hit(layout, x, y) {
        Some(slot) => {
            match softkeys::key_at(view, slot) {
                Some(key) => apply_key_at(view, key, weather_rows, weather_total, now),
                // A press on an inert slot is still a press on the strip. Swallow it rather than
                // letting it fall through to the page underneath.
                None => {},
            }
            return;
        },
        None => {},
    }
    match zone_for(layout, x, y) {
        // Inert: a hand steadying itself against the panel should not change what is on it.
        TapZone::StatusBar => {},
        TapZone::Footer => {},
        _ => match view.page {
            // A tap anywhere in the body must not change the range or anything else by accident.
            Page::PlanView => {},
            // Nothing on the attitude page is adjustable, and an instrument that reacts to being
            // brushed is worse than one that does not react at all.
            Page::Ahrs => {},
            Page::Weather => {
                let row: Option<usize> = weatherpage::row_at(theme, layout, y);
                tap_weather(view, row, weather_rows, weather_total);
            },
        },
    }
}

/// What a two-finger tap makes of the view.
pub open spec fn two_finger_tapped(view: ViewState) -> ViewState {
    if view.page == Page::PlanView {
        ViewState { orientation: view.orientation.other(), ..view }
    } else {
        view
    }
}

/// Apply a two-finger tap.
pub fn two_finger_tap(view: &mut ViewState)
    ensures
        *final(view) == two_finger_tapped(*old(view)),
{
    match view.page {
        Page::PlanView => view.toggle_orientation(),
        // Nothing sensible to toggle on these; do nothing rather than invent a behaviour.
        Page::Weather => {},
        Page::Ahrs => {},
    }
}

/// What the map has under a tap: the chart it is drawn from, and the projection it is drawn by.
pub struct MapTap<'a> {
    pub chart: &'a Chart,
    pub projection: Projection,
}

/// The card a tap on the map opens, if any.
pub open spec fn card_under(
    view: ViewState,
    layout: Layout,
    map: MapTap<'_>,
    x: int,
    y: int,
) -> Option<Inspected> {
    let over = map.projection.under(x, y);
    match maplayer::airport_under(map.chart@, view, layout, map.projection, x, y) {
        Some(place) => Some(Inspected::Airport(place as u32)),
        None => if view.map_layers == MapLayers::Full && is_covered(map.chart@, over) {
            Some(Inspected::Airspace(over))
        } else {
            None
        },
    }
}

fn find_card(view: &ViewState, layout: &Layout, map: &MapTap<'_>, x: i64, y: i64) -> (r: Option<
    Inspected,
>)
    requires
        layout.wf(),
        map.projection.wf(),
    ensures
        r == card_under(*view, *layout, *map, x as int, y as int),
{
    // Airport first: it is the smaller and more specific target, and a symbol sitting inside a
    // Class D would otherwise be unreachable.
    match maplayer::hit_airport(map.chart, view, layout, &map.projection, x, y) {
        Some(airport) => Some(Inspected::Airport(airport.index)),
        None => {
            // Then the airspace under the tap, but only while it is being drawn: you cannot inspect
            // what is not on screen.
            if !view.map_layers.shows_airspace() {
                return None;
            }
            let over: LatLon = map.projection.unproject(x, y);
            if map.chart.airspace_at(over).len() > 0 {
                Some(Inspected::Airspace(over))
            } else {
                None
            }
        },
    }
}

/// What a tap makes of the view, the map included.
pub open spec fn handled(
    view: ViewState,
    theme: Theme,
    layout: Layout,
    map: Option<MapTap<'_>>,
    x: int,
    y: int,
    total: int,
    now: u64,
) -> ViewState {
    let on_strip = pagestrip::pressed_page(layout, x, y) is Some || softkeys::pressed_slot(
        layout,
        x,
        y,
    ) is Some;
    let card = match map {
        Some(map) => card_under(view, layout, map, x, y),
        None => None,
    };
    if !on_strip && view.page == Page::PlanView && card is Some {
        ViewState { inspect: Some(Inspect { subject: card->0, opened: now }), ..view }
    } else if !on_strip && view.page == Page::PlanView && view.inspect is Some {
        ViewState { inspect: None, ..view }
    } else {
        tapped(view, theme, layout, x, y, weatherpage::rows_of(theme, layout), total, now)
    }
}

/// Resolve a tap with everything on screen in view. The order below is the whole rule:
///
/// 1. Either strip wins, always. A key press must never also be something else.
/// 2. On the plan view with the map on, a tap on an airport symbol opens its card, and failing
///    that a tap on airspace that is being drawn opens its card.
/// 3. A tap anywhere else on the body dismisses an open card.
/// 4. Otherwise, the ordinary zone behaviour, which on the plan view is still nothing.
///
/// `map` is `None` without a chart or without an own-ship position to project it around.
pub fn handle_tap(
    theme: &Theme,
    layout: &Layout,
    view: &mut ViewState,
    map: Option<MapTap<'_>>,
    x: i64,
    y: i64,
    weather_total: usize,
    now: u64,
)
    requires
        theme.sizes_ok(),
        layout.wf(),
        map matches Some(map) ==> map.projection.wf(),
    ensures
        *final(view) == handled(
            *old(view),
            *theme,
            *layout,
            map,
            x as int,
            y as int,
            weather_total as int,
            now,
        ),
{
    let on_strip: bool = pagestrip::hit(layout, x, y).is_some() || softkeys::hit(
        layout,
        x,
        y,
    ).is_some();
    if !on_strip && view.page == Page::PlanView {
        let card: Option<Inspected> = match &map {
            Some(map) => find_card(view, layout, map, x, y),
            None => None,
        };
        match card {
            Some(subject) => {
                view.inspect = Some(Inspect { subject, opened: now });
                return;
            },
            None => {},
        }
        // Missed everything, so a card that is up goes away. This is the dismiss gesture, and it
        // is the same one that would otherwise have done nothing at all.
        if view.inspect.is_some() {
            view.inspect = None;
            return;
        }
    }
    let rows: usize = weatherpage::rows_per_page(theme, layout);
    tap(theme, view, layout, x, y, rows, weather_total, now);
}

// --- laws ----------------------------------------------------------------------------------

/// On the plan view a tap outside the strips changes no selection: all it can do is open or close
/// a card.
pub proof fn the_map_changes_no_selection(
    view: ViewState,
    theme: Theme,
    layout: Layout,
    map: Option<MapTap<'_>>,
    x: int,
    y: int,
    total: int,
    now: u64,
)
    requires
        layout.wf(),
        view.page == Page::PlanView,
        layout.content_x0 <= x < layout.content_x1,
    ensures
        handled(view, theme, layout, map, x, y, total, now) == (ViewState {
            inspect: handled(view, theme, layout, map, x, y, total, now).inspect,
            ..view
        }),
{
}

/// A key press never opens or closes a card.
pub proof fn keys_leave_the_card_alone(
    view: ViewState,
    theme: Theme,
    layout: Layout,
    map: Option<MapTap<'_>>,
    x: int,
    y: int,
    total: int,
    now: u64,
)
    requires
        pagestrip::pressed_page(layout, x, y) is Some || softkeys::pressed_slot(layout, x, y) is Some,
    ensures
        handled(view, theme, layout, map, x, y, total, now).inspect == view.inspect,
{
}

/// Nothing on the map can be tapped while it is off.
pub proof fn nothing_is_tappable_while_the_map_is_off(
    view: ViewState,
    layout: Layout,
    map: MapTap<'_>,
    x: int,
    y: int,
)
    requires
        view.map_layers == MapLayers::Off,
    ensures
        card_under(view, layout, map, x, y) is None,
{
}

/// A function key never moves the pilot off the page they are on.
pub proof fn keys_never_change_the_page(
    view: ViewState,
    key: SoftKey,
    rows: int,
    total: int,
    now: u64,
)
    ensures
        pressed(view, key, rows, total, now).page == view.page,
{
}

/// Every page is one press away from every other, and the press changes nothing else.
pub proof fn every_page_is_one_press_away(
    view: ViewState,
    to: Page,
    theme: Theme,
    layout: Layout,
    x: int,
    y: int,
    rows: int,
    total: int,
    now: u64,
)
    requires
        layout.wf(),
        x >= layout.content_x1,
        layout.in_slot(y, to.place(), 3),
    ensures
        tapped(view, theme, layout, x, y, rows, total, now) == (ViewState { page: to, ..view }),
{
    pagestrip::each_key_selects_its_own_page(layout, to, x, y);
}

/// A hand on the panel changes nothing: the content area of the plan view and of the attitude page
/// is inert.
pub proof fn the_body_is_inert(
    view: ViewState,
    theme: Theme,
    layout: Layout,
    x: int,
    y: int,
    rows: int,
    total: int,
    now: u64,
)
    requires
        layout.wf(),
        layout.content_x0 <= x < layout.content_x1,
        view.page != Page::Weather,
    ensures
        tapped(view, theme, layout, x, y, rows, total, now) == view,
{
}

/// Both bars are inert across the whole width of the panel, on every page.
pub proof fn the_bars_are_inert(
    view: ViewState,
    theme: Theme,
    layout: Layout,
    x: int,
    y: int,
    rows: int,
    total: int,
    now: u64,
)
    requires
        layout.wf(),
        layout.height - layout.footer_height >= layout.status_bar_height + 1_000,
        y < layout.status_bar_height || y >= layout.height - layout.footer_height,
    ensures
        tapped(view, theme, layout, x, y, rows, total, now) == view,
{
}

/// A tap opens the report under the finger, and a second tap in the content area comes back to the
/// page of the list it was opened from.
pub proof fn opening_a_report_is_a_round_trip(view: ViewState, row: int, page: int, rows: int, total: int)
    requires
        view.page == Page::Weather,
        !view.weather_decode,
        0 < rows,
        0 <= page,
        view.weather_scroll == page * rows,
        0 <= row < rows,
        (page + 1) * rows <= total <= usize::MAX,
    ensures
        weather_tapped(view, Some(row), rows, total).weather_decode,
        weather_tapped(view, Some(row), rows, total).weather_scroll == page * rows + row,
        forall|any: Option<int>|
            weather_tapped(weather_tapped(view, Some(row), rows, total), any, rows, total) == view,
{
    assert((page + 1) * rows == page * rows + rows) by (nonlinear_arith);
    assert(0 <= page * rows) by (nonlinear_arith)
        requires
            0 <= page,
            0 < rows,
    ;
    vstd::arithmetic::div_mod::lemma_fundamental_div_mod_converse(
        page * rows + row,
        rows,
        page,
        row,
    );
    assert(page * rows + row == page * rows + row);
    assert(rows * page == page * rows) by (nonlinear_arith);
}

/// DOWN stays in the list, and enough presses reach the top again: past the end it wraps.
pub proof fn scrolling_stays_in_the_list(view: ViewState, rows: int, total: int)
    requires
        0 < rows,
        0 <= total,
    ensures
        0 <= scrolled_down(view, rows, total) <= last_offset(view, rows, total),
        view.weather_scroll >= last_offset(view, rows, total) ==> scrolled_down(view, rows, total)
            == 0,
        view.weather_scroll < last_offset(view, rows, total) ==> scrolled_down(view, rows, total)
            > view.weather_scroll,
        scrolled_up(view, rows) <= view.weather_scroll,
{
}

/// UP undoes DOWN where DOWN moved a whole step.
pub proof fn up_undoes_down(view: ViewState, rows: int, total: int)
    requires
        0 < rows,
        total <= usize::MAX,
        view.weather_scroll + scroll_step(view, rows) <= last_offset(view, rows, total),
    ensures
        ({
            let moved = ViewState {
                weather_scroll: scrolled_down(view, rows, total) as usize,
                ..view
            };
            scrolled_up(moved, rows) == view.weather_scroll
        }),
{
}

/// What each key does, and that it does nothing else.
pub proof fn each_key_does_its_own(
    view: ViewState,
    rows: int,
    total: int,
    now: u64,
)
    requires
        0 < rows,
        0 <= total <= usize::MAX,
    ensures
        view.range_mnm == 10_000 ==> pressed(view, SoftKey::RangeUp, rows, total, now) == (ViewState {
            range_mnm: 20_000,
            ..view
        }),
        view.range_mnm == 10_000 ==> pressed(view, SoftKey::RangeDown, rows, total, now) == (
        ViewState { range_mnm: 5_000, ..view }),
        pressed(view, SoftKey::RangeUp, rows, total, now) == (ViewState {
            range_mnm: crate::view::range_above(view.range_mnm),
            ..view
        }),
        pressed(view, SoftKey::RangeDown, rows, total, now) == (ViewState {
            range_mnm: crate::view::range_below(view.range_mnm),
            ..view
        }),
        pressed(view, SoftKey::ToggleOrientation, rows, total, now).orientation != view.orientation,
        pressed(view, SoftKey::ToggleOrientation, rows, total, now) == (ViewState {
            orientation: view.orientation.other(),
            ..view
        }),
        pressed(view, SoftKey::ToggleUnderlay, rows, total, now) == (ViewState {
            show_weather_underlay: !view.show_weather_underlay,
            ..view
        }),
        pressed(view, SoftKey::CycleAltitudeFilter, rows, total, now) == (ViewState {
            altitude_filter: view.altitude_filter.successor(),
            ..view
        }),
        pressed(view, SoftKey::CycleMapLayers, rows, total, now) == (ViewState {
            map_layers: view.map_layers.successor(),
            ..view
        }),
        pressed(view, SoftKey::ToggleDecode, rows, total, now).weather_decode
            == !view.weather_decode,
        view.weather_scroll < total ==> pressed(view, SoftKey::ToggleDecode, rows, total, now)
            == (ViewState { weather_decode: !view.weather_decode, ..view }),
        view.weather_scroll >= total && total > 0 ==> pressed(
            view,
            SoftKey::ToggleDecode,
            rows,
            total,
            now,
        ).weather_scroll == total - 1,
        view.cage == CageState::Idle ==> pressed(view, SoftKey::CageAhrs, rows, total, now) == (
        ViewState { cage: CageState::Armed, cage_changed: Some(now), ..view }),
        view.cage == CageState::Armed ==> pressed(view, SoftKey::CageAhrs, rows, total, now) == (
        ViewState { cage: CageState::Requested, cage_changed: Some(now), ..view }),
        view.cage != CageState::Idle && view.cage != CageState::Armed ==> pressed(
            view,
            SoftKey::CageAhrs,
            rows,
            total,
            now,
        ) == view,
{
    assert(ViewState::RANGES[1] == 5_000 && ViewState::RANGES[3] == 20_000);
}

/// DOWN goes a page further through the list, or a report further where one is open, as far as the last;
/// from there it goes back to the start. UP goes as far back, and stops at the start.
pub proof fn scrolling_goes_a_page_at_a_time(view: ViewState, rows: int, total: int, now: u64)
    requires
        0 < rows,
        0 <= total <= usize::MAX,
    ensures
        ({
            let down = pressed(view, SoftKey::ScrollDown, rows, total, now);
            let up = pressed(view, SoftKey::ScrollUp, rows, total, now);
            let step = if view.weather_decode {
                1
            } else {
                rows
            };
            let last = if total > step {
                total - step
            } else {
                0
            };
            &&& down == (ViewState { weather_scroll: down.weather_scroll, ..view })
            &&& up == (ViewState { weather_scroll: up.weather_scroll, ..view })
            &&& view.weather_scroll + step <= last ==> down.weather_scroll == view.weather_scroll
                + step
            &&& view.weather_scroll < last < view.weather_scroll + step ==> down.weather_scroll
                == last
            &&& view.weather_scroll >= last ==> down.weather_scroll == 0
            &&& view.weather_scroll >= step ==> up.weather_scroll == view.weather_scroll - step
            &&& view.weather_scroll < step ==> up.weather_scroll == 0
        }),
{
}

/// A tap is in the bar, the footer or the half of the body between them that it is on.
pub proof fn a_tap_is_where_it_is(layout: Layout, y: int)
    requires
        layout.wf(),
        layout.status_bar_height < layout.height - layout.footer_height,
    ensures
        ({
            let (top, foot) = (
                layout.status_bar_height as int,
                layout.height - layout.footer_height,
            );
            &&& y <= top <==> zone_of(layout, y) == TapZone::StatusBar
            &&& y >= foot <==> zone_of(layout, y) == TapZone::Footer
            &&& top < y < foot && 2 * y < top + foot <==> zone_of(layout, y) == TapZone::BodyUpper
            &&& top < y < foot && 2 * y >= top + foot <==> zone_of(layout, y) == TapZone::BodyLower
        }),
{
}

/// A tap on a report opens that one: the one shown in the row, counted from the first that is shown, and
/// nothing where the list has ended.
pub proof fn a_tap_opens_the_report_in_its_row(view: ViewState, row: int, rows: int, total: int)
    requires
        !view.weather_decode,
        0 < rows,
        0 <= row < rows,
        0 <= total <= usize::MAX,
    ensures
        ({
            let first = if total <= rows {
                0
            } else if view.weather_scroll > total - rows {
                total - rows
            } else {
                view.weather_scroll as int
            };
            let after = weather_tapped(view, Some(row), rows, total);
            &&& first + row < total ==> after == (ViewState {
                weather_decode: true,
                weather_scroll: (first + row) as usize,
                ..view
            })
            &&& first + row >= total ==> after == view
            &&& weather_tapped(view, None, rows, total) == view
        }),
{
}

/// A tap anywhere on an open report goes back to the list, at the page that it is on.
pub proof fn a_tap_on_a_report_goes_back(view: ViewState, row: Option<int>, rows: int, total: int)
    requires
        view.weather_decode,
        0 < rows,
    ensures
        ({
            let after = weather_tapped(view, row, rows, total);
            &&& !after.weather_decode
            &&& after.weather_scroll as int % rows == 0
            &&& after.weather_scroll <= view.weather_scroll < after.weather_scroll + rows
            &&& after == (ViewState {
                weather_decode: false,
                weather_scroll: after.weather_scroll,
                ..view
            })
        }),
{
    let w = view.weather_scroll as int;
    vstd::arithmetic::div_mod::lemma_fundamental_div_mod(w, rows);
    vstd::arithmetic::div_mod::lemma_mod_bound(w, rows);
    let q = w / rows;
    assert(q * rows == rows * q) by (nonlinear_arith);
    assert(0 <= q) by (nonlinear_arith)
        requires
            q == w / rows,
            w >= 0,
            rows > 0,
    ;
    assert(q * rows >= 0) by (nonlinear_arith)
        requires
            q >= 0,
            rows > 0,
    ;
    vstd::arithmetic::div_mod::lemma_mod_multiples_basic(q, rows);
}

/// A tap on the left strip is a press of the key that stands there.
pub proof fn a_tap_on_the_strip_presses_its_key(
    view: ViewState,
    theme: Theme,
    layout: Layout,
    x: int,
    y: int,
    slot: int,
    rows: int,
    total: int,
    now: u64,
)
    requires
        layout.wf(),
        layout.strip_bottom() - layout.strip_top() >= 100,
        x < layout.content_x0,
        0 <= slot < 6,
        layout.in_slot(y, slot, 6),
    ensures
        softkeys::key_in(view.page, slot) matches Some(key) ==> tapped(
            view,
            theme,
            layout,
            x,
            y,
            rows,
            total,
            now,
        ) == pressed(view, key, rows, total, now),
        softkeys::key_in(view.page, slot) is None ==> tapped(
            view,
            theme,
            layout,
            x,
            y,
            rows,
            total,
            now,
        ) == view,
{
    softkeys::a_press_is_on_the_key_that_is_there(layout, x, y, slot);
}

/// Two fingers turn the traffic page round between north and track up, and do nothing anywhere else.
pub proof fn two_fingers_turn_the_map(view: ViewState)
    ensures
        view.page == Page::PlanView ==> two_finger_tapped(view).orientation != view.orientation
            && two_finger_tapped(view) == (ViewState {
            orientation: two_finger_tapped(view).orientation,
            ..view
        }),
        view.page != Page::PlanView ==> two_finger_tapped(view) == view,
        view.page == Page::PlanView ==> two_finger_tapped(two_finger_tapped(view)) == view,
{
}

/// A tap on the map opens what is under it, an airport before the airspace it lies in, at the moment of
/// the tap. Where there is nothing under it, it closes what was open. Airspace is only there to be
/// tapped while the whole map is on.
pub proof fn a_tap_on_the_map_opens_what_is_under_it(
    view: ViewState,
    theme: Theme,
    layout: Layout,
    map: MapTap<'_>,
    x: int,
    y: int,
    total: int,
    now: u64,
)
    requires
        layout.wf(),
        view.page == Page::PlanView,
        layout.content_x0 <= x < layout.content_x1,
    ensures
        ({
            let after = handled(view, theme, layout, Some(map), x, y, total, now);
            let airport = maplayer::airport_under(map.chart@, view, layout, map.projection, x, y);
            let over = map.projection.under(x, y);
            &&& airport matches Some(place) ==> after.inspect == Some(
                Inspect { subject: Inspected::Airport(place as u32), opened: now },
            )
            &&& airport is None && view.map_layers == MapLayers::Full && is_covered(map.chart@, over)
                ==> after.inspect == Some(
                Inspect { subject: Inspected::Airspace(over), opened: now },
            )
            &&& airport is None && !(view.map_layers == MapLayers::Full && is_covered(
                map.chart@,
                over,
            )) ==> after.inspect is None
            &&& handled(view, theme, layout, None, x, y, total, now).inspect is None
        }),
{
}

} // verus!
