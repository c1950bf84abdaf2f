//! What the pilot has selected, and what one frame showed.

use vstd::prelude::*;

use crate::domain::{elapsed, time_since, LatLon};
use crate::projection::Orientation;
use crate::threat::AltitudeFilter;

verus! {

/// Which screen is showing.
#[derive(Debug, Clone, Copy, PartialEq, Eq, Structural)]
pub enum Page {
    /// Own-ship-centred traffic display with the weather underlay.
    PlanView,
    /// FIS-B text products.
    Weather,
    /// Attitude from the AHRS, if a sensor is fitted.
    Ahrs,
}

impl Page {
    /// Every page, in the order the page strip lists them top to bottom.
    ///
    /// Traffic first because it is the one that matters most, and because a strip read top-down
    /// should start where the display starts.
    pub const ALL: [Page; 3] = [Page::PlanView, Page::Weather, Page::Ahrs];

    /// Where a page stands on the page strip.
    pub open spec fn place(self) -> int {
        match self {
            Page::PlanView => 0,
            Page::Weather => 1,
            Page::Ahrs => 2,
        }
    }

    /// The page after this one.
    pub open spec fn successor(self) -> Page {
        match self {
            Page::PlanView => Page::Weather,
            Page::Weather => Page::Ahrs,
            Page::Ahrs => Page::PlanView,
        }
    }

    /// The page after this one.
    ///
    /// Traffic is the page that matters most, so the cycle always returns there rather than
    /// leaving the attitude page as a place you can get stuck one key press from.
    pub fn next(self) -> (r: Page)
        ensures
            r == self.successor(),
    {
        match self {
            Page::PlanView => Page::Weather,
            Page::Weather => Page::Ahrs,
            Page::Ahrs => Page::PlanView,
        }
    }

    pub open spec fn name(self) -> Seq<char> {
        match self {
            Page::PlanView => "TFC"@,
            Page::Weather => "WX"@,
            Page::Ahrs => "AHRS"@,
        }
    }

    pub fn label(self) -> (r: &'static str)
        ensures
            r@ == self.name(),
    {
        match self {
            Page::PlanView => "TFC",
            Page::Weather => "WX",
            Page::Ahrs => "AHRS",
        }
    }

    /// Nanoseconds between frames; `None` for the panel's own rate.
    pub open spec fn interval(self) -> Option<u64> {
        match self {
            Page::PlanView => Some(33_000_000),
            Page::Weather => Some(125_000_000),
            Page::Ahrs => None,
        }
    }

    /// How often this page is worth redrawing, or `None` to run at the panel's refresh rate.
    ///
    /// # Why the plan view does not need 60 Hz
    ///
    /// The outer ring is about 187 px in radius on the 800x480 panel, so at the 40 nm range one
    /// pixel is roughly 0.21 nm. A 150 kt target covers 0.042 nm in a second, three thousandths of
    /// a pixel per frame at 60 Hz. The motion those frames exist to smooth is an order of magnitude
    /// below what the panel can physically show, and a dropped ADS-B message is worse than a
    /// dropped frame.
    ///
    /// # Why the attitude page is the exception
    ///
    /// Roll rate during a roll-in is tens of degrees per second, which makes attitude the one
    /// thing on this display that genuinely moves fast enough for the refresh rate to be visible.
    ///
    /// # Why not redraw only on change
    ///
    /// If the "nothing changed" test is ever wrong, the result is a *frozen* screen showing stale
    /// traffic. A fixed lower rate cannot fail that way.
    pub fn frame_interval(self) -> (r: Option<u64>)
        ensures
            r == self.interval(),
    {
        match self {
            Page::PlanView => Some(33_000_000),
            // Text products change when a new one is received, on the order of once a minute.
            // Even 8 Hz is far more often than the content moves; it is this high only so the
            // status bar's staleness clocks tick visibly and a soft key feels immediate.
            Page::Weather => Some(125_000_000),
            Page::Ahrs => None,
        }
    }
}

/// Progress of a "the aircraft is straight and level" request.
///
/// # Why this is a state machine and not a button
///
/// Caging re-references the sensor, and the corrected attitude flows to everything downstream:
/// this display, the GDL90 feed to a tablet, the logs. Caging while *not* level teaches the sensor
/// that a banked, pitched attitude is level, and nothing announces that it happened.
///
/// So one press is not enough. The first press arms and the key relabels to CONFIRM; only a second
/// press sends the request. The arm lapses on its own after [`CAGE_ARM_TIMEOUT`], so a stray press
/// followed by a real one seconds later cannot combine into a cage the pilot never intended.
#[derive(Debug, Clone, Copy, PartialEq, Eq, Structural)]
pub enum CageState {
    Idle,
    /// First press seen; waiting for confirmation.
    Armed,
    /// Confirmed. The app should issue the request and move to [`CageState::InFlight`].
    Requested,
    InFlight,
    /// Finished, showing the outcome briefly before returning to idle.
    Done { ok: bool },
}

impl CageState {
    /// What a press of the LEVEL key makes of this state.
    pub open spec fn pressed(self) -> CageState {
        match self {
            CageState::Idle => CageState::Armed,
            CageState::Armed => CageState::Requested,
            _ => self,
        }
    }
}

/// How much of the map layer is drawn.
///
/// # Why airspace is a separate step and not simply "the map"
///
/// Airports and airspace look like one feature and are not. An airport symbol fifty metres out
/// costs nothing; the worst it can do is clutter. An airspace boundary is something a pilot may
/// fly *relative to*, and one drawn wide, or one cycle stale, invites exactly the violation it
/// appears to prevent.
///
/// So the two are separable, and turning airspace on is what raises the `NOT FOR NAVIGATION`
/// banner in the footer. Airports alone make no claim a pilot would fly against, so they raise
/// nothing, which is also why they are the default.
#[derive(Debug, Clone, Copy, PartialEq, Eq, Structural)]
pub enum MapLayers {
    Off,
    /// Airports only. The default: useful, and it asserts nothing about airspace.
    Airports,
    /// Airports and Class B/C/D boundaries.
    Full,
}

impl MapLayers {
    pub const ALL: [MapLayers; 3] = [MapLayers::Off, MapLayers::Airports, MapLayers::Full];

    /// The layer setting after this one.
    pub open spec fn successor(self) -> MapLayers {
        match self {
            MapLayers::Off => MapLayers::Airports,
            MapLayers::Airports => MapLayers::Full,
            MapLayers::Full => MapLayers::Off,
        }
    }

    pub fn cycle(self) -> (r: MapLayers)
        ensures
            r == self.successor(),
    {
        match self {
            MapLayers::Off => MapLayers::Airports,
            MapLayers::Airports => MapLayers::Full,
            MapLayers::Full => MapLayers::Off,
        }
    }

    pub fn shows_airports(self) -> (r: bool)
        ensures
            r == (self != MapLayers::Off),
    {
        !matches!(self, MapLayers::Off)
    }

    pub fn shows_airspace(self) -> (r: bool)
        ensures
            r == (self == MapLayers::Full),
    {
        matches!(self, MapLayers::Full)
    }

    pub open spec fn name(self) -> Seq<char> {
        match self {
            MapLayers::Off => "MAP OFF"@,
            MapLayers::Airports => "MAP APT"@,
            MapLayers::Full => "MAP ALL"@,
        }
    }

    /// Shares its text with the soft key, so the key and the page cannot disagree.
    pub fn label(self) -> (r: &'static str)
        ensures
            r@ == self.name(),
    {
        match self {
            MapLayers::Off => "MAP OFF",
            MapLayers::Airports => "MAP APT",
            MapLayers::Full => "MAP ALL",
        }
    }
}

/// How long an armed cage waits for its confirming press before lapsing: five seconds.
pub const CAGE_ARM_TIMEOUT: u64 = 5_000_000_000;

/// How long the outcome stays on the key before it returns to idle: three seconds.
pub const CAGE_RESULT_DWELL: u64 = 3_000_000_000;

/// What an open card describes.
#[derive(Debug, Clone, Copy, PartialEq, Eq, Structural)]
pub enum Inspected {
    /// The airport at this place of the chart.
    Airport(u32),
    /// Whatever airspace covers this position.
    Airspace(LatLon),
}

/// A card the pilot has opened by tapping something on the map.
///
/// Opening one changes no selection: it is the only thing the plan-view body responds to, and a
/// stray touch that opens a card hides nothing and moves nothing.
#[derive(Debug, Clone, Copy, PartialEq, Eq, Structural)]
pub struct Inspect {
    pub subject: Inspected,
    pub opened: u64,
}

/// Where a range stands in the list; the middle for one that is not in it.
pub open spec fn range_place(range_mnm: u32) -> int {
    if range_mnm == 2_000 {
        0
    } else if range_mnm == 5_000 {
        1
    } else if range_mnm == 20_000 {
        3
    } else if range_mnm == 40_000 {
        4
    } else {
        2
    }
}

/// The next larger range, wrapping back to the smallest.
pub open spec fn range_above(range_mnm: u32) -> u32 {
    ViewState::RANGES[(range_place(range_mnm) + 1) % 5]
}

/// The next smaller range, wrapping back to the largest.
pub open spec fn range_below(range_mnm: u32) -> u32 {
    ViewState::RANGES[(range_place(range_mnm) + 4) % 5]
}

fn place_of_range(range_mnm: u32) -> (r: usize)
    ensures
        r == range_place(range_mnm),
        r < 5,
{
    let mut i: usize = 0;
    while i < 5
        invariant
            i <= 5,
            forall|k: int| 0 <= k < i ==> ViewState::RANGES[k] != range_mnm,
        decreases 5 - i,
    {
        if ViewState::RANGES[i] == range_mnm {
            return i;
        }
        i = i + 1;
    }
    assert(ViewState::RANGES[0] == 2_000 && ViewState::RANGES[1] == 5_000 && ViewState::RANGES[3] == 20_000 && ViewState::RANGES[4] == 40_000);
    2
}

/// What the pilot has selected. Persisted across frames by the app; mutated by touch.
#[derive(Debug, Clone, Copy, PartialEq, Eq, Structural)]
pub struct ViewState {
    pub page: Page,
    /// Selected range, in thousandths of a nautical mile.
    pub range_mnm: u32,
    /// Which slice of the vertical world to draw. The vertical equivalent of `range_mnm`.
    pub altitude_filter: AltitudeFilter,
    pub orientation: Orientation,
    /// Index into the weather list. Its meaning depends on `weather_decode`: the first entry
    /// shown when browsing, the *selected* entry when decoding. Clamped at draw time, since
    /// pruning can shrink the list between frames.
    pub weather_scroll: usize,
    /// Show the selected report's abbreviations expanded, instead of the list.
    pub weather_decode: bool,
    /// Draw the NEXRAD underlay on the plan view.
    pub show_weather_underlay: bool,
    /// How much of the airport and airspace layer to draw. See [`MapLayers`].
    pub map_layers: MapLayers,
    /// Progress of an AHRS cage request. See [`CageState`].
    pub cage: CageState,
    /// When `cage` last changed, for the arm timeout and result dwell.
    pub cage_changed: Option<u64>,
    /// The card that is open, if any.
    pub inspect: Option<Inspect>,
}

impl Default for ViewState {
    fn default() -> (r: ViewState)
        ensures
            r == ViewState::fresh(),
    {
        ViewState {
            page: Page::PlanView,
            // 10 nm is the useful default in a light aircraft: far enough to see converging
            // traffic with time to act, close enough that the circuit isn't a single blob.
            range_mnm: 10_000,
            // The vertical equivalent of that reasoning. The band is always named in the footer,
            // never merely implied, because this is the one selection that removes traffic from
            // the screen.
            altitude_filter: AltitudeFilter::Normal,
            orientation: Orientation::NorthUp,
            weather_scroll: 0,
            weather_decode: false,
            show_weather_underlay: true,
            // Airports on, airspace off. Airports are the half that carries no navigation claim,
            // so they cost nothing to have up; airspace is opt-in and says so on the panel.
            map_layers: MapLayers::Airports,
            cage: CageState::Idle,
            cage_changed: None,
            inspect: None,
        }
    }
}

impl ViewState {
    /// Selectable ranges, in thousandths of a nautical mile, smallest first.
    pub const RANGES: [u32; 5] = [2_000, 5_000, 10_000, 20_000, 40_000];

    /// What is selected at power-on.
    pub open spec fn fresh() -> ViewState {
        ViewState {
            page: Page::PlanView,
            range_mnm: 10_000,
            altitude_filter: AltitudeFilter::Normal,
            orientation: Orientation::NorthUp,
            weather_scroll: 0,
            weather_decode: false,
            show_weather_underlay: true,
            map_layers: MapLayers::Airports,
            cage: CageState::Idle,
            cage_changed: None,
            inspect: None,
        }
    }

    /// Step to the next larger range, wrapping back to the smallest.
    pub fn cycle_range(&mut self)
        ensures
            *final(self) == (ViewState { range_mnm: range_above(old(self).range_mnm), ..*old(self) }),
    {
        let current: usize = place_of_range(self.range_mnm);
        self.range_mnm = ViewState::RANGES[(current + 1) % 5];
    }

    /// Step to the next smaller range, wrapping back to the largest.
    pub fn cycle_range_down(&mut self)
        ensures
            *final(self) == (ViewState { range_mnm: range_below(old(self).range_mnm), ..*old(self) }),
    {
        let current: usize = place_of_range(self.range_mnm);
        self.range_mnm = ViewState::RANGES[(current + 4) % 5];
    }

    pub fn toggle_orientation(&mut self)
        ensures
            *final(self) == (ViewState {
                orientation: old(self).orientation.other(),
                ..*old(self)
            }),
    {
        self.orientation = self.orientation.toggled();
    }

    /// Step to the next altitude band, wrapping.
    pub fn cycle_altitude_filter(&mut self)
        ensures
            *final(self) == (ViewState {
                altitude_filter: old(self).altitude_filter.successor(),
                ..*old(self)
            }),
    {
        self.altitude_filter = self.altitude_filter.cycle();
    }

    /// Step the map layer through off, airports, airports and airspace.
    pub fn cycle_map_layers(&mut self)
        ensures
            *final(self) == (ViewState {
                map_layers: old(self).map_layers.successor(),
                ..*old(self)
            }),
    {
        self.map_layers = self.map_layers.cycle();
    }

    /// The view with the cage moved to a state.
    pub open spec fn caged(self, state: CageState, now: u64) -> ViewState {
        ViewState { cage: state, cage_changed: Some(now), ..self }
    }

    pub fn set_cage(&mut self, state: CageState, now: u64)
        ensures
            *final(self) == old(self).caged(state, now),
    {
        self.cage = state;
        self.cage_changed = Some(now);
    }

    /// Whether the cage has been as it is for longer than that state lasts.
    pub open spec fn cage_has_lapsed(self, now: u64) -> bool {
        match (self.cage, self.cage_changed) {
            (CageState::Armed, Some(changed)) => time_since(now as int, changed as int)
                > CAGE_ARM_TIMEOUT,
            (CageState::Done { .. }, Some(changed)) => time_since(now as int, changed as int)
                > CAGE_RESULT_DWELL,
            _ => false,
        }
    }

    /// What a frame at a moment makes of the cage.
    pub open spec fn ticked(self, now: u64) -> ViewState {
        if self.cage_has_lapsed(now) {
            self.caged(CageState::Idle, now)
        } else {
            self
        }
    }

    /// Let an armed cage lapse, and retire a finished one. Call once per frame.
    ///
    /// Without this an arm would persist indefinitely, so a press now and an unrelated press
    /// minutes later would combine into a cage nobody asked for.
    pub fn tick_cage(&mut self, now: u64)
        ensures
            *final(self) == old(self).ticked(now),
    {
        let changed: u64 = match self.cage_changed {
            Some(changed) => changed,
            None => return,
        };
        let since: u64 = elapsed(now, changed);
        match self.cage {
            CageState::Armed => if since > CAGE_ARM_TIMEOUT {
                self.set_cage(CageState::Idle, now);
            },
            CageState::Done { ok } => if since > CAGE_RESULT_DWELL {
                self.set_cage(CageState::Idle, now);
            },
            _ => {},
        }
    }
}

impl ViewState {
    /// What a frame at a moment makes of an open card.
    pub open spec fn card_ticked(self, dwell: u64, now: u64) -> ViewState {
        match self.inspect {
            Some(card) => if time_since(now as int, card.opened as int) > dwell {
                ViewState { inspect: None, ..self }
            } else {
                self
            },
            None => self,
        }
    }

    /// Retire a card that has been up for longer than `dwell`. Call once per frame.
    ///
    /// It covers the lower-left of the plan view, and the pilot should not have to remember that a
    /// tap dismisses it.
    pub fn tick_inspect(&mut self, dwell: u64, now: u64)
        ensures
            *final(self) == old(self).card_ticked(dwell, now),
    {
        match self.inspect {
            Some(card) => if elapsed(now, card.opened) > dwell {
                self.inspect = None;
            },
            None => {},
        }
    }
}

/// How long a card stays open by itself, in nanoseconds.
pub const INSPECT_DWELL: u64 = 12_000_000_000;

/// What happened while drawing a frame. Feeds the status bar.
#[derive(Debug, Clone, Copy, PartialEq, Eq, Structural)]
pub struct FrameStats {
    pub targets_drawn: usize,
    /// Positional targets beyond the selected range, so culled from the rings.
    pub targets_outside_range: usize,
    /// Targets inside the range ring but outside the selected altitude band.
    ///
    /// Reported separately from `targets_outside_range` and never folded into it: the two are
    /// undone by different keys, and a pilot who cannot tell which selection is hiding something
    /// has to try both. A target outside *both* is counted as out of range only, because range is
    /// tested first.
    pub targets_outside_altitude: usize,
    /// Targets heard without a position: Mode-S only, or ADS-B before its first position report.
    pub targets_no_position: usize,
    /// Targets with a good position that could not be drawn because **own-ship** is missing.
    ///
    /// This is the count that distinguishes "the sky is empty" from "the radios are working and
    /// the GPS is not". The plan view needs an origin before it can place anything, so a GPS
    /// failure blanks the display exactly as a dead receiver would.
    pub targets_unplotted: usize,
    pub targets_coasting: usize,
    pub advisories: usize,
    pub alerts: usize,
    /// Tags dropped because there was nowhere to put them without overlapping. The symbols are
    /// still drawn; only the labels were lost.
    pub tags_suppressed: usize,
    /// Airport symbols drawn from the chart file, after the range tier and the panel cull.
    pub airports_drawn: usize,
    /// Airspace volumes whose boundary reached the screen.
    pub airspace_drawn: usize,
}

impl FrameStats {
    /// A frame in which nothing was drawn.
    pub open spec fn blank() -> FrameStats {
        FrameStats {
            targets_drawn: 0,
            targets_outside_range: 0,
            targets_outside_altitude: 0,
            targets_no_position: 0,
            targets_unplotted: 0,
            targets_coasting: 0,
            advisories: 0,
            alerts: 0,
            tags_suppressed: 0,
            airports_drawn: 0,
            airspace_drawn: 0,
        }
    }

    /// A frame of a page that shows no traffic: what was heard without a position is still counted.
    pub fn off_the_plan(without_position: usize) -> (r: FrameStats)
        ensures
            r == (FrameStats { targets_no_position: without_position, ..FrameStats::blank() }),
    {
        FrameStats { targets_no_position: without_position, ..FrameStats::default() }
    }
}

impl Default for FrameStats {
    fn default() -> (r: FrameStats)
        ensures
            r == FrameStats::blank(),
    {
        FrameStats {
            targets_drawn: 0,
            targets_outside_range: 0,
            targets_outside_altitude: 0,
            targets_no_position: 0,
            targets_unplotted: 0,
            targets_coasting: 0,
            advisories: 0,
            alerts: 0,
            tags_suppressed: 0,
            airports_drawn: 0,
            airspace_drawn: 0,
        }
    }
}

// --- laws ----------------------------------------------------------------------------------

/// The page cycle visits every page and comes back.
pub proof fn the_page_cycle_closes(page: Page)
    ensures
        page.successor() != page,
        page.successor().successor() != page,
        page.successor().successor().successor() == page,
{
}

/// The map key visits every setting and comes back.
pub proof fn the_map_cycle_closes(layers: MapLayers)
    ensures
        layers.successor() != layers,
        layers.successor().successor() != layers,
        layers.successor().successor().successor() == layers,
{
}

/// Stepping the range always lands on a selectable one, from anywhere.
pub proof fn every_step_lands_on_a_selectable_range(range_mnm: u32)
    ensures
        ViewState::RANGES@.contains(range_above(range_mnm)),
        ViewState::RANGES@.contains(range_below(range_mnm)),
{
    assert(ViewState::RANGES@[(range_place(range_mnm) + 1) % 5] == range_above(range_mnm));
    assert(ViewState::RANGES@[(range_place(range_mnm) + 4) % 5] == range_below(range_mnm));
}

/// The two range keys undo each other.
pub proof fn range_steps_undo_each_other(range_mnm: u32)
    requires
        ViewState::RANGES@.contains(range_mnm),
    ensures
        range_below(range_above(range_mnm)) == range_mnm,
        range_above(range_below(range_mnm)) == range_mnm,
{
    let k = choose|k: int| 0 <= k < ViewState::RANGES@.len() && ViewState::RANGES@[k] == range_mnm;
    assert(ViewState::RANGES[k] == range_mnm);
    assert(ViewState::RANGES[0] == 2_000 && ViewState::RANGES[1] == 5_000 && ViewState::RANGES[2] == 10_000 && ViewState::RANGES[3] == 20_000
        && ViewState::RANGES[4] == 40_000);
    assert(k == 0 || k == 1 || k == 2 || k == 3 || k == 4);
}

/// Stepping up through all the ranges comes back to the first.
pub proof fn the_range_cycle_closes(range_mnm: u32)
    requires
        ViewState::RANGES@.contains(range_mnm),
    ensures
        range_above(range_above(range_above(range_above(range_above(range_mnm))))) == range_mnm,
{
    let k = choose|k: int| 0 <= k < ViewState::RANGES@.len() && ViewState::RANGES@[k] == range_mnm;
    assert(ViewState::RANGES[k] == range_mnm);
    assert(ViewState::RANGES[0] == 2_000 && ViewState::RANGES[1] == 5_000 && ViewState::RANGES[2] == 10_000 && ViewState::RANGES[3] == 20_000
        && ViewState::RANGES[4] == 40_000);
    assert(k == 0 || k == 1 || k == 2 || k == 3 || k == 4);
}

/// One press of the LEVEL key never asks for a cage: from idle it takes two.
pub proof fn caging_takes_two_presses(cage: CageState)
    ensures
        cage.pressed() == CageState::Requested && cage != CageState::Requested ==> cage
            == CageState::Armed,
        CageState::Idle.pressed() != CageState::Requested,
        CageState::Idle.pressed().pressed() == CageState::Requested,
{
}

/// A press whose arm has lapsed starts over: it arms again and asks for nothing.
pub proof fn a_lapsed_arm_does_not_combine(view: ViewState, changed: u64, now: u64)
    requires
        view.cage == CageState::Armed,
        view.cage_changed == Some(changed),
        now > changed + CAGE_ARM_TIMEOUT,
    ensures
        view.ticked(now).cage == CageState::Idle,
        view.ticked(now).cage.pressed() == CageState::Armed,
{
}

/// A card goes away by itself, and takes nothing else with it.
pub proof fn a_card_is_retired(view: ViewState, card: Inspect, dwell: u64, now: u64)
    requires
        view.inspect == Some(card),
        now > card.opened + dwell,
    ensures
        view.card_ticked(dwell, now) == (ViewState { inspect: None, ..view }),
{
}

/// Ticking disturbs nothing but the cage, and leaves a request that is under way alone.
pub proof fn ticking_changes_only_the_cage(view: ViewState, now: u64)
    ensures
        view.ticked(now) == (ViewState {
            cage: view.ticked(now).cage,
            cage_changed: view.ticked(now).cage_changed,
            ..view
        }),
        view.cage == CageState::Requested || view.cage == CageState::InFlight ==> view.ticked(now)
            == view,
        view.ticked(now).ticked(now) == view.ticked(now),
{
}

/// The pages come round in order: traffic, weather, attitude. Each is named after what it shows, and is
/// drawn again as often as what it shows needs: thirty times a second, eight times a second, or as often
/// as the panel can.
pub proof fn pages_come_round_in_order()
    ensures
        Page::PlanView.successor() == Page::Weather,
        Page::Weather.successor() == Page::Ahrs,
        Page::Ahrs.successor() == Page::PlanView,
        Page::PlanView.name() == "TFC"@,
        Page::Weather.name() == "WX"@,
        Page::Ahrs.name() == "AHRS"@,
        Page::PlanView.place() == 0,
        Page::Weather.place() == 1,
        Page::Ahrs.place() == 2,
        Page::ALL[Page::PlanView.place()] == Page::PlanView,
        Page::ALL[Page::Weather.place()] == Page::Weather,
        Page::ALL[Page::Ahrs.place()] == Page::Ahrs,
        Page::PlanView.interval() == Some(33_000_000u64),
        Page::Weather.interval() == Some(125_000_000u64),
        Page::Ahrs.interval() is None,
{
}

/// The map comes on a step at a time: nothing, then airports, then all of it, then nothing again.
pub proof fn the_map_comes_on_a_step_at_a_time()
    ensures
        MapLayers::Off.successor() == MapLayers::Airports,
        MapLayers::Airports.successor() == MapLayers::Full,
        MapLayers::Full.successor() == MapLayers::Off,
        MapLayers::Off.name() == "MAP OFF"@,
        MapLayers::Airports.name() == "MAP APT"@,
        MapLayers::Full.name() == "MAP ALL"@,
        MapLayers::ALL[0] == MapLayers::Off,
        MapLayers::ALL[1] == MapLayers::Airports,
        MapLayers::ALL[2] == MapLayers::Full,
{
}

/// The ranges are two, five, ten, twenty and forty miles: a step up is the next longer and a step down
/// the next shorter, except at the ends, where it goes round.
pub proof fn ranges_step_to_their_neighbours(range_mnm: u32)
    ensures
        range_above(2_000) == 5_000,
        range_above(5_000) == 10_000,
        range_above(10_000) == 20_000,
        range_above(20_000) == 40_000,
        range_above(40_000) == 2_000,
        range_below(40_000) == 20_000,
        range_below(20_000) == 10_000,
        range_below(10_000) == 5_000,
        range_below(5_000) == 2_000,
        range_below(2_000) == 40_000,
        range_mnm != 2_000 && range_mnm != 5_000 && range_mnm != 20_000 && range_mnm != 40_000
            ==> range_above(range_mnm) == 20_000 && range_below(range_mnm) == 5_000,
{
    assert(ViewState::RANGES[0] == 2_000 && ViewState::RANGES[1] == 5_000 && ViewState::RANGES[2]
        == 10_000 && ViewState::RANGES[3] == 20_000 && ViewState::RANGES[4] == 40_000);
}

/// Caging starts armed, not done: a first press arms it and a second within five seconds asks for it.
/// The outcome stays on the key for three seconds. A request under way is left alone, and nothing lapses
/// before its time.
pub proof fn caging_lapses_after_its_time(view: ViewState, now: u64, changed: u64)
    requires
        view.cage_changed == Some(changed),
    ensures
        CageState::Idle.pressed() == CageState::Armed,
        CageState::Armed.pressed() == CageState::Requested,
        CageState::Requested.pressed() == CageState::Requested,
        view.cage == CageState::Armed ==> (view.cage_has_lapsed(now) <==> now - changed
            > 5_000_000_000),
        view.cage is Done ==> (view.cage_has_lapsed(now) <==> now - changed > 3_000_000_000),
        view.cage == CageState::Requested || view.cage == CageState::Idle ==> !view.cage_has_lapsed(
            now,
        ),
        view.cage_has_lapsed(now) ==> view.ticked(now).cage == CageState::Idle,
        !view.cage_has_lapsed(now) ==> view.ticked(now) == view,
{
}

/// A card is left open for as long as it may be and closed after it, and closing it changes nothing
/// else.
pub proof fn a_card_stays_open_for_its_time(view: ViewState, card: Inspect, dwell: u64, now: u64)
    requires
        view.inspect == Some(card),
    ensures
        now - card.opened <= dwell ==> view.card_ticked(dwell, now) == view,
        now - card.opened > dwell ==> view.card_ticked(dwell, now) == (ViewState {
            inspect: None,
            ..view
        }),
        INSPECT_DWELL == 12_000_000_000,
{
}

/// The display comes on on the traffic page at ten miles with north up, the usual altitude band, the
/// weather under it and the airports on, and with nothing open and nothing armed.
pub proof fn what_is_on_at_power_on()
    ensures
        ({
            let view = ViewState::fresh();
            &&& view.page == Page::PlanView && view.range_mnm == 10_000
            &&& view.altitude_filter == AltitudeFilter::Normal
            &&& view.orientation == Orientation::NorthUp
            &&& view.weather_scroll == 0 && !view.weather_decode
            &&& view.show_weather_underlay
            &&& view.map_layers == MapLayers::Airports
            &&& view.cage == CageState::Idle && view.cage_changed is None
            &&& view.inspect is None
        }),
{
}

} // verus!
