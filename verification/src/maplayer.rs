//! The airport and airspace layer, underneath everything that moves: what is drawn of it, what a
//! tap on it finds, and what the cards it opens say.
//!
//! # Colour, and the one collision worth knowing about
//!
//! The sectional convention is Class B blue, Class C magenta, Class D dashed blue, and it is kept
//! because it is what a pilot already reads. It collides in exactly one place: the weather
//! underlay uses magenta for extreme precipitation. The two are told apart by weight rather than
//! hue: weather is a saturated fill, airspace is a thin desaturated stroke.
//!
//! Lengths are in thousandths of a pixel, ranges in thousandths of a nautical mile.

use vstd::prelude::*;

use crate::airspace::volumes_over;
use crate::chart::{
    airport_is, airport_position, airport_total, airports_are, airports_found, airspace_are,
    airspace_found, airspace_total, around, bounds_around, frequencies_of, has_flag, label_text,
    max_tier_for_range, name_text, ring_vertices, runways_of, tier_for, Airport, Airspace, Bounds,
    Chart, Class, FreqKind, Frequency, RingIter, Runway, Tier, FLAG_HARD_SURFACE, FLAG_LIGHTED,
    FLAG_LOWER_SURFACE,
};
use crate::domain::{elapsed, time_since, LatLon, WeatherProduct, WeatherText, SECOND};
use crate::layout::{larger, larger_of, smaller, smaller_of, Layout, LONGEST_SIDE};
use crate::marks::{
    drawn, nothing, put, put_all, put_line, put_text, stroke, text_at, Align, Area, Baseline, Mark,
    Painted, Style,
};
use crate::metar::{summarise, summarises, Summary, Wind, DEGREE};
use crate::projection::{
    distance_squared, ground_distance_nm, is_root, root, Projection, UNIT,
};
use crate::single::{doublings, power_of_two, push_doubled, two_to, two_to_grows, Single};
use crate::text::{
    decimal, decimals_read_back, lowered, nearest, nearest_of, number, padded, padded_reads_back,
    push_decimal, push_hundredths, push_padded, push_signed, push_tenths,
    rounding_is_to_the_nearest, same_ignoring_case, signed_decimal, ten_to, to_hundredths,
    to_tenths,
};
use crate::theme::{Color, Theme};
use crate::view::{Inspected, MapLayers, ViewState};

verus! {

/// Airport labels are drawn at this range and below. Beyond it they lose to the traffic tags they
/// would be competing with, and a label that cannot be read is only ink.
pub const LABEL_RANGE: u32 = 10_000;

/// Runway ticks are drawn at this range and below.
///
/// At 40 nm a 5,000 ft runway is 4 px, shorter than the symbol it sits inside, and unable to show
/// an angle. Above this range the symbol says "airport" on its own.
pub const TICK_RANGE: u32 = 20_000;

/// The most orientations drawn at one field. Four ticks at this size is a starburst.
pub const MAX_TICKS: usize = 2;

/// Longest half-tick: 26 pixels. At 2 nm a 10,000 ft runway is 154 px, which would reach a third of
/// the way across the panel and read as a boundary rather than as a runway.
pub const TICK_MAX: i64 = 26_000;

/// Inspect card size. Four lines of small text plus padding, and narrow enough that it occupies
/// the lower-left corner rather than a whole edge.
pub const CARD_W: i64 = 336_000;

pub const CARD_H: i64 = 88_000;

/// With a weather line. The card grows rather than reserving a row that is empty at four fields
/// in five.
pub const CARD_H_WX: i64 = 107_000;

/// Where the weather line's text starts, past the category badge. A fixed column rather than a
/// measured one: `LIFR` is the widest label, and a measured indent would shuffle the line sideways
/// every time the weather changed category.
pub const CATEGORY_COLUMN: i64 = 40_000;

/// Where an airspace row's text starts, past the single-letter class.
pub const CLASS_COLUMN: i64 = 18_000;

/// Baseline of each card row, from the top of the card.
pub const CARD_ROWS: [i64; 5] = [16_000, 35_000, 53_000, 71_000, 90_000];

/// How close to a symbol a tap has to be to count as being on it: a fingertip is not a pixel.
pub const INSPECT_HIT: i64 = 24_000;

/// How far outside the content area a symbol is still drawn.
pub const SLACK: i64 = 12_000;

/// What the layer put on screen.
#[derive(Debug, Clone, Copy, PartialEq, Eq, Structural)]
pub struct Drawn {
    pub airports: usize,
    pub airspace: usize,
}

impl Default for Drawn {
    fn default() -> (r: Drawn)
        ensures
            r.airports == 0,
            r.airspace == 0,
    {
        Drawn { airports: 0, airspace: 0 }
    }
}

// --- symbols -------------------------------------------------------------------------------

/// Radius of an airport symbol.
pub open spec fn radius_of(tier: Tier) -> int {
    match tier {
        Tier::Major => 5_000,
        Tier::Paved => 4_000,
        _ => 3_000,
    }
}

/// Radius of an airport symbol.
pub fn symbol_radius(tier: Tier) -> (r: i64)
    ensures
        r == radius_of(tier),
{
    match tier {
        Tier::Major => 5_000,
        Tier::Paved => 4_000,
        _ => 3_000,
    }
}

/// Whether an airport's symbol has a filled centre: it marks a hard runway, the distinction that
/// decides whether a field is usable to most of what this display is fitted to.
pub fn has_centre(airport: &Airport) -> (r: bool)
    ensures
        r == (has_flag(airport.flags, FLAG_HARD_SURFACE) && airport.tier.order()
            <= Tier::Paved.order()),
{
    airport.hard_surface() && airport.tier.rank() <= Tier::Paved.rank()
}

/// How many runways are drawn as ticks: at most two, the longest, and none where a tick could not
/// show an angle.
pub open spec fn ticks_of(range_mnm: int, runways: int) -> int {
    if range_mnm > TICK_RANGE {
        0
    } else {
        smaller(runways, MAX_TICKS as int)
    }
}

/// How many runways are drawn as ticks.
pub fn tick_count(range_mnm: u32, runways: usize) -> (r: usize)
    ensures
        r == ticks_of(range_mnm as int, runways as int),
{
    if range_mnm > TICK_RANGE {
        0
    } else if runways < MAX_TICKS {
        runways
    } else {
        MAX_TICKS
    }
}

/// Half the length of a runway tick: true to scale where that is legible, with a floor so a short
/// strip still shows its angle, and a ceiling.
pub open spec fn half_tick(length_ft: int, mpx_per_nm: int, radius: int) -> int {
    smaller(larger(length_ft * mpx_per_nm / 6076 / 2, radius + 2_000), TICK_MAX as int)
}

/// Half the length of a runway tick.
pub fn tick_half_length(runway: &Runway, mpx_per_nm: i64, radius: i64) -> (r: i64)
    requires
        0 <= mpx_per_nm <= 1_000_000_000_000,
        0 <= radius <= 1_000_000,
    ensures
        r == half_tick(runway.length_ft as int, mpx_per_nm as int, radius as int),
{
    let length: i64 = runway.length_ft as i64;
    assert(0 <= length * mpx_per_nm <= 65_535 * 1_000_000_000_000) by (nonlinear_arith)
        requires
            0 <= length <= 65_535,
            0 <= mpx_per_nm <= 1_000_000_000_000,
    ;
    smaller_of(larger_of(length * mpx_per_nm / 6076 / 2, radius + 2_000), TICK_MAX)
}

/// Whether a point is inside the content area, with a little slack so a symbol that straddles the
/// edge is still drawn rather than popping in.
pub open spec fn is_on_panel(layout: Layout, x: int, y: int) -> bool {
    &&& layout.content_x0 - SLACK <= x <= layout.content_x1 + SLACK
    &&& layout.strip_top() - SLACK <= y <= layout.strip_bottom() + SLACK
}

/// Whether a point is inside the content area, with a little slack.
pub fn on_panel(layout: &Layout, x: i64, y: i64) -> (r: bool)
    requires
        layout.wf(),
    ensures
        r == is_on_panel(*layout, x as int, y as int),
{
    x >= layout.content_x0 - SLACK && x <= layout.content_x1 + SLACK && y >= layout.strip_y0()
        - SLACK && y <= layout.strip_y1() + SLACK
}

/// Whether a length is that of half the content area's diagonal.
pub open spec fn is_half_diagonal(layout: Layout, half: int) -> bool {
    let across = (layout.content_x1 - layout.content_x0) / 2;
    let down = (layout.strip_bottom() - layout.strip_top()) / 2;
    is_root(half, across * across + down * down)
}

/// Half the content area's diagonal.
pub open spec fn half_diagonal(layout: Layout) -> int {
    choose|half: int| is_half_diagonal(layout, half)
}

/// A number has one whole root.
proof fn one_root(a: int, b: int, n: int)
    requires
        is_root(a, n),
        is_root(b, n),
    ensures
        a == b,
{
    if a < b {
        assert((a + 1) * (a + 1) <= b * b) by (nonlinear_arith)
            requires
                0 <= a,
                a + 1 <= b,
        ;
    } else if b < a {
        assert((b + 1) * (b + 1) <= a * a) by (nonlinear_arith)
            requires
                0 <= b,
                b + 1 <= a,
        ;
    }
}

/// How far the content area reaches from own-ship, to its furthest corner, in thousandths of a
/// nautical mile.
pub open spec fn visible_radius(layout: Layout, projection: Projection) -> int {
    half_diagonal(layout) * 1000 / projection.mpx_per_nm as int
}

/// How far the content area reaches from own-ship, to its furthest corner, in thousandths of a
/// nautical mile.
///
/// Derived from the layout rather than scaled off the range by a constant, so it stays right on a
/// panel of a different shape: the rings are inscribed, and the corners are nearly twice the
/// selected range out.
pub fn visible_radius_nm(layout: &Layout, projection: &Projection) -> (r: u64)
    requires
        layout.wf(),
        projection.wf(),
    ensures
        is_half_diagonal(*layout, half_diagonal(*layout)),
        r == visible_radius(*layout, *projection),
{
    let across: u64 = (layout.content_width() / 2) as u64;
    let down: u64 = (layout.strip_height() / 2) as u64;
    proof {
        let (a, d) = (across as int, down as int);
        assert(0 <= a * a <= 4 * LONGEST_SIDE * (4 * LONGEST_SIDE)) by (nonlinear_arith)
            requires
                0 <= a <= 4 * LONGEST_SIDE,
        ;
        assert(0 <= d * d <= 4 * LONGEST_SIDE * (4 * LONGEST_SIDE)) by (nonlinear_arith)
            requires
                0 <= d <= 4 * LONGEST_SIDE,
        ;
    }
    let half: u64 = root(across as u128 * across as u128 + down as u128 * down as u128);
    proof {
        let (a, d) = (across as int, down as int);
        assert(is_half_diagonal(*layout, half as int));
        one_root(half as int, half_diagonal(*layout), a * a + d * d);
    }
    let scale: u64 = projection.px_per_nm() as u64;
    half * 1000 / scale
}

/// The box the chart is searched in: one box covers every query, sized to the corners of the content
/// area rather than to the selected range. Searching to the range would stop the map at an
/// invisible circle and leave the corners bare, which reads as missing data rather than as a choice.
pub open spec fn map_bounds(layout: Layout, projection: Projection) -> Bounds {
    around(projection.origin, visible_radius(layout, projection), projection.shrink as int)
}

fn bounds_on_screen(layout: &Layout, projection: &Projection) -> (r: Bounds)
    requires
        layout.wf(),
        projection.wf(),
    ensures
        r == map_bounds(*layout, *projection),
{
    bounds_around(
        projection.origin,
        visible_radius_nm(layout, projection),
        projection.shrink,
    )
}

/// The airports of the chart that may be drawn, by their places in it: nothing while the layer is
/// off.
pub open spec fn airports_near(
    b: Seq<u8>,
    view: ViewState,
    layout: Layout,
    projection: Projection,
) -> Seq<int> {
    if view.map_layers == MapLayers::Off {
        seq![]
    } else {
        airports_found(b, map_bounds(layout, projection), tier_for(view.range_mnm as int))
    }
}

/// Whether points are where a projection puts these airports.
pub open spec fn are_projected(
    points: Seq<(i64, i64)>,
    airports: Seq<Airport>,
    projection: Projection,
) -> bool {
    &&& points.len() == airports.len()
    &&& forall|k: int|
        0 <= k < points.len() ==> is_projected(#[trigger] points[k], airports[k], projection)
}

/// Whether a point is where a projection puts an airport.
pub open spec fn is_projected(point: (i64, i64), airport: Airport, projection: Projection) -> bool {
    (point.0 as int, point.1 as int) == projection.place(airport.position)
}

/// Whether these are the airports that may be drawn, and where each of them is on screen.
pub open spec fn airports_shown(
    airports: Seq<Airport>,
    points: Seq<(i64, i64)>,
    b: Seq<u8>,
    view: ViewState,
    layout: Layout,
    projection: Projection,
) -> bool {
    &&& airports_are(airports, b, airports_near(b, view, layout, projection))
    &&& are_projected(points, airports, projection)
}

/// The airports that may be drawn, and where each of them is on screen.
pub fn airports_on_map(
    chart: &Chart,
    view: &ViewState,
    layout: &Layout,
    projection: &Projection,
) -> (r: (Vec<Airport>, Vec<(i64, i64)>))
    requires
        layout.wf(),
        projection.wf(),
    ensures
        airports_shown(r.0@, r.1@, chart@, *view, *layout, *projection),
{
    let mut points: Vec<(i64, i64)> = Vec::new();
    if !view.map_layers.shows_airports() {
        return (Vec::new(), points);
    }
    let bounds: Bounds = bounds_on_screen(layout, projection);
    let airports: Vec<Airport> = chart.airports_in(&bounds, max_tier_for_range(view.range_mnm));
    let mut i: usize = 0;
    while i < airports.len()
        invariant
            i <= airports.len(),
            points@.len() == i,
            projection.wf(),
            forall|k: int|
                0 <= k < i ==> is_projected(#[trigger] points@[k], airports@[k], *projection),
        decreases airports.len() - i,
    {
        points.push(projection.project(airports[i].position));
        i = i + 1;
    }
    (airports, points)
}

/// Whether this is the airspace that is drawn.
pub open spec fn airspace_shown(
    spaces: Seq<Airspace>,
    b: Seq<u8>,
    view: ViewState,
    layout: Layout,
    projection: Projection,
) -> bool {
    if view.map_layers == MapLayers::Full {
        airspace_are(
            spaces,
            b,
            airspace_found(b, map_bounds(layout, projection), airspace_total(b)),
        )
    } else {
        spaces.len() == 0
    }
}

/// The airspace that is drawn, in file order: none unless it is selected.
pub fn airspace_on_map(
    chart: &Chart,
    view: &ViewState,
    layout: &Layout,
    projection: &Projection,
) -> (r: Vec<Airspace>)
    requires
        layout.wf(),
        projection.wf(),
    ensures
        airspace_shown(r@, chart@, *view, *layout, *projection),
{
    if !view.map_layers.shows_airspace() {
        return Vec::new();
    }
    chart.airspace_in(&bounds_on_screen(layout, projection))
}

/// How wide the boundary of a class is drawn.
pub open spec fn boundary_width(class: Class, theme: Theme) -> int {
    match class {
        Class::B => theme.line_width * 115 / 100,
        Class::C => theme.line_width as int,
        Class::D => theme.line_width * 85 / 100,
    }
}

/// How a class of airspace is drawn: how wide its line is, and whether that is dashed.
///
/// Class B widest and Class D narrowest, so the airspace that matters most is the most visible even
/// before the colour is read.
pub fn airspace_line(class: Class, theme: &Theme) -> (r: (i64, bool))
    requires
        theme.sizes_ok(),
    ensures
        r.0 == boundary_width(class, *theme),
        r.1 == (class == Class::D),
{
    match class {
        Class::B => (theme.line_width * 115 / 100, false),
        Class::C => (theme.line_width, false),
        Class::D => (theme.line_width * 85 / 100, true),
    }
}

/// How one airport is drawn.
#[derive(Debug, Clone, Copy)]
pub struct AirportMark {
    pub airport: Airport,
    pub at: (i64, i64),
    pub radius: i64,
    /// Whether the centre is filled.
    pub centre: bool,
    /// How many of its runways are drawn as ticks.
    pub ticks: usize,
    pub labelled: bool,
}

/// Whether a mark is how this airport is drawn at this point.
pub open spec fn is_mark(
    mark: AirportMark,
    airport: Airport,
    at: (i64, i64),
    view: ViewState,
    layout: Layout,
    theme: Theme,
) -> bool {
    &&& mark.airport == airport
    &&& mark.at == at
    &&& mark.radius == radius_of(airport.tier)
    &&& mark.centre == (has_flag(airport.flags, FLAG_HARD_SURFACE) && airport.tier.order()
        <= Tier::Paved.order())
    &&& mark.ticks == ticks_of(view.range_mnm as int, airport.runway_count as int)
    &&& mark.labelled == is_labelled(
        view.range_mnm as int,
        airport.tier,
        layout,
        theme,
        at.0 as int,
        at.1 as int,
    )
}

/// The first `end` points that are on the panel, by their places in the list.
pub open spec fn on_screen(points: Seq<(i64, i64)>, layout: Layout, end: int) -> Seq<int>
    decreases end,
{
    if end <= 0 {
        seq![]
    } else {
        let before = on_screen(points, layout, end - 1);
        if is_on_panel(layout, points[end - 1].0 as int, points[end - 1].1 as int) {
            before.push(end - 1)
        } else {
            before
        }
    }
}

/// Whether marks are how the airports at these places of a list are drawn.
pub open spec fn are_marks(
    marks: Seq<AirportMark>,
    places: Seq<int>,
    airports: Seq<Airport>,
    points: Seq<(i64, i64)>,
    view: ViewState,
    layout: Layout,
    theme: Theme,
) -> bool {
    &&& marks.len() == places.len()
    &&& forall|k: int|
        0 <= k < marks.len() ==> is_mark(
            #[trigger] marks[k],
            airports[places[k]],
            points[places[k]],
            view,
            layout,
            theme,
        )
}

/// Decide how the airports on the panel are drawn, in the order of the list: `points` is where each
/// of them is on screen.
pub fn airport_marks(
    airports: &[Airport],
    points: &[(i64, i64)],
    view: &ViewState,
    layout: &Layout,
    theme: &Theme,
) -> (r: Vec<AirportMark>)
    requires
        airports@.len() == points@.len(),
        layout.wf(),
        theme.sizes_ok(),
    ensures
        are_marks(
            r@,
            on_screen(points@, *layout, points@.len() as int),
            airports@,
            points@,
            *view,
            *layout,
            *theme,
        ),
{
    let mut marks: Vec<AirportMark> = Vec::new();
    let mut i: usize = 0;
    while i < points.len()
        invariant
            i <= points.len(),
            airports@.len() == points@.len(),
            layout.wf(),
            theme.sizes_ok(),
            are_marks(
                marks@,
                on_screen(points@, *layout, i as int),
                airports@,
                points@,
                *view,
                *layout,
                *theme,
            ),
        decreases points.len() - i,
    {
        let airport: Airport = airports[i];
        let at: (i64, i64) = points[i];
        if on_panel(layout, at.0, at.1) {
            marks.push(
                AirportMark {
                    airport,
                    at,
                    radius: symbol_radius(airport.tier),
                    centre: has_centre(&airport),
                    ticks: tick_count(view.range_mnm, airport.runway_count()),
                    labelled: labelled(view.range_mnm, airport.tier, layout, theme, at.0, at.1),
                },
            );
        }
        i = i + 1;
    }
    marks
}

/// How far one position is from another, in billionths of a nautical mile. `cos_lat` is the cosine
/// of the first one's latitude.
pub fn range_nm(from: LatLon, to: LatLon, cos_lat: i64) -> (r: u64)
    requires
        -UNIT <= cos_lat <= UNIT,
    ensures
        is_root(r as int, distance_squared(from, to, cos_lat as int)),
{
    ground_distance_nm(from, to, cos_lat)
}

/// How far apart two points are, squared.
pub open spec fn apart(ax: int, ay: int, bx: int, by_: int) -> int {
    (ax - bx) * (ax - bx) + (ay - by_) * (ay - by_)
}

/// How far apart two points are, squared, if neither way is more than `limit`.
fn apart_within(ax: i64, ay: i64, bx: i64, by_: i64, limit: i64) -> (r: Option<i64>)
    requires
        0 <= limit <= 1_000_000_000,
    ensures
        match r {
            Some(d) => d == apart(ax as int, ay as int, bx as int, by_ as int) && d <= limit * limit,
            None => apart(ax as int, ay as int, bx as int, by_ as int) > limit * limit,
        },
{
    let dx: i128 = ax as i128 - bx as i128;
    let dy: i128 = ay as i128 - by_ as i128;
    let l: i128 = limit as i128;
    if dx > l || dx < -l || dy > l || dy < -l {
        proof {
            let (x, y, m) = (dx as int, dy as int, limit as int);
            if x > m || x < -m {
                assert(x * x > m * m && y * y >= 0) by (nonlinear_arith)
                    requires
                        x > m || x < -m,
                        m >= 0,
                ;
            } else {
                assert(y * y > m * m && x * x >= 0) by (nonlinear_arith)
                    requires
                        y > m || y < -m,
                        m >= 0,
                ;
            }
        }
        return None;
    }
    proof {
        let (x, y) = (dx as int, dy as int);
        assert(0 <= x * x <= 1_000_000_000_000_000_000 && 0 <= y * y <= 1_000_000_000_000_000_000)
            by (nonlinear_arith)
            requires
                -1_000_000_000 <= x <= 1_000_000_000,
                -1_000_000_000 <= y <= 1_000_000_000,
        ;
        let m = limit as int;
        assert(0 <= m * m <= 1_000_000_000_000_000_000) by (nonlinear_arith)
            requires
                0 <= m <= 1_000_000_000,
        ;
    }
    let d: i64 = (dx as i64) * (dx as i64) + (dy as i64) * (dy as i64);
    if d <= limit * limit {
        Some(d)
    } else {
        None
    }
}

/// Whether an airport gets its label: close in, for the larger fields, on the panel, and not under
/// own-ship, where it would be drawn straight through the chevron and read as neither.
pub open spec fn is_labelled(
    range_mnm: int,
    tier: Tier,
    layout: Layout,
    theme: Theme,
    x: int,
    y: int,
) -> bool {
    let clear = theme.symbol_size * 18 / 10;
    &&& range_mnm <= LABEL_RANGE
    &&& tier.order() <= Tier::Paved.order()
    &&& is_on_panel(layout, x, y)
    &&& apart(x, y, layout.center.0 as int, layout.center.1 as int) >= clear * clear
}

/// Whether an airport gets its label.
pub fn labelled(
    range_mnm: u32,
    tier: Tier,
    layout: &Layout,
    theme: &Theme,
    x: i64,
    y: i64,
) -> (r: bool)
    requires
        layout.wf(),
        theme.sizes_ok(),
    ensures
        r == is_labelled(range_mnm as int, tier, *layout, *theme, x as int, y as int),
{
    if range_mnm > LABEL_RANGE || tier.rank() > Tier::Paved.rank() || !on_panel(layout, x, y) {
        return false;
    }
    let clear: i64 = theme.symbol_size * 18 / 10;
    assert(0 <= clear * clear <= 18_000_000 * 18_000_000) by (nonlinear_arith)
        requires
            0 <= clear <= 18_000_000,
    ;
    match apart_within(x, y, layout.center.0, layout.center.1, clear) {
        Some(d) => d >= clear * clear,
        None => true,
    }
}

// --- tapping an airport --------------------------------------------------------------------

/// Whether a tap could mean the symbol at a point: it is on the panel and near enough.
pub open spec fn reachable(layout: Layout, symbol: (i64, i64), x: int, y: int) -> bool {
    &&& is_on_panel(layout, symbol.0 as int, symbol.1 as int)
    &&& apart(symbol.0 as int, symbol.1 as int, x, y) <= INSPECT_HIT * INSPECT_HIT
}

/// Whether a symbol is the one a tap means: within reach, nearer than every one before it and at
/// least as near as every one after.
pub open spec fn is_nearest(
    layout: Layout,
    symbols: Seq<(i64, i64)>,
    i: int,
    x: int,
    y: int,
) -> bool {
    &&& 0 <= i < symbols.len()
    &&& reachable(layout, symbols[i], x, y)
    &&& forall|k: int|
        0 <= k < symbols.len() && reachable(layout, #[trigger] symbols[k], x, y) ==> {
            let mine = apart(symbols[i].0 as int, symbols[i].1 as int, x, y);
            let other = apart(symbols[k].0 as int, symbols[k].1 as int, x, y);
            other > mine || (other == mine && i <= k)
        }
}

/// The symbol a tap means, if any: none while the layer is off.
pub open spec fn symbol_under(
    view: ViewState,
    layout: Layout,
    symbols: Seq<(i64, i64)>,
    x: int,
    y: int,
) -> Option<int> {
    if view.map_layers != MapLayers::Off && exists|i: int|
        #[trigger] is_nearest(layout, symbols, i, x, y) {
        Some(choose|i: int| #[trigger] is_nearest(layout, symbols, i, x, y))
    } else {
        None
    }
}

/// Which of these symbols a tap landed on, if any.
///
/// The nearest symbol within reach rather than the first one found: symbols overlap at close
/// range, and picking the first would make which one you get depend on file order. Nothing is
/// tappable while the layer is off: you cannot inspect what is not drawn.
pub fn nearest_symbol(
    view: &ViewState,
    layout: &Layout,
    symbols: &[(i64, i64)],
    x: i64,
    y: i64,
) -> (r: Option<usize>)
    requires
        layout.wf(),
    ensures
        match r {
            Some(i) => {
                &&& symbol_under(*view, *layout, symbols@, x as int, y as int) == Some(i as int)
                &&& is_nearest(*layout, symbols@, i as int, x as int, y as int)
            },
            None => {
                &&& symbol_under(*view, *layout, symbols@, x as int, y as int) is None
                &&& view.map_layers == MapLayers::Off || forall|k: int|
                    0 <= k < symbols@.len() ==> !reachable(
                        *layout,
                        #[trigger] symbols@[k],
                        x as int,
                        y as int,
                    )
            },
        },
{
    if !view.map_layers.shows_airports() {
        return None;
    }
    let mut best: Option<(i64, usize)> = None;
    let mut i: usize = 0;
    while i < symbols.len()
        invariant
            i <= symbols.len(),
            layout.wf(),
            match best {
                Some((d, at)) => {
                    &&& at < i
                    &&& reachable(*layout, symbols@[at as int], x as int, y as int)
                    &&& d == apart(
                        symbols@[at as int].0 as int,
                        symbols@[at as int].1 as int,
                        x as int,
                        y as int,
                    )
                    &&& forall|k: int|
                        0 <= k < i && reachable(*layout, #[trigger] symbols@[k], x as int, y as int)
                            ==> {
                            let other = apart(
                                symbols@[k].0 as int,
                                symbols@[k].1 as int,
                                x as int,
                                y as int,
                            );
                            other > d || (other == d && at <= k)
                        }
                },
                None => forall|k: int|
                    0 <= k < i ==> !reachable(
                        *layout,
                        #[trigger] symbols@[k],
                        x as int,
                        y as int,
                    ),
            },
        decreases symbols.len() - i,
    {
        let symbol: (i64, i64) = symbols[i];
        if on_panel(layout, symbol.0, symbol.1) {
            match apart_within(symbol.0, symbol.1, x, y, INSPECT_HIT) {
                Some(d) => {
                    let nearer: bool = match best {
                        Some((nearest, _)) => d < nearest,
                        None => true,
                    };
                    if nearer {
                        best = Some((d, i));
                    }
                },
                None => {},
            }
        }
        i = i + 1;
    }
    match best {
        Some((_, at)) => {
            assert(is_nearest(*layout, symbols@, at as int, x as int, y as int));
            proof {
                let other = choose|i: int|
                    #[trigger] is_nearest(*layout, symbols@, i, x as int, y as int);
                assert(is_nearest(*layout, symbols@, other, x as int, y as int));
                assert(reachable(*layout, symbols@[other], x as int, y as int));
                assert(reachable(*layout, symbols@[at as int], x as int, y as int));
            }
            Some(at)
        },
        None => None,
    }
}

/// The points a projection puts airports of a chart at.
pub open spec fn airport_points(b: Seq<u8>, places: Seq<int>, projection: Projection) -> Seq<
    (i64, i64),
> {
    Seq::new(
        places.len(),
        |k: int|
            {
                let at = projection.place(airport_position(b, places[k]));
                (at.0 as i64, at.1 as i64)
            },
    )
}

/// The airport a tap means, by its place in the chart, if any.
pub open spec fn airport_under(
    b: Seq<u8>,
    view: ViewState,
    layout: Layout,
    projection: Projection,
    x: int,
    y: int,
) -> Option<int> {
    let places = airports_near(b, view, layout, projection);
    match symbol_under(view, layout, airport_points(b, places, projection), x, y) {
        Some(i) => Some(places[i]),
        None => None,
    }
}

/// Which airport a tap landed on, if any.
pub fn hit_airport(
    chart: &Chart,
    view: &ViewState,
    layout: &Layout,
    projection: &Projection,
    x: i64,
    y: i64,
) -> (r: Option<Airport>)
    requires
        layout.wf(),
        projection.wf(),
    ensures
        match r {
            Some(airport) => airport_under(
                chart@,
                *view,
                *layout,
                *projection,
                x as int,
                y as int,
            ) matches Some(place) && airport_is(airport, chart@, place),
            None => airport_under(chart@, *view, *layout, *projection, x as int, y as int) is None,
        },
{
    let (airports, points): (Vec<Airport>, Vec<(i64, i64)>) = airports_on_map(
        chart,
        view,
        layout,
        projection,
    );
    proof {
        let places = airports_near(chart@, *view, *layout, *projection);
        let expected = airport_points(chart@, places, *projection);
        assert(points@.len() == expected.len());
        assert forall|k: int| 0 <= k < points@.len() implies points@[k] == expected[k] by {
            assert(airport_is(airports@[k], chart@, places[k]));
            assert(is_projected(points@[k], airports@[k], *projection));
        }
        assert(points@ =~= expected);
    }
    match nearest_symbol(view, layout, &points, x, y) {
        Some(i) => Some(airports[i]),
        None => None,
    }
}

// --- weather at a field --------------------------------------------------------------------

/// The weather already on board for one station.
///
/// Nothing is fetched for this: it is a *join*, not a new data source. Which is also why it is
/// free at a field with no report, and why the card says so rather than leaving a blank line that
/// reads as a display that did not finish drawing.
#[derive(Debug, Clone, Copy, PartialEq, Eq, Structural)]
pub struct StationWeather {
    pub summary: Summary,
    /// How long ago the report was received. Not its issue time: that is in the text, and this is
    /// the question the pilot is actually asking: is what I am looking at current?
    pub age: u64,
    pub has_taf: bool,
}

/// Whether a product is about a station, letters taken alike whatever their case.
pub open spec fn about(text: WeatherText, station: Seq<char>) -> bool {
    lowered(text.location@) == lowered(station)
}

/// The last METAR for a station among the first `end` products.
pub open spec fn metar_for(reports: Seq<WeatherText>, station: Seq<char>, end: int) -> Option<int>
    decreases end,
{
    if end <= 0 {
        None
    } else if about(reports[end - 1], station) && reports[end - 1].product
        == WeatherProduct::Metar {
        Some(end - 1)
    } else {
        metar_for(reports, station, end - 1)
    }
}

/// Whether there is a TAF for a station.
pub open spec fn taf_for(reports: Seq<WeatherText>, station: Seq<char>, end: int) -> bool {
    exists|i: int|
        0 <= i < end && about(#[trigger] reports[i], station) && reports[i].product
            == WeatherProduct::Taf
}

/// Find the METAR and TAF for a station, if a METAR is on board.
///
/// A TAF on its own is a forecast with no observation behind it, and is not weather. A field with
/// no station identifier at all matches nothing, rather than matching the empty string against
/// everything.
pub fn station_weather(reports: &[WeatherText], station: &str, now: u64) -> (r: Option<
    StationWeather,
>)
    ensures
        match r {
            Some(weather) => {
                let place = metar_for(reports@, station@, reports@.len() as int);
                &&& station@.len() > 0
                &&& place is Some
                &&& summarises(weather.summary, reports@[place->0].body@)
                &&& weather.age == time_since(now as int, reports@[place->0].received as int)
                &&& weather.has_taf == taf_for(reports@, station@, reports@.len() as int)
            },
            None => station@.len() == 0 || metar_for(reports@, station@, reports@.len() as int)
                is None,
        },
{
    if station.unicode_len() == 0 {
        return None;
    }
    let mut found: Option<usize> = None;
    let mut has_taf: bool = false;
    let mut i: usize = 0;
    while i < reports.len()
        invariant
            i <= reports.len(),
            match found {
                Some(at) => at < i && metar_for(reports@, station@, i as int) == Some(at as int),
                None => metar_for(reports@, station@, i as int) is None,
            },
            has_taf == taf_for(reports@, station@, i as int),
        decreases reports.len() - i,
    {
        let here: bool = same_ignoring_case(&reports[i].location, station);
        let is_taf: bool = matches!(reports[i].product, WeatherProduct::Taf);
        if here && matches!(reports[i].product, WeatherProduct::Metar) {
            found = Some(i);
        }
        proof {
            let r = reports@;
            if here && is_taf {
                assert(about(r[i as int], station@) && r[i as int].product == WeatherProduct::Taf);
            }
            if taf_for(r, station@, i as int) {
                let k = choose|k: int|
                    0 <= k < i && about(#[trigger] r[k], station@) && r[k].product
                        == WeatherProduct::Taf;
                assert(about(r[k], station@));
            }
        }
        if here && is_taf {
            has_taf = true;
        }
        i = i + 1;
    }
    match found {
        Some(at) => {
            let age: u64 = elapsed(now, reports[at].received);
            Some(StationWeather { summary: summarise(&reports[at].body), age, has_taf })
        },
        None => None,
    }
}

// --- what the cards say --------------------------------------------------------------------

/// `"4m"`, `"1h12m"`: how long ago a report arrived.
pub open spec fn minutes_text(minutes: nat) -> Seq<char> {
    if minutes < 60 {
        decimal(minutes) + "m"@
    } else {
        decimal(minutes / 60) + "h"@ + padded(minutes % 60, 2) + "m"@
    }
}

/// `"4m"`, `"1h12m"`: how long ago a report arrived.
pub fn age_text(age: u64) -> (r: String)
    ensures
        r@ == minutes_text((age / SECOND / 60) as nat),
{
    let minutes: u64 = age / SECOND / 60;
    let mut out: String = String::new();
    if minutes < 60 {
        push_decimal(&mut out, minutes);
        out.append("m");
    } else {
        push_decimal(&mut out, minutes / 60);
        out.append("h");
        push_padded(&mut out, minutes % 60, 2);
        out.append("m");
    }
    assert(out@ =~= minutes_text(minutes as nat));
    out
}

/// A size of visibility: without decimals when within a twentieth of whole miles, to two decimals
/// otherwise.
pub open spec fn visibility_size(num: nat, den: nat) -> Seq<char> {
    let whole = (2 * num + den) / (2 * den);
    let off = if num >= whole * den {
        num - whole * den
    } else {
        whole * den - num
    };
    if 20 * off < den {
        decimal(whole)
    } else {
        to_hundredths(num, den)
    }
}

/// A visibility as a card writes it.
pub open spec fn visibility_text(v: Single) -> Seq<char> {
    match v {
        Single::Finite { negative, mantissa, exponent } => {
            let size = visibility_size(
                mantissa as nat * doublings(exponent as int),
                doublings(-exponent),
            );
            if negative {
                "-"@ + size
            } else {
                size
            }
        },
        Single::Infinite { negative } => if negative {
            "-inf"@
        } else {
            "inf"@
        },
        Single::NotANumber => "NaN"@,
    }
}

fn push_visibility_size(out: &mut String, mantissa: u32, exponent: i32)
    ensures
        final(out)@ == old(out)@ + visibility_size(
            mantissa as nat * doublings(exponent as int),
            doublings(-exponent),
        ),
{
    if exponent >= 0 {
        proof {
            let n = mantissa as nat * doublings(exponent as int);
            let d = doublings(-exponent);
            assert(d == 1);
            assert((2 * n + d) / (2 * d) == n) by (nonlinear_arith)
                requires
                    d == 1,
            ;
            assert(n * d == n) by (nonlinear_arith)
                requires
                    d == 1,
            ;
        }
        push_doubled(out, mantissa, exponent);
        return;
    }
    assert(mantissa as nat * doublings(exponent as int) == mantissa) by {
        let t = doublings(exponent as int) as int;
        assert(mantissa * t == mantissa) by (nonlinear_arith)
            requires
                t == 1,
        ;
    }
    if exponent < -36 {
        proof {
            two_to_grows(37, (-exponent) as nat);
            reveal_with_fuel(two_to, 38);
            let (n, d) = (mantissa as int, doublings(-exponent) as int);
            assert((2 * n + d) / (2 * d) == 0) by (nonlinear_arith)
                requires
                    0 <= 20 * n < d,
            ;
            let none = (2 * n + d) / (2 * d);
            assert(none * d == 0) by (nonlinear_arith)
                requires
                    none == 0,
            ;
        }
        push_decimal(out, 0);
        return;
    }
    let num: u64 = mantissa as u64;
    let den: u64 = power_of_two((-exponent) as u32);
    let whole: u64 = (2 * num + den) / (2 * den);
    proof {
        let (n, d) = (num as int, den as int);
        vstd::arithmetic::div_mod::lemma_fundamental_div_mod(2 * n + d, 2 * d);
        let q = (2 * n + d) / (2 * d);
        assert(2 * d * q == 2 * (d * q)) by (nonlinear_arith);
        assert(d * q == q * d) by (nonlinear_arith);
        assert(0 <= q * d <= 2 * n + d) by (nonlinear_arith)
            requires
                0 <= q,
                0 < d,
                2 * (q * d) <= 2 * n + d,
                0 <= n,
        ;
    }
    let at_whole: u64 = whole * den;
    let off: u64 = if num >= at_whole {
        num - at_whole
    } else {
        at_whole - num
    };
    if 20 * off < den {
        push_decimal(out, whole);
    } else {
        push_hundredths(out, num, den);
    }
}

/// Visibility without a trailing `.00`, since whole miles are the common case.
pub fn format_visibility(v: Single) -> (r: String)
    ensures
        r@ == visibility_text(v),
{
    let mut out: String = String::new();
    match v {
        Single::Finite { negative, mantissa, exponent } => {
            if negative {
                out.append("-");
            }
            push_visibility_size(&mut out, mantissa, exponent);
        },
        Single::Infinite { negative } => if negative {
            out.append("-inf");
        } else {
            out.append("inf");
        },
        Single::NotANumber => out.append("NaN"),
    }
    assert(out@ =~= visibility_text(v));
    out
}

/// The wind on a weather line, if any was reported.
pub open spec fn wind_part(wind: Option<Wind>) -> Seq<char> {
    match wind {
        Some(wind) => "  "@ + wind.written(),
        None => seq![],
    }
}

fn push_wind(out: &mut String, wind: Option<Wind>)
    ensures
        final(out)@ == old(out)@ + wind_part(wind),
{
    match wind {
        Some(wind) => {
            out.append("  ");
            out.append(wind.text().as_str());
        },
        None => {},
    }
    assert(out@ =~= old(out)@ + wind_part(wind));
}

/// The ceiling on a weather line, if there is one.
pub open spec fn ceiling_part(ceiling_ft: Option<u32>) -> Seq<char> {
    match ceiling_ft {
        Some(ft) => "  "@ + decimal(ft as nat) + " ft"@,
        None => seq![],
    }
}

fn push_ceiling(out: &mut String, ceiling_ft: Option<u32>)
    ensures
        final(out)@ == old(out)@ + ceiling_part(ceiling_ft),
{
    match ceiling_ft {
        Some(ft) => {
            out.append("  ");
            push_decimal(out, ft as u64);
            out.append(" ft");
        },
        None => {},
    }
    assert(out@ =~= old(out)@ + ceiling_part(ceiling_ft));
}

/// The visibility on a weather line, if one was reported.
pub open spec fn visibility_part(visibility: Option<Single>) -> Seq<char> {
    match visibility {
        Some(v) => "  "@ + visibility_text(v) + " sm"@,
        None => seq![],
    }
}

fn push_visibility(out: &mut String, visibility: Option<Single>)
    ensures
        final(out)@ == old(out)@ + visibility_part(visibility),
{
    match visibility {
        Some(v) => {
            out.append("  ");
            out.append(format_visibility(v).as_str());
            out.append(" sm");
        },
        None => {},
    }
    assert(out@ =~= old(out)@ + visibility_part(visibility));
}

/// The age of the report on a weather line, and whether there is a forecast too.
pub open spec fn age_part(age: u64, has_taf: bool) -> Seq<char> {
    "  "@ + minutes_text((age / SECOND / 60) as nat) + if has_taf {
        "  TAF"@
    } else {
        seq![]
    }
}

fn push_age(out: &mut String, age: u64, has_taf: bool)
    ensures
        final(out)@ == old(out)@ + age_part(age, has_taf),
{
    out.append("  ");
    out.append(age_text(age).as_str());
    if has_taf {
        out.append("  TAF");
    }
    assert(out@ =~= old(out)@ + age_part(age, has_taf));
}

/// The weather line of an airport's card, but for the category badge.
pub open spec fn weather_line_of(weather: StationWeather) -> Seq<char> {
    let s = weather.summary;
    let product = if s.category is None {
        "METAR"@
    } else {
        seq![]
    };
    product + wind_part(s.wind) + ceiling_part(s.ceiling_ft) + visibility_part(s.visibility_sm)
        + age_part(weather.age, weather.has_taf)
}

/// Everything on the weather line except the category badge, which carries its own colour and is
/// drawn separately into a fixed column.
///
/// Wind comes before ceiling and visibility because the card names the runways two lines above,
/// and wind against runway is the pairing a pilot is reading for. Without a badge the product is
/// named, which is better than a blank column that reads as a drawing fault.
pub fn weather_line(weather: &StationWeather) -> (r: String)
    ensures
        r@ == weather_line_of(*weather),
{
    let mut out: String = String::new();
    if weather.summary.category.is_none() {
        out.append("METAR");
    }
    assert(out@ =~= if weather.summary.category is None {
        "METAR"@
    } else {
        seq![]
    });
    push_wind(&mut out, weather.summary.wind);
    push_ceiling(&mut out, weather.summary.ceiling_ft);
    push_visibility(&mut out, weather.summary.visibility_sm);
    push_age(&mut out, weather.age, weather.has_taf);
    out
}

/// `"SFC - 2500 ft"`, `"1800 - 7000 ft"`: feet MSL, the way a sectional states them.
pub open spec fn limits_of(space: Airspace) -> Seq<char> {
    (if has_flag(space.flags, FLAG_LOWER_SURFACE) {
        "SFC"@
    } else {
        signed_decimal(space.lower_ft as int)
    }) + " - "@ + signed_decimal(space.upper_ft as int) + " ft"@
}

/// `"SFC - 2500 ft"`, `"1800 - 7000 ft"`: feet MSL, the way a sectional states them.
///
/// Numbers and not a judgement: own-ship altitude comes from GPS or from a pressure sensor on the
/// 29.92 datum, airspace floors are MSL, and legal compliance is an altimeter on the local
/// setting, which this display does not have.
pub fn vertical_limits(space: &Airspace) -> (r: String)
    ensures
        r@ == limits_of(*space),
{
    let mut out: String = String::new();
    if space.lower_is_surface() {
        out.append("SFC");
    } else {
        push_signed(&mut out, space.lower_ft as i64);
    }
    out.append(" - ");
    push_signed(&mut out, space.upper_ft as i64);
    out.append(" ft");
    assert(out@ =~= limits_of(*space));
    out
}

/// A run of `n` spaces.
pub open spec fn spaces(n: nat) -> Seq<char> {
    Seq::new(n, |_i: int| ' ')
}

/// One row of the airspace card, past the class: the name, filled up to eight characters, and the
/// limits.
pub open spec fn airspace_row_of(space: Airspace) -> Seq<char> {
    let label = label_text(space.label@);
    label + spaces(larger(8 - label.len(), 0) as nat) + " "@ + limits_of(space)
}

/// One row of the airspace card, past the class.
pub fn airspace_row(space: &Airspace) -> (r: String)
    ensures
        r@ == airspace_row_of(*space),
{
    let label: &str = space.label();
    let mut out: String = String::new();
    out.append(label);
    let mut written: usize = label.unicode_len();
    let ghost start = label@.len();
    while written < 8
        invariant
            start == label@.len(),
            start <= written,
            written <= 8 || written == start,
            out@ == label@ + spaces((written - start) as nat),
        decreases 8 - written,
    {
        out.push(' ');
        written = written + 1;
        assert(out@ =~= label@ + spaces((written - start) as nat));
    }
    out.append(" ");
    out.append(vertical_limits(space).as_str());
    assert(out@ =~= airspace_row_of(*space));
    out
}

/// A bearing and a distance: `"043°  12.5 nm"`.
pub open spec fn place_of(bearing_mdeg: nat, range_mnm: nat) -> Seq<char> {
    padded(nearest(bearing_mdeg, 1000), 3) + seq![DEGREE] + "  "@ + to_tenths(range_mnm, 1000)
        + " nm"@
}

/// A bearing in thousandths of a degree and a distance, as a card writes them.
pub fn place_text(bearing_mdeg: u32, range_mnm: u32) -> (r: String)
    ensures
        r@ == place_of(bearing_mdeg as nat, range_mnm as nat),
{
    let mut out: String = String::new();
    push_padded(&mut out, nearest_of(bearing_mdeg as u64, 1000), 3);
    out.push(DEGREE);
    out.append("  ");
    push_tenths(&mut out, range_mnm as u64, 1000);
    out.append(" nm");
    assert(out@ =~= place_of(bearing_mdeg as nat, range_mnm as nat));
    out
}

/// The facts line of an airport's card: elevation and the longest runway, with its designator when
/// there is one, and whether it is lit.
pub open spec fn facts_of(airport: Airport, runways: Seq<Runway>) -> Seq<char> {
    signed_decimal(airport.elevation_ft as int) + " ft"@ + if airport.runway_ft > 0 {
        "   "@ + decimal(airport.runway_ft as nat) + " ft"@ + (if runways.len() > 0 {
            " "@ + runways[0].written()
        } else {
            ""@
        }) + if has_flag(airport.flags, FLAG_LIGHTED) {
            "  LIT"@
        } else {
            ""@
        }
    } else {
        ""@
    }
}

/// The facts line of an airport's card.
pub fn facts_line(airport: &Airport, runways: &[Runway]) -> (r: String)
    ensures
        r@ == facts_of(*airport, runways@),
{
    proof {
        reveal_strlit("");
    }
    let mut out: String = String::new();
    push_signed(&mut out, airport.elevation_ft as i64);
    out.append(" ft");
    if airport.runway_ft > 0 {
        out.append("   ");
        push_decimal(&mut out, airport.runway_ft as u64);
        out.append(" ft");
        if runways.len() > 0 {
            out.append(" ");
            out.append(runways[0].designator().as_str());
        }
        if airport.lighted() {
            out.append("  LIT");
        }
    }
    assert(out@ =~= facts_of(*airport, runways@));
    out
}

/// The frequencies the card can name, each as its label and its number.
///
/// Anything without a name is dropped rather than shown bare. A number with no label on an
/// avionics display invites tuning a radio to it without knowing who answers.
pub open spec fn entries_of(list: Seq<Frequency>) -> Seq<Seq<char>>
    decreases list.len(),
{
    if list.len() == 0 {
        seq![]
    } else {
        let so_far = entries_of(list.drop_last());
        if list.last().kind == FreqKind::Other {
            so_far
        } else {
            so_far.push(entry_of(list.last()))
        }
    }
}

/// One frequency: its label and its number.
pub open spec fn entry_of(frequency: Frequency) -> Seq<char> {
    frequency.kind.name() + " "@ + frequency.written()
}

/// What a list of texts holds.
pub open spec fn contents(list: Seq<String>) -> Seq<Seq<char>> {
    Seq::new(list.len(), |i: int| list[i]@)
}

/// The frequencies the card can name, each as its label and its number, most useful first.
pub fn frequency_entries(list: &[Frequency]) -> (r: Vec<String>)
    ensures
        contents(r@) == entries_of(list@),
{
    let mut out: Vec<String> = Vec::new();
    let mut i: usize = 0;
    assert(list@.take(0) =~= seq![]);
    assert(contents(out@) =~= entries_of(list@.take(0)));
    while i < list.len()
        invariant
            i <= list.len(),
            contents(out@) == entries_of(list@.take(i as int)),
        decreases list.len() - i,
    {
        proof {
            assert(list@.take(i + 1).drop_last() =~= list@.take(i as int));
            assert(list@.take(i + 1).last() == list@[i as int]);
        }
        let frequency: Frequency = list[i];
        if !matches!(frequency.kind, FreqKind::Other) {
            let mut entry: String = String::new();
            entry.append(frequency.kind.label());
            entry.append(" ");
            entry.append(frequency.mhz_text().as_str());
            assert(entry@ =~= entry_of(frequency));
            let ghost had = out@;
            out.push(entry);
            assert(contents(out@) =~= contents(had).push(entry_of(frequency)));
        }
        i = i + 1;
    }
    assert(list@.take(i as int) =~= list@);
    out
}

/// How many entries fit: the first always, and each further one while all up to it fit.
pub open spec fn entries_that_fit(widths: Seq<i64>, room: int, k: int) -> int
    decreases widths.len() - k,
{
    if k < 1 || k >= widths.len() || widths[k] > room {
        k
    } else {
        entries_that_fit(widths, room, k + 1)
    }
}

/// Entries with two spaces between them.
pub open spec fn joined(list: Seq<Seq<char>>) -> Seq<char>
    decreases list.len(),
{
    if list.len() == 0 {
        seq![]
    } else if list.len() == 1 {
        list[0]
    } else {
        joined(list.drop_last()) + "  "@ + list.last()
    }
}

/// Join as many entries as fit in `room`, in order. `widths[k]` is how wide the first `k + 1` of
/// them are, joined.
///
/// How many fit is *measured*, not assumed. At least the first is always kept, even when it alone
/// is too wide: a card showing one frequency that runs a little long is more use than a card
/// showing none.
pub fn fit_entries(entries: &[String], widths: &[i64], room: i64) -> (r: String)
    requires
        entries@.len() == widths@.len(),
    ensures
        entries@.len() == 0 ==> r@.len() == 0,
        entries@.len() > 0 ==> r@ == joined(
            contents(entries@).take(entries_that_fit(widths@, room as int, 1)),
        ),
{
    let mut out: String = String::new();
    if entries.len() == 0 {
        return out;
    }
    let ghost all = contents(entries@);
    out.append(entries[0].as_str());
    let mut k: usize = 1;
    assert(out@ =~= joined(all.take(1)));
    while k < entries.len() && widths[k] <= room
        invariant
            1 <= k <= entries.len(),
            entries@.len() == widths@.len(),
            all == contents(entries@),
            out@ == joined(all.take(k as int)),
            entries_that_fit(widths@, room as int, 1) == entries_that_fit(
                widths@,
                room as int,
                k as int,
            ),
        decreases entries.len() - k,
    {
        proof {
            assert(all.take(k + 1).drop_last() =~= all.take(k as int));
            assert(all.take(k + 1).last() == entries@[k as int]@);
        }
        out.append("  ");
        out.append(entries[k].as_str());
        assert(out@ =~= joined(all.take(k + 1)));
        k = k + 1;
    }
    out
}

// --- where the cards go --------------------------------------------------------------------

/// The height of an airport's card.
pub open spec fn airport_card_height(has_weather: bool) -> int {
    if has_weather {
        CARD_H_WX as int
    } else {
        CARD_H as int
    }
}

/// Where an airport's card goes: `(x, y, width, height)`, lower-left of the content area. Own-ship
/// is at the centre and the nearest threat is most often ahead of it, so that corner is the least
/// costly place to spend.
pub fn airport_card(layout: &Layout, has_weather: bool) -> (r: (i64, i64, i64, i64))
    requires
        layout.wf(),
    ensures
        r.0 == layout.content_x0 + layout.margin,
        r.1 == layout.height - layout.footer_height - layout.margin - airport_card_height(
            has_weather,
        ),
        r.2 == CARD_W,
        r.3 == airport_card_height(has_weather),
{
    let height: i64 = if has_weather {
        CARD_H_WX
    } else {
        CARD_H
    };
    (layout.content_left(), layout.footer_y0() - layout.margin - height, CARD_W, height)
}

/// How many volumes the airspace card lists: as many as it has rows for.
pub open spec fn volumes_shown(volumes: int) -> int {
    smaller(volumes, 4)
}

/// The height of the airspace card: down to its last row, and a little past it.
pub open spec fn airspace_card_height(volumes: int) -> int {
    CARD_ROWS[volumes_shown(volumes)] + 10_000
}

/// Where the airspace card goes, and how many volumes it lists. It grows to fit what it shows,
/// capped at the rows there are: a deeper stack is cut rather than drawn past the border.
pub fn airspace_card(layout: &Layout, volumes: usize) -> (r: ((i64, i64, i64, i64), usize))
    requires
        layout.wf(),
    ensures
        r.1 == volumes_shown(volumes as int),
        r.0.0 == layout.content_x0 + layout.margin,
        r.0.1 == layout.height - layout.footer_height - layout.margin - airspace_card_height(
            volumes as int,
        ),
        r.0.2 == CARD_W,
        r.0.3 == airspace_card_height(volumes as int),
{
    let shown: usize = if volumes < 4 {
        volumes
    } else {
        4
    };
    assert(CARD_ROWS[0] == 16_000 && CARD_ROWS[1] == 35_000 && CARD_ROWS[2] == 53_000
        && CARD_ROWS[3] == 71_000 && CARD_ROWS[4] == 90_000);
    let height: i64 = CARD_ROWS[shown] + 10_000;
    (
        (layout.content_left(), layout.footer_y0() - layout.margin - height, CARD_W, height),
        shown,
    )
}

// --- the picture ---------------------------------------------------------------------------

/// The colour of an airport.
pub open spec fn airport_colour() -> Color {
    Color::of_bytes(150, 175, 200, 255)
}

/// The colour of a class of airspace: the sectional's.
pub open spec fn class_colour(class: Class) -> Color {
    match class {
        Class::B => Color::of_bytes(95, 150, 255, 255),
        Class::C => Color::of_bytes(205, 105, 205, 255),
        Class::D => Color::of_bytes(95, 150, 255, 255),
    }
}

fn colour_of_class(class: Class) -> (r: Color)
    ensures
        r == class_colour(class),
{
    match class {
        Class::B => Color::rgb(95, 150, 255),
        Class::C => Color::rgb(205, 105, 205),
        Class::D => Color::rgb(95, 150, 255),
    }
}

/// Where the points of a ring are on screen.
pub open spec fn ring_points(list: Seq<LatLon>, projection: Projection) -> Seq<(i64, i64)> {
    Seq::new(
        list.len(),
        |i: int| (projection.place(list[i]).0 as i64, projection.place(list[i]).1 as i64),
    )
}

fn project_ring(ring: RingIter<'_>, projection: &Projection) -> (r: Vec<(i64, i64)>)
    requires
        projection.wf(),
    ensures
        r@ == ring_points(ring.left(), *projection),
{
    let ghost all = ring.left();
    let mut ring: RingIter<'_> = ring;
    let mut out: Vec<(i64, i64)> = Vec::new();
    assert(ring.left() =~= all.skip(0));
    loop
        invariant
            projection.wf(),
            out@.len() <= all.len(),
            ring.left() == all.skip(out@.len() as int),
            out@ =~= ring_points(all, *projection).take(out@.len() as int),
        ensures
            out@ == ring_points(all, *projection),
        decreases all.len() - out@.len(),
    {
        match ring.next() {
            Some(position) => {
                let ghost n = out@.len() as int;
                assert(position == all[n]);
                out.push(projection.project(position));
                assert(all.skip(n).skip(1) =~= all.skip(n + 1));
                assert(out@[n] == ring_points(all, *projection)[n]);
            },
            None => {
                assert(ring_points(all, *projection).take(all.len() as int) =~= ring_points(
                    all,
                    *projection,
                ));
                break;
            },
        }
    }
    out
}

/// The first `n` rings of a volume, those without a point left out.
pub open spec fn volume_marks(
    b: Seq<u8>,
    space: Airspace,
    n: int,
    projection: Projection,
    theme: Theme,
) -> Seq<Painted>
    decreases n,
{
    if n <= 0 {
        seq![]
    } else {
        let ring = ring_vertices(b, space, n - 1);
        volume_marks(b, space, n - 1, projection, theme) + if ring.len() > 0 {
            seq![
                Painted::Boundary {
                    points: ring_points(ring, projection),
                    colour: class_colour(space.class),
                    width: boundary_width(space.class, theme),
                    dashed: space.class == Class::D,
                },
            ]
        } else {
            seq![]
        }
    }
}

fn put_volume(
    out: &mut Vec<Mark>,
    chart: &Chart,
    space: &Airspace,
    projection: &Projection,
    theme: &Theme,
)
    requires
        projection.wf(),
        theme.sizes_ok(),
    ensures
        drawn(final(out)@) == drawn(old(out)@) + volume_marks(
            chart@,
            *space,
            space.ring_count as int,
            *projection,
            *theme,
        ),
{
    let ghost was = drawn(out@);
    let colour: Color = colour_of_class(space.class);
    let (width, dashed) = airspace_line(space.class, theme);
    let count: usize = space.ring_count();
    let mut k: usize = 0;
    assert(drawn(out@) =~= was + volume_marks(chart@, *space, 0, *projection, *theme));
    while k < count
        invariant
            k <= count,
            count == space.ring_count,
            projection.wf(),
            colour == class_colour(space.class),
            width == boundary_width(space.class, *theme),
            dashed == (space.class == Class::D),
            drawn(out@) == was + volume_marks(chart@, *space, k as int, *projection, *theme),
        decreases count - k,
    {
        let points: Vec<(i64, i64)> = project_ring(chart.ring(space, k), projection);
        if points.len() > 0 {
            put(out, Mark::Boundary { points, colour, width, dashed });
        }
        k = k + 1;
        assert(drawn(out@) =~= was + volume_marks(
            chart@,
            *space,
            k as int,
            *projection,
            *theme,
        ));
    }
}

/// Those of the first `n` volumes that are of a class.
pub open spec fn class_marks(
    b: Seq<u8>,
    spaces: Seq<Airspace>,
    class: Class,
    n: int,
    projection: Projection,
    theme: Theme,
) -> Seq<Painted>
    decreases n,
{
    if n <= 0 {
        seq![]
    } else {
        class_marks(b, spaces, class, n - 1, projection, theme) + if spaces[n - 1].class == class {
            volume_marks(
                b,
                spaces[n - 1],
                spaces[n - 1].ring_count as int,
                projection,
                theme,
            )
        } else {
            seq![]
        }
    }
}

fn put_class(
    out: &mut Vec<Mark>,
    chart: &Chart,
    spaces: &Vec<Airspace>,
    class: Class,
    projection: &Projection,
    theme: &Theme,
)
    requires
        projection.wf(),
        theme.sizes_ok(),
    ensures
        drawn(final(out)@) == drawn(old(out)@) + class_marks(
            chart@,
            spaces@,
            class,
            spaces@.len() as int,
            *projection,
            *theme,
        ),
{
    let ghost was = drawn(out@);
    let mut k: usize = 0;
    assert(drawn(out@) =~= was + class_marks(chart@, spaces@, class, 0, *projection, *theme));
    while k < spaces.len()
        invariant
            k <= spaces.len(),
            projection.wf(),
            theme.sizes_ok(),
            drawn(out@) == was + class_marks(
                chart@,
                spaces@,
                class,
                k as int,
                *projection,
                *theme,
            ),
        decreases spaces.len() - k,
    {
        if spaces[k].class == class {
            put_volume(out, chart, &spaces[k], projection, theme);
        }
        k = k + 1;
        assert(drawn(out@) =~= was + class_marks(
            chart@,
            spaces@,
            class,
            k as int,
            *projection,
            *theme,
        ));
    }
}

/// The boundaries of volumes: Class B first, so that a Class D inside a Class B sits on top.
pub open spec fn boundary_marks(
    b: Seq<u8>,
    spaces: Seq<Airspace>,
    projection: Projection,
    theme: Theme,
) -> Seq<Painted> {
    let n = spaces.len() as int;
    class_marks(b, spaces, Class::B, n, projection, theme) + class_marks(
        b,
        spaces,
        Class::C,
        n,
        projection,
        theme,
    ) + class_marks(b, spaces, Class::D, n, projection, theme)
}

/// The symbols of the first `n` airports.
pub open spec fn outline_marks(marks: Seq<AirportMark>, n: int, theme: Theme) -> Seq<Painted> {
    Seq::new(
        n as nat,
        |k: int|
            Painted::Ring {
                at: (marks[k].at.0 as int, marks[k].at.1 as int),
                radius: marks[k].radius as int,
                colour: airport_colour(),
                width: theme.line_width * 85 / 100,
            },
    )
}

/// The filled centres of those of the first `n` airports that have one.
pub open spec fn centre_marks(marks: Seq<AirportMark>, n: int) -> Seq<Painted>
    decreases n,
{
    if n <= 0 {
        seq![]
    } else {
        centre_marks(marks, n - 1) + if marks[n - 1].centre {
            seq![
                Painted::Disc {
                    at: (marks[n - 1].at.0 as int, marks[n - 1].at.1 as int),
                    radius: 1_600,
                    colour: airport_colour(),
                },
            ]
        } else {
            seq![]
        }
    }
}

/// The tick of a runway through a symbol, along its heading.
pub open spec fn runway_marks(
    mark: AirportMark,
    runway: Runway,
    projection: Projection,
    theme: Theme,
) -> Seq<Painted> {
    let half = half_tick(
        runway.length_ft as int,
        projection.mpx_per_nm as int,
        mark.radius as int,
    );
    seq![
        Painted::Turn {
            at: (mark.at.0 as int, mark.at.1 as int),
            mdeg: runway.heading_deg * 1000 - projection.rotation_mdeg,
            down: 0,
        },
        stroke((0, half), (0, -half), airport_colour(), theme.line_width * 85 / 100),
        Painted::Unturn,
    ]
}

/// The ticks of the first `n` runways of an airport.
pub open spec fn ticks_at(
    mark: AirportMark,
    runways: Seq<Runway>,
    n: int,
    projection: Projection,
    theme: Theme,
) -> Seq<Painted>
    decreases n,
{
    if n <= 0 {
        seq![]
    } else {
        ticks_at(mark, runways, n - 1, projection, theme) + runway_marks(
            mark,
            runways[n - 1],
            projection,
            theme,
        )
    }
}

/// The runway ticks of the first `n` airports: as many as each is drawn with and has.
pub open spec fn tick_marks(
    b: Seq<u8>,
    marks: Seq<AirportMark>,
    n: int,
    projection: Projection,
    theme: Theme,
) -> Seq<Painted>
    decreases n,
{
    if n <= 0 {
        seq![]
    } else {
        let runways = runways_of(b, marks[n - 1].airport);
        tick_marks(b, marks, n - 1, projection, theme) + ticks_at(
            marks[n - 1],
            runways,
            smaller(runways.len() as int, marks[n - 1].ticks as int),
            projection,
            theme,
        )
    }
}

/// The labels of those of the first `n` airports that have one: below the symbol, as an identifier
/// sits on a sectional. The horizontal axis is where the traffic tags are already competing.
pub open spec fn name_marks(marks: Seq<AirportMark>, n: int, theme: Theme) -> Seq<Painted>
    decreases n,
{
    if n <= 0 {
        seq![]
    } else {
        name_marks(marks, n - 1, theme) + if marks[n - 1].labelled {
            seq![
                text_at(
                    marks[n - 1].at.0 as int,
                    marks[n - 1].at.1 + 6_000,
                    label_text(marks[n - 1].airport.label@),
                    Style {
                        colour: airport_colour(),
                        size: theme.font_size_tag,
                        align: Align::Center,
                        baseline: Baseline::Top,
                    },
                ),
            ]
        } else {
            seq![]
        }
    }
}

/// Everything drawn of airports.
pub open spec fn field_marks(
    b: Seq<u8>,
    marks: Seq<AirportMark>,
    projection: Projection,
    theme: Theme,
) -> Seq<Painted> {
    let n = marks.len() as int;
    outline_marks(marks, n, theme) + centre_marks(marks, n) + tick_marks(
        b,
        marks,
        n,
        projection,
        theme,
    ) + name_marks(marks, n, theme)
}

/// Whether marks are ones to draw ticks and labels for.
pub open spec fn drawable(marks: Seq<AirportMark>) -> bool {
    forall|k: int|
        0 <= k < marks.len() ==> 0 <= (#[trigger] marks[k]).radius <= 1_000_000 && marks[k].at.1
            <= 1_000_000_000_000_000_000
}

fn put_ticks(
    out: &mut Vec<Mark>,
    chart: &Chart,
    mark: &AirportMark,
    projection: &Projection,
    theme: &Theme,
)
    requires
        projection.wf(),
        theme.sizes_ok(),
        0 <= mark.radius <= 1_000_000,
    ensures
        ({
            let runways = runways_of(chart@, mark.airport);
            drawn(final(out)@) == drawn(old(out)@) + ticks_at(
                *mark,
                runways,
                smaller(runways.len() as int, mark.ticks as int),
                *projection,
                *theme,
            )
        }),
{
    let ghost was = drawn(out@);
    let runways: Vec<Runway> = chart.runways(&mark.airport);
    let width: i64 = theme.line_width * 85 / 100;
    let colour: Color = Color::rgb(150, 175, 200);
    let mut k: usize = 0;
    assert(drawn(out@) =~= was + ticks_at(*mark, runways@, 0, *projection, *theme));
    while k < runways.len() && k < mark.ticks
        invariant
            k <= runways.len(),
            k <= mark.ticks,
            projection.wf(),
            0 <= mark.radius <= 1_000_000,
            width == theme.line_width * 85 / 100,
            colour == airport_colour(),
            drawn(out@) == was + ticks_at(*mark, runways@, k as int, *projection, *theme),
        decreases runways.len() - k,
    {
        let runway: &Runway = &runways[k];
        let half: i64 = tick_half_length(runway, projection.px_per_nm(), mark.radius);
        let heading: i32 = runway.heading_deg as i32 * 1000;
        put(out, Mark::Turn { at: mark.at, mdeg: projection.screen_angle_mdeg(heading), down: 0 });
        put_line(out, (0, half), (0, -half), colour, width);
        put(out, Mark::Unturn);
        k = k + 1;
        assert(drawn(out@) =~= was + ticks_at(*mark, runways@, k as int, *projection, *theme));
    }
}

fn draw_airports(
    chart: &Chart,
    marks: &Vec<AirportMark>,
    projection: &Projection,
    theme: &Theme,
) -> (r: Vec<Mark>)
    requires
        projection.wf(),
        theme.sizes_ok(),
        drawable(marks@),
    ensures
        drawn(r@) == field_marks(chart@, marks@, *projection, *theme),
{
    let width: i64 = theme.line_width * 85 / 100;
    let colour: Color = Color::rgb(150, 175, 200);
    let mut out: Vec<Mark> = nothing();
    let mut k: usize = 0;
    assert(drawn(out@) =~= outline_marks(marks@, 0, *theme));
    while k < marks.len()
        invariant
            k <= marks.len(),
            width == theme.line_width * 85 / 100,
            colour == airport_colour(),
            drawn(out@) == outline_marks(marks@, k as int, *theme),
        decreases marks.len() - k,
    {
        let (at, radius) = (marks[k].at, marks[k].radius);
        put(&mut out, Mark::Ring { at, radius, colour, width });
        k = k + 1;
        assert(drawn(out@) =~= outline_marks(marks@, k as int, *theme));
    }
    let ghost outlined = drawn(out@);
    let mut k: usize = 0;
    assert(drawn(out@) =~= outlined + centre_marks(marks@, 0));
    while k < marks.len()
        invariant
            k <= marks.len(),
            colour == airport_colour(),
            drawn(out@) == outlined + centre_marks(marks@, k as int),
        decreases marks.len() - k,
    {
        if marks[k].centre {
            put(&mut out, Mark::Disc { at: marks[k].at, radius: 1_600, colour });
        }
        k = k + 1;
        assert(drawn(out@) =~= outlined + centre_marks(marks@, k as int));
    }
    let ghost centred = drawn(out@);
    let mut k: usize = 0;
    assert(drawn(out@) =~= centred + tick_marks(chart@, marks@, 0, *projection, *theme));
    while k < marks.len()
        invariant
            k <= marks.len(),
            projection.wf(),
            theme.sizes_ok(),
            drawable(marks@),
            drawn(out@) == centred + tick_marks(
                chart@,
                marks@,
                k as int,
                *projection,
                *theme,
            ),
        decreases marks.len() - k,
    {
        assert(0 <= marks@[k as int].radius <= 1_000_000);
        put_ticks(&mut out, chart, &marks[k], projection, theme);
        k = k + 1;
        assert(drawn(out@) =~= centred + tick_marks(
            chart@,
            marks@,
            k as int,
            *projection,
            *theme,
        ));
    }
    let ghost ticked = drawn(out@);
    let style: Style = Style::new(colour, theme.font_size_tag, Align::Center, Baseline::Top);
    let mut k: usize = 0;
    assert(drawn(out@) =~= ticked + name_marks(marks@, 0, *theme));
    while k < marks.len()
        invariant
            k <= marks.len(),
            drawable(marks@),
            style == (Style {
                colour: airport_colour(),
                size: theme.font_size_tag,
                align: Align::Center,
                baseline: Baseline::Top,
            }),
            drawn(out@) == ticked + name_marks(marks@, k as int, *theme),
        decreases marks.len() - k,
    {
        if marks[k].labelled {
            let (x, y) = marks[k].at;
            assert(marks@[k as int].at.1 <= 1_000_000_000_000_000_000);
            put_text(&mut out, x, y + 6_000, marks[k].airport.label(), style);
        }
        k = k + 1;
        assert(drawn(out@) =~= ticked + name_marks(marks@, k as int, *theme));
    }
    out
}

proof fn marks_are_drawable(
    marks: Seq<AirportMark>,
    places: Seq<int>,
    airports: Seq<Airport>,
    points: Seq<(i64, i64)>,
    view: ViewState,
    layout: Layout,
    theme: Theme,
)
    requires
        layout.wf(),
        are_marks(marks, places, airports, points, view, layout, theme),
        places == on_screen(points, layout, points.len() as int),
    ensures
        drawable(marks),
{
    assert forall|k: int| 0 <= k < marks.len() implies 0 <= (#[trigger] marks[k]).radius
        <= 1_000_000 && marks[k].at.1 <= 1_000_000_000_000_000_000 by {
        on_screen_is_on_panel(points, layout, points.len() as int, k);
    }
}

proof fn on_screen_is_on_panel(points: Seq<(i64, i64)>, layout: Layout, end: int, k: int)
    requires
        0 <= end <= points.len(),
        0 <= k < on_screen(points, layout, end).len(),
    ensures
        ({
            let place = on_screen(points, layout, end)[k];
            &&& 0 <= place < end
            &&& is_on_panel(layout, points[place].0 as int, points[place].1 as int)
        }),
    decreases end,
{
    if end > 0 && k < on_screen(points, layout, end - 1).len() {
        on_screen_is_on_panel(points, layout, end - 1, k);
    }
}

/// The layer: airspace under airports, and how much of each there is.
///
/// Drawn between the weather underlay and the range rings, so that it obscures nothing but the
/// precipitation and is under everything that moves.
pub fn draw(
    chart: &Chart,
    view: &ViewState,
    layout: &Layout,
    projection: &Projection,
    theme: &Theme,
) -> (r: (Vec<Mark>, Drawn))
    requires
        layout.wf(),
        projection.wf(),
        theme.sizes_ok(),
    ensures
        exists|spaces: Seq<Airspace>, airports: Seq<Airport>, points: Seq<(i64, i64)>, marks: Seq<
            AirportMark,
        >|
            {
                &&& #[trigger] airspace_shown(spaces, chart@, *view, *layout, *projection)
                &&& #[trigger] airports_shown(airports, points, chart@, *view, *layout, *projection)
                &&& #[trigger] are_marks(
                    marks,
                    on_screen(points, *layout, points.len() as int),
                    airports,
                    points,
                    *view,
                    *layout,
                    *theme,
                )
                &&& drawn(r.0@) == boundary_marks(chart@, spaces, *projection, *theme)
                    + field_marks(chart@, marks, *projection, *theme)
                &&& r.1.airspace == spaces.len()
                &&& r.1.airports == marks.len()
            },
{
    let spaces: Vec<Airspace> = airspace_on_map(chart, view, layout, projection);
    let (airports, points) = airports_on_map(chart, view, layout, projection);
    let marks: Vec<AirportMark> = airport_marks(
        airports.as_slice(),
        points.as_slice(),
        view,
        layout,
        theme,
    );
    proof {
        marks_are_drawable(
            marks@,
            on_screen(points@, *layout, points@.len() as int),
            airports@,
            points@,
            *view,
            *layout,
            *theme,
        );
    }
    let mut out: Vec<Mark> = nothing();
    put_class(&mut out, chart, &spaces, Class::B, projection, theme);
    put_class(&mut out, chart, &spaces, Class::C, projection, theme);
    put_class(&mut out, chart, &spaces, Class::D, projection, theme);
    assert(drawn(out@) =~= boundary_marks(chart@, spaces@, *projection, *theme));
    let count: Drawn = Drawn { airspace: spaces.len(), airports: marks.len() };
    put_all(&mut out, draw_airports(chart, &marks, projection, theme));
    assert(airspace_shown(spaces@, chart@, *view, *layout, *projection));
    assert(airports_shown(airports@, points@, chart@, *view, *layout, *projection));
    (out, count)
}

/// How far a card's text is from its edge.
pub const CARD_PAD: i64 = 7_000;

/// A card's background and border.
pub open spec fn card_frame(x: int, y: int, w: int, h: int, theme: Theme) -> Seq<Painted> {
    seq![
        Painted::Fill { x, y, w, h, corner: 3_000, colour: theme.bar_background },
        Painted::Frame { x, y, w, h, corner: 3_000, colour: theme.text_dim, width: 1_000 },
    ]
}

fn draw_card_frame(card: (i64, i64, i64, i64), theme: &Theme) -> (r: Vec<Mark>)
    ensures
        drawn(r@) == card_frame(
            card.0 as int,
            card.1 as int,
            card.2 as int,
            card.3 as int,
            *theme,
        ),
{
    let area: Area = Area { x: card.0, y: card.1, w: card.2, h: card.3 };
    let mut out: Vec<Mark> = nothing();
    put(&mut out, Mark::Fill { area, corner: 3_000, colour: theme.bar_background });
    put(&mut out, Mark::Frame { area, corner: 3_000, colour: theme.text_dim, width: 1_000 });
    assert(drawn(out@) =~= card_frame(
        card.0 as int,
        card.1 as int,
        card.2 as int,
        card.3 as int,
        *theme,
    ));
    out
}

/// A line of a card whose top is at `top`, this far in.
pub open spec fn card_line(
    x: int,
    top: int,
    row: int,
    text: Seq<char>,
    colour: Color,
    size: int,
    align: Align,
) -> Painted {
    text_at(
        x,
        top + CARD_ROWS[row],
        text,
        Style { colour, size: size as i64, align, baseline: Baseline::Middle },
    )
}

fn put_card_line(
    out: &mut Vec<Mark>,
    x: i64,
    top: i64,
    row: usize,
    text: &str,
    colour: Color,
    size: i64,
    align: Align,
)
    requires
        row < 5,
        -LONGEST_SIDE <= top <= LONGEST_SIDE,
    ensures
        drawn(final(out)@) == drawn(old(out)@).push(
            card_line(x as int, top as int, row as int, text@, colour, size as int, align),
        ),
{
    assert(CARD_ROWS[0] == 16_000 && CARD_ROWS[1] == 35_000 && CARD_ROWS[2] == 53_000
        && CARD_ROWS[3] == 71_000 && CARD_ROWS[4] == 90_000);
    assert(0 <= CARD_ROWS[row as int] <= 90_000);
    put_text(out, x, top + CARD_ROWS[row], text, Style::new(colour, size, align, Baseline::Middle));
}

/// A card's first row: what it is about and, to the right, where that is from here, as a bearing and
/// a distance.
pub open spec fn title_marks(
    x: int,
    top: int,
    title: Seq<char>,
    place: Option<(u32, u32)>,
    theme: Theme,
) -> Seq<Painted> {
    seq![
        card_line(
            x + CARD_PAD,
            top,
            0,
            title,
            theme.text_primary,
            theme.font_size_normal as int,
            Align::Left,
        ),
    ] + match place {
        Some((bearing, range)) => seq![
            card_line(
                x + CARD_W - CARD_PAD,
                top,
                0,
                place_of(bearing as nat, range as nat),
                theme.text_secondary,
                theme.font_size_small as int,
                Align::Right,
            ),
        ],
        None => seq![],
    }
}

fn draw_title(
    x: i64,
    top: i64,
    title: &str,
    place: Option<(u32, u32)>,
    theme: &Theme,
) -> (r: Vec<Mark>)
    requires
        0 <= x <= 2 * LONGEST_SIDE,
        -LONGEST_SIDE <= top <= LONGEST_SIDE,
    ensures
        drawn(r@) == title_marks(x as int, top as int, title@, place, *theme),
{
    let mut out: Vec<Mark> = nothing();
    put_card_line(
        &mut out,
        x + CARD_PAD,
        top,
        0,
        title,
        theme.text_primary,
        theme.font_size_normal,
        Align::Left,
    );
    if let Some((bearing, range)) = place {
        let text: String = place_text(bearing, range);
        put_card_line(
            &mut out,
            x + CARD_W - CARD_PAD,
            top,
            0,
            text.as_str(),
            theme.text_secondary,
            theme.font_size_small,
            Align::Right,
        );
    }
    assert(drawn(out@) =~= title_marks(x as int, top as int, title@, place, *theme));
    out
}

/// The frequencies of a card, as many as fit; most fields have none, and saying so is better than a
/// blank line that reads as a display that did not finish drawing.
pub open spec fn frequency_line(entries: Seq<Seq<char>>, widths: Seq<i64>) -> Seq<char> {
    if entries.len() == 0 {
        "no published frequency"@
    } else {
        joined(entries.take(entries_that_fit(widths, CARD_W - 2 * CARD_PAD, 1)))
    }
}

/// The weather on a card: the category in a column of its own and a colour of its own, and the rest
/// of the line past it.
pub open spec fn weather_marks(
    x: int,
    top: int,
    weather: Option<StationWeather>,
    theme: Theme,
) -> Seq<Painted> {
    match weather {
        None => seq![],
        Some(weather) => (match weather.summary.category {
            Some(category) => seq![
                card_line(
                    x + CARD_PAD,
                    top,
                    4,
                    category.name(),
                    category.tint(theme),
                    theme.font_size_tag as int,
                    Align::Left,
                ),
            ],
            None => seq![],
        }) + seq![
            card_line(
                x + CARD_PAD + CATEGORY_COLUMN,
                top,
                4,
                weather_line_of(weather),
                theme.text_secondary,
                theme.font_size_tag as int,
                Align::Left,
            ),
        ],
    }
}

/// An airport's card.
pub open spec fn airport_card_marks(
    b: Seq<u8>,
    airport: Airport,
    widths: Seq<i64>,
    weather: Option<StationWeather>,
    place: Option<(u32, u32)>,
    layout: Layout,
    theme: Theme,
) -> Seq<Painted> {
    let height = airport_card_height(weather is Some);
    let x = layout.content_x0 + layout.margin;
    let top = layout.height - layout.footer_height - layout.margin - height;
    let entries = entries_of(frequencies_of(b, airport));
    let small = theme.font_size_tag as int;
    card_frame(x, top, CARD_W as int, height, theme) + title_marks(
        x,
        top,
        label_text(airport.label@),
        place,
        theme,
    ) + seq![
        card_line(
            x + CARD_PAD,
            top,
            1,
            name_text(b, airport.name_off as int, airport.name_len as int),
            theme.text_secondary,
            small,
            Align::Left,
        ),
        card_line(
            x + CARD_PAD,
            top,
            2,
            facts_of(airport, runways_of(b, airport)),
            theme.text_secondary,
            small,
            Align::Left,
        ),
        card_line(
            x + CARD_PAD,
            top,
            3,
            frequency_line(entries, widths),
            if entries.len() == 0 {
                theme.text_dim
            } else {
                theme.text_primary
            },
            small,
            Align::Left,
        ),
    ] + weather_marks(x, top, weather, theme)
}

/// An airport's card: its identifier and where it is, its name, its elevation and longest runway,
/// its frequencies, and its weather if there is any. `widths[k]` is how wide the first `k + 1` of
/// its frequencies are, joined.
pub fn draw_airport_card(
    chart: &Chart,
    airport: &Airport,
    widths: &[i64],
    weather: Option<&StationWeather>,
    place: Option<(u32, u32)>,
    layout: &Layout,
    theme: &Theme,
) -> (r: Vec<Mark>)
    requires
        layout.wf(),
        widths@.len() == entries_of(frequencies_of(chart@, *airport)).len(),
    ensures
        drawn(r@) == airport_card_marks(
            chart@,
            *airport,
            widths@,
            match weather {
                Some(weather) => Some(*weather),
                None => None,
            },
            place,
            *layout,
            *theme,
        ),
{
    let card: (i64, i64, i64, i64) = airport_card(layout, weather.is_some());
    let x: i64 = card.0;
    let top: i64 = card.1;
    let small: i64 = theme.font_size_tag;
    let mut out: Vec<Mark> = draw_card_frame(card, theme);
    put_all(&mut out, draw_title(x, top, airport.label(), place, theme));
    put_card_line(
        &mut out,
        x + CARD_PAD,
        top,
        1,
        chart.name(airport),
        theme.text_secondary,
        small,
        Align::Left,
    );
    let runways: Vec<Runway> = chart.runways(airport);
    let facts: String = facts_line(airport, runways.as_slice());
    put_card_line(
        &mut out,
        x + CARD_PAD,
        top,
        2,
        facts.as_str(),
        theme.text_secondary,
        small,
        Align::Left,
    );
    let frequencies: Vec<Frequency> = chart.frequencies(airport);
    let entries: Vec<String> = frequency_entries(frequencies.as_slice());
    assert(entries@.len() == contents(entries@).len());
    if entries.len() == 0 {
        put_card_line(
            &mut out,
            x + CARD_PAD,
            top,
            3,
            "no published frequency",
            theme.text_dim,
            small,
            Align::Left,
        );
    } else {
        let text: String = fit_entries(entries.as_slice(), widths, CARD_W - 2 * CARD_PAD);
        put_card_line(
            &mut out,
            x + CARD_PAD,
            top,
            3,
            text.as_str(),
            theme.text_primary,
            small,
            Align::Left,
        );
    }
    if let Some(weather) = weather {
        if let Some(category) = weather.summary.category {
            put_card_line(
                &mut out,
                x + CARD_PAD,
                top,
                4,
                category.label(),
                category.colour(theme),
                small,
                Align::Left,
            );
        }
        let text: String = weather_line(weather);
        put_card_line(
            &mut out,
            x + CARD_PAD + CATEGORY_COLUMN,
            top,
            4,
            text.as_str(),
            theme.text_secondary,
            small,
            Align::Left,
        );
    }
    assert(drawn(out@) =~= airport_card_marks(
        chart@,
        *airport,
        widths@,
        match weather {
            Some(weather) => Some(*weather),
            None => None,
        },
        place,
        *layout,
        *theme,
    ));
    out
}

/// The first `n` rows of the airspace card: the class in its colour, and the rest past it.
pub open spec fn row_marks(volumes: Seq<Airspace>, n: int, x: int, top: int, theme: Theme) -> Seq<
    Painted,
>
    decreases n,
{
    if n <= 0 {
        seq![]
    } else {
        row_marks(volumes, n - 1, x, top, theme) + seq![
            card_line(
                x + CARD_PAD,
                top,
                n,
                volumes[n - 1].class.name(),
                class_colour(volumes[n - 1].class),
                theme.font_size_tag as int,
                Align::Left,
            ),
            card_line(
                x + CARD_PAD + CLASS_COLUMN,
                top,
                n,
                airspace_row_of(volumes[n - 1]),
                theme.text_primary,
                theme.font_size_tag as int,
                Align::Left,
            ),
        ]
    }
}

/// The airspace card; nothing where there is no airspace.
pub open spec fn airspace_card_marks(
    volumes: Seq<Airspace>,
    place: Option<(u32, u32)>,
    layout: Layout,
    theme: Theme,
) -> Seq<Painted> {
    let shown = volumes_shown(volumes.len() as int);
    let height = airspace_card_height(volumes.len() as int);
    let x = layout.content_x0 + layout.margin;
    let top = layout.height - layout.footer_height - layout.margin - height;
    if volumes.len() == 0 {
        seq![]
    } else {
        card_frame(x, top, CARD_W as int, height, theme) + title_marks(
            x,
            top,
            "AIRSPACE"@,
            place,
            theme,
        ) + row_marks(volumes, shown, x, top, theme)
    }
}

/// The airspace over a point: what is stacked there and where each layer starts and stops, lowest
/// floor first.
pub fn draw_airspace_card(
    volumes: &[Airspace],
    place: Option<(u32, u32)>,
    layout: &Layout,
    theme: &Theme,
) -> (r: Vec<Mark>)
    requires
        layout.wf(),
    ensures
        drawn(r@) == airspace_card_marks(volumes@, place, *layout, *theme),
{
    if volumes.len() == 0 {
        return nothing();
    }
    let (card, shown) = airspace_card(layout, volumes.len());
    let x: i64 = card.0;
    let top: i64 = card.1;
    assert(CARD_ROWS[0] == 16_000 && CARD_ROWS[1] == 35_000 && CARD_ROWS[2] == 53_000
        && CARD_ROWS[3] == 71_000 && CARD_ROWS[4] == 90_000);
    assert(-LONGEST_SIDE <= top <= LONGEST_SIDE);
    let mut out: Vec<Mark> = draw_card_frame(card, theme);
    put_all(&mut out, draw_title(x, top, "AIRSPACE", place, theme));
    let ghost titled = drawn(out@);
    let mut k: usize = 0;
    assert(drawn(out@) =~= titled + row_marks(volumes@, 0, x as int, top as int, *theme));
    while k < shown
        invariant
            k <= shown,
            shown <= 4,
            shown <= volumes@.len(),
            0 <= x <= 2 * LONGEST_SIDE,
            -LONGEST_SIDE <= top <= LONGEST_SIDE,
            drawn(out@) == titled + row_marks(
                volumes@,
                k as int,
                x as int,
                top as int,
                *theme,
            ),
        decreases shown - k,
    {
        let space: &Airspace = &volumes[k];
        k = k + 1;
        put_card_line(
            &mut out,
            x + CARD_PAD,
            top,
            k,
            space.class.label(),
            colour_of_class(space.class),
            theme.font_size_tag,
            Align::Left,
        );
        let text: String = airspace_row(space);
        put_card_line(
            &mut out,
            x + CARD_PAD + CLASS_COLUMN,
            top,
            k,
            text.as_str(),
            theme.text_primary,
            theme.font_size_tag,
            Align::Left,
        );
        assert(drawn(out@) =~= titled + row_marks(
            volumes@,
            k as int,
            x as int,
            top as int,
            *theme,
        ));
    }
    out
}

/// What a card says besides what the chart does.
pub struct CardData<'a> {
    /// Where its subject is from here: bearing and distance.
    pub place: Option<(u32, u32)>,
    pub weather: Option<&'a StationWeather>,
    /// How wide the first frequencies are, joined: see [`fit_entries`].
    pub widths: &'a [i64],
}

impl<'a> CardData<'a> {
    /// Whether the widths could be those of a subject's frequencies.
    pub open spec fn fits(self, b: Seq<u8>, subject: Inspected) -> bool {
        match subject {
            Inspected::Airport(index) => forall|airport: Airport| #[trigger]
                airport_is(airport, b, index as int) ==> self.widths@.len() == entries_of(
                    frequencies_of(b, airport),
                ).len(),
            Inspected::Airspace(_) => true,
        }
    }

    /// The weather, if there is any.
    pub open spec fn reported(self) -> Option<StationWeather> {
        match self.weather {
            Some(weather) => Some(*weather),
            None => None,
        }
    }
}

/// The card a tap opened: an airport's, or that of the airspace over a point.
///
/// Drawn after the traffic, so that a card the pilot asked for is not covered by a tag they did not.
pub fn draw_inspect(
    chart: &Chart,
    subject: Inspected,
    data: &CardData<'_>,
    layout: &Layout,
    theme: &Theme,
) -> (r: Vec<Mark>)
    requires
        layout.wf(),
        data.fits(chart@, subject),
    ensures
        match subject {
            Inspected::Airport(index) => {
                &&& index >= airport_total(chart@) ==> r@.len() == 0
                &&& index < airport_total(chart@) ==> exists|airport: Airport|
                    {
                        &&& #[trigger] airport_is(airport, chart@, index as int)
                        &&& drawn(r@) == airport_card_marks(
                            chart@,
                            airport,
                            data.widths@,
                            data.reported(),
                            data.place,
                            *layout,
                            *theme,
                        )
                    }
            },
            Inspected::Airspace(at) => exists|volumes: Seq<Airspace>|
                {
                    &&& #[trigger] volumes_over(volumes, chart@, at)
                    &&& drawn(r@) == airspace_card_marks(volumes, data.place, *layout, *theme)
                },
        },
{
    match subject {
        Inspected::Airport(index) => match chart.airport_at(index as usize) {
            Some(airport) => draw_airport_card(
                chart,
                &airport,
                data.widths,
                data.weather,
                data.place,
                layout,
                theme,
            ),
            None => nothing(),
        },
        Inspected::Airspace(at) => {
            let volumes: Vec<Airspace> = chart.airspace_at(at);
            draw_airspace_card(volumes.as_slice(), data.place, layout, theme)
        },
    }
}

// --- laws ----------------------------------------------------------------------------------

/// Every row of an airport's card lies inside it, the last where there is weather to show.
pub proof fn rows_lie_inside_their_card(row: int, has_weather: bool)
    requires
        0 <= row < 4 || (row == 4 && has_weather),
    ensures
        0 < CARD_ROWS[row] < airport_card_height(has_weather),
{
    assert(CARD_ROWS[0] == 16_000 && CARD_ROWS[1] == 35_000 && CARD_ROWS[2] == 53_000
        && CARD_ROWS[3] == 71_000 && CARD_ROWS[4] == 90_000);
    assert(row == 0 || row == 1 || row == 2 || row == 3 || row == 4);
}

/// However many volumes are stacked, the title and every row of the airspace card lie inside it.
pub proof fn the_airspace_card_grows_to_fit(volumes: int, row: int)
    requires
        0 <= row <= volumes_shown(volumes),
    ensures
        0 < CARD_ROWS[row],
        CARD_ROWS[row] + 10_000 <= airspace_card_height(volumes),
{
    assert(CARD_ROWS[0] == 16_000 && CARD_ROWS[1] == 35_000 && CARD_ROWS[2] == 53_000
        && CARD_ROWS[3] == 71_000 && CARD_ROWS[4] == 90_000);
    let shown = volumes_shown(volumes);
    assert(shown == 0 || shown == 1 || shown == 2 || shown == 3 || shown == 4);
    assert(row == 0 || row == 1 || row == 2 || row == 3 || row == 4);
}

/// A tick never passes its ceiling, and while the ceiling allows it sticks out of its symbol.
pub proof fn ticks_show_their_angle(length_ft: int, mpx_per_nm: int, tier: Tier)
    requires
        0 <= length_ft,
        0 <= mpx_per_nm,
    ensures
        radius_of(tier) < half_tick(length_ft, mpx_per_nm, radius_of(tier)) <= TICK_MAX,
{
}

/// Whatever can be tapped is on the panel, and a tap on a lone symbol finds it.
pub proof fn a_tap_on_a_symbol_finds_it(layout: Layout, symbols: Seq<(i64, i64)>, i: int)
    requires
        0 <= i < symbols.len(),
        is_on_panel(layout, symbols[i].0 as int, symbols[i].1 as int),
        forall|k: int|
            0 <= k < i ==> (#[trigger] symbols[k]) != symbols[i],
    ensures
        is_nearest(layout, symbols, i, symbols[i].0 as int, symbols[i].1 as int),
{
    let (x, y) = (symbols[i].0 as int, symbols[i].1 as int);
    assert(apart(x, y, x, y) == 0);
    assert forall|k: int| 0 <= k < symbols.len() && reachable(layout, #[trigger] symbols[k], x, y) implies {
        let other = apart(symbols[k].0 as int, symbols[k].1 as int, x, y);
        other > 0 || (other == 0 && i <= k)
    } by {
        let (dx, dy) = (symbols[k].0 - x, symbols[k].1 - y);
        assert(dx * dx >= 0 && dy * dy >= 0 && (dx * dx + dy * dy == 0 ==> dx == 0 && dy == 0))
            by (nonlinear_arith);
    }
}

/// A query as wide as the visible radius leaves no corner of the screen bare: nothing on the content
/// area is further from its middle than half the diagonal.
pub proof fn the_query_reaches_the_corners(layout: Layout, half: int, dx: int, dy: int)
    requires
        is_half_diagonal(layout, half),
        0 <= dx <= (layout.content_x1 - layout.content_x0) / 2,
        0 <= dy <= (layout.strip_bottom() - layout.strip_top()) / 2,
    ensures
        dx * dx + dy * dy < (half + 1) * (half + 1),
{
    let across = (layout.content_x1 - layout.content_x0) / 2;
    let down = (layout.strip_bottom() - layout.strip_top()) / 2;
    assert(dx * dx <= across * across) by (nonlinear_arith)
        requires
            0 <= dx <= across,
    ;
    assert(dy * dy <= down * down) by (nonlinear_arith)
        requires
            0 <= dy <= down,
    ;
}

/// A runway is drawn the way it lies: its tick is turned by its heading less what the world is turned by,
/// about the middle of its field, and runs as far either way.
pub proof fn runways_are_drawn_as_they_lie(
    mark: AirportMark,
    runway: Runway,
    projection: Projection,
    theme: Theme,
)
    ensures
        ({
            let marks = runway_marks(mark, runway, projection, theme);
            &&& marks.len() == 3
            &&& marks[0] is Turn && marks[0]->down == 0
            &&& marks[0]->Turn_at == (mark.at.0 as int, mark.at.1 as int)
            &&& marks[0]->mdeg + projection.rotation_mdeg == 1000 * runway.heading_deg
            &&& marks[1] is Line
            &&& marks[1]->from.0 == 0 && marks[1]->to.0 == 0
            &&& marks[1]->from.1 == -marks[1]->to.1
            &&& marks[1]->Line_colour == (Color { r: 15_000, g: 17_500, b: 20_000, a: 25_500 })
            &&& marks[2] == Painted::Unturn
        }),
{
}

/// A runway is drawn to scale: as long on the screen as it is on the ground, at 6076 feet to the mile,
/// except that it always sticks out of its symbol and never past twenty-six pixels either way.
pub proof fn runways_are_drawn_to_scale(length_ft: int, mpx_per_nm: int, radius: int)
    requires
        0 <= length_ft,
        0 <= mpx_per_nm,
        0 <= radius <= 24_000,
    ensures
        ({
            let half = half_tick(length_ft, mpx_per_nm, radius);
            &&& radius + 2_000 <= half <= 26_000
            &&& radius + 2_000 < half < 26_000 ==> 12_152 * half <= length_ft * mpx_per_nm
                < 12_152 * half + 12_152
            &&& half == 26_000 && radius < 24_000 ==> length_ft * mpx_per_nm >= 12_152 * 26_000
        }),
{
    let n = length_ft * mpx_per_nm;
    assert(n >= 0) by (nonlinear_arith)
        requires
            n == length_ft * mpx_per_nm,
            length_ft >= 0,
            mpx_per_nm >= 0,
    ;
    assert(n / 6076 / 2 == n / 12_152);
}

/// The larger the field, the larger its ring. Runways show from twenty miles in and never more than two,
/// names from ten miles in.
pub proof fn fields_are_drawn_by_their_size(range_mnm: int, runways: int)
    requires
        0 <= runways,
    ensures
        radius_of(Tier::Major) == 5_000,
        radius_of(Tier::Paved) == 4_000,
        radius_of(Tier::Minor) == 3_000,
        radius_of(Tier::Heliport) == 3_000,
        range_mnm > 20_000 ==> ticks_of(range_mnm, runways) == 0,
        range_mnm <= 20_000 && runways <= 2 ==> ticks_of(range_mnm, runways) == runways,
        range_mnm <= 20_000 && runways > 2 ==> ticks_of(range_mnm, runways) == 2,
{
}

/// Only the larger fields are named, only from ten miles in, only on the panel, and never under
/// own-ship.
pub proof fn only_the_larger_fields_are_named(
    range_mnm: int,
    tier: Tier,
    layout: Layout,
    theme: Theme,
    x: int,
    y: int,
)
    ensures
        is_labelled(range_mnm, tier, layout, theme, x, y) ==> {
            &&& range_mnm <= 10_000
            &&& tier == Tier::Major || tier == Tier::Paved
            &&& layout.content_x0 - 12_000 <= x <= layout.content_x1 + 12_000
        },
        range_mnm <= 10_000 && (tier == Tier::Major || tier == Tier::Paved) && layout.content_x0 <= x
            <= layout.content_x1 && layout.strip_top() <= y <= layout.strip_bottom() && apart(
            x,
            y,
            layout.center.0 as int,
            layout.center.1 as int,
        ) >= (theme.symbol_size * 18 / 10) * (theme.symbol_size * 18 / 10) ==> is_labelled(
            range_mnm,
            tier,
            layout,
            theme,
            x,
            y,
        ),
{
}

/// What a field is marked with: its ring, a dot in it where it has a hard surface and is one of the
/// larger ones, where it is on the screen.
pub proof fn fields_are_marked_where_they_are(
    mark: AirportMark,
    airport: Airport,
    at: (i64, i64),
    view: ViewState,
    layout: Layout,
    theme: Theme,
)
    requires
        is_mark(mark, airport, at, view, layout, theme),
    ensures
        mark.at == at && mark.airport == airport,
        airport.tier == Tier::Major ==> mark.radius == 5_000,
        mark.centre ==> airport.tier == Tier::Major || airport.tier == Tier::Paved,
        mark.centre ==> airport.flags % 2 == 1,
        airport.flags % 2 == 1 && airport.tier == Tier::Major ==> mark.centre,
        mark.labelled ==> view.range_mnm <= 10_000,
        view.range_mnm > 20_000 ==> mark.ticks == 0,
{
    let flags = airport.flags;
    assert(flags % 2 == 1 ==> flags & 1 != 0) by (bit_vector);
    assert(flags % 2 == 0 ==> flags & 1 == 0) by (bit_vector);
}

/// A name stands under its own field, in the colour of the map, and the rings stand on their fields.
pub proof fn names_stand_under_their_fields(marks: Seq<AirportMark>, n: int, theme: Theme)
    requires
        0 < n <= marks.len(),
        marks[n - 1].labelled,
    ensures
        ({
            let name = name_marks(marks, n, theme).last();
            &&& name is Text && name->text == label_text(marks[n - 1].airport.label@)
            &&& name->Text_x == marks[n - 1].at.0
            &&& name->Text_y == marks[n - 1].at.1 + 6_000
            &&& name->style.align == Align::Center && name->style.baseline == Baseline::Top
            &&& name->style.colour == (Color { r: 15_000, g: 17_500, b: 20_000, a: 25_500 })
            &&& outline_marks(marks, n, theme)[n - 1] is Ring
            &&& outline_marks(marks, n, theme)[n - 1]->Ring_at == (
                marks[n - 1].at.0 as int,
                marks[n - 1].at.1 as int,
            )
            &&& outline_marks(marks, n, theme)[n - 1]->Ring_radius == marks[n - 1].radius
        }),
{
}

/// Class B and D are blue and C magenta, as a chart has them; only D is dashed, and the more there is to
/// know of a class the heavier its line.
pub proof fn boundaries_look_like_a_chart(class: Class, theme: Theme)
    requires
        theme.line_width >= 100,
    ensures
        class_colour(Class::B) == (Color { r: 9_500, g: 15_000, b: 25_500, a: 25_500 }),
        class_colour(Class::C) == (Color { r: 20_500, g: 10_500, b: 20_500, a: 25_500 }),
        class_colour(Class::D) == (Color { r: 9_500, g: 15_000, b: 25_500, a: 25_500 }),
        boundary_width(Class::B, theme) > boundary_width(Class::C, theme) > boundary_width(
            Class::D,
            theme,
        ) > 0,
        boundary_width(Class::C, theme) == theme.line_width,
        Class::B.name() == "B"@,
        Class::C.name() == "C"@,
        Class::D.name() == "D"@,
{
}

/// Every ring of a volume that has points is drawn through where they are on the screen, in the colour of
/// its class, and dashed for class D alone.
pub proof fn boundaries_run_through_their_points(
    b: Seq<u8>,
    space: Airspace,
    n: int,
    projection: Projection,
    theme: Theme,
)
    requires
        n > 0,
        ring_vertices(b, space, n - 1).len() > 0,
    ensures
        ({
            let mark = volume_marks(b, space, n, projection, theme).last();
            let ring = ring_vertices(b, space, n - 1);
            &&& mark is Boundary
            &&& mark->Boundary_points.len() == ring.len()
            &&& forall|i: int|
                0 <= i < ring.len() ==> (#[trigger] mark->Boundary_points[i]) == (
                    projection.place(ring[i]).0 as i64,
                    projection.place(ring[i]).1 as i64,
                )
            &&& mark->dashed <==> space.class == Class::D
            &&& space.class == Class::C ==> mark->Boundary_colour == (Color {
                r: 20_500,
                g: 10_500,
                b: 20_500,
                a: 25_500,
            })
            &&& space.class != Class::C ==> mark->Boundary_colour == (Color {
                r: 9_500,
                g: 15_000,
                b: 25_500,
                a: 25_500,
            })
        }),
{
}

/// The map shows what is asked for: nothing while it is off, airports from the next step on, and airspace
/// only with the whole of it.
pub proof fn the_map_shows_what_is_asked_for(
    b: Seq<u8>,
    view: ViewState,
    layout: Layout,
    projection: Projection,
    spaces: Seq<Airspace>,
)
    ensures
        view.map_layers == MapLayers::Off ==> airports_near(b, view, layout, projection).len() == 0,
        view.map_layers != MapLayers::Off ==> airports_near(b, view, layout, projection)
            == airports_found(
            b,
            map_bounds(layout, projection),
            tier_for(view.range_mnm as int),
        ),
        view.map_layers != MapLayers::Full && airspace_shown(spaces, b, view, layout, projection)
            ==> spaces.len() == 0,
{
}

/// A tap reaches what is on the panel and within twenty-four pixels of it, and nothing further.
pub proof fn a_tap_reaches_a_fingertip(layout: Layout, symbol: (i64, i64), x: int, y: int)
    ensures
        reachable(layout, symbol, x, y) ==> (symbol.0 - x) * (symbol.0 - x) + (symbol.1 - y) * (
        symbol.1 - y) <= 24_000 * 24_000,
        layout.content_x0 <= symbol.0 <= layout.content_x1 && layout.strip_top() <= symbol.1
            <= layout.strip_bottom() && (symbol.0 - x) * (symbol.0 - x) + (symbol.1 - y) * (symbol.1
            - y) <= 24_000 * 24_000 ==> reachable(layout, symbol, x, y),
{
}

/// The report shown for a station is a METAR of it and the last of those there are; letters of either
/// case name the same station.
pub proof fn the_last_report_of_a_station_is_shown(
    reports: Seq<WeatherText>,
    station: Seq<char>,
    end: int,
)
    requires
        0 <= end <= reports.len(),
    ensures
        match metar_for(reports, station, end) {
            Some(i) => {
                &&& 0 <= i < end
                &&& reports[i].product == WeatherProduct::Metar
                &&& lowered(reports[i].location@) == lowered(station)
                &&& forall|k: int|
                    i < k < end ==> (#[trigger] reports[k]).product != WeatherProduct::Metar
                        || lowered(reports[k].location@) != lowered(station)
            },
            None => forall|k: int|
                0 <= k < end ==> (#[trigger] reports[k]).product != WeatherProduct::Metar || lowered(
                    reports[k].location@,
                ) != lowered(station),
        },
    decreases end,
{
    if end > 0 {
        the_last_report_of_a_station_is_shown(reports, station, end - 1);
    }
}

/// A time reads back: minutes below an hour, and from there hours and the minutes past them.
pub proof fn times_read_back(minutes: nat)
    ensures
        ({
            let text = minutes_text(minutes);
            let n = text.len();
            &&& n >= 2
            &&& text[n - 1] == 'm'
            &&& minutes < 60 ==> number(text.take(n - 1)) == minutes
            &&& minutes >= 60 ==> {
                &&& n >= 5
                &&& text[n - 4] == 'h'
                &&& 60 * number(text.take(n - 4)) + number(text.subrange(n - 3, n - 1)) == minutes
                &&& number(text.subrange(n - 3, n - 1)) < 60
            }
        }),
{
    reveal_strlit("m");
    reveal_strlit("h");
    let text = minutes_text(minutes);
    let n = text.len();
    if minutes < 60 {
        decimals_read_back(minutes);
        assert(text.take(n - 1) =~= decimal(minutes));
    } else {
        decimals_read_back(minutes / 60);
        reveal_with_fuel(ten_to, 3);
        padded_reads_back(minutes % 60, 2);
        assert(text.take(n - 4) =~= decimal(minutes / 60));
        assert(text.subrange(n - 3, n - 1) =~= padded(minutes % 60, 2));
    }
}

/// A visibility of whole miles reads as that number, and one within a twentieth of it too; any other
/// reads to the hundredth.
pub proof fn visibilities_read_as_they_are(miles: nat, num: nat, den: nat)
    requires
        0 < den,
    ensures
        visibility_size(miles * den, den) == decimal(miles),
        miles * den <= num && 20 * (num - miles * den) < den ==> visibility_size(num, den) == decimal(
            miles,
        ),
        miles * den < num && 20 * (num - miles * den) >= den && 20 * (num - miles * den) <= 19 * den
            ==> visibility_size(num, den) == to_hundredths(num, den),
        visibility_text(Single::NotANumber) == "NaN"@,
        visibility_text(Single::Infinite { negative: false }) == "inf"@,
        visibility_text(Single::Infinite { negative: true }) == "-inf"@,
{
    let m = miles as int;
    let d = den as int;
    whole_part_of_a_sum(m, d, 0);
    assert(2 * (m * d) == m * (2 * d)) by (nonlinear_arith);
    if miles * den <= num {
        let off = num - m * d;
        if 0 <= off < d {
            whole_part_of_a_sum(m, d, off);
            if 2 * off >= d {
                assert((m + 1) * d == m * d + d) by (nonlinear_arith);
            }
        }
    }
}

proof fn whole_part_of_a_sum(m: int, d: int, off: int)
    requires
        0 < d,
        0 <= m,
        0 <= off < d,
    ensures
        2 * off < d ==> (2 * (m * d + off) + d) / (2 * d) == m,
        2 * off >= d ==> (2 * (m * d + off) + d) / (2 * d) == m + 1,
{
    let n = 2 * (m * d + off) + d;
    assert(2 * (m * d) == m * (2 * d)) by (nonlinear_arith);
    assert((m + 1) * (2 * d) == m * (2 * d) + 2 * d) by (nonlinear_arith);
    if 2 * off < d {
        vstd::arithmetic::div_mod::lemma_fundamental_div_mod_converse(n, 2 * d, m, 2 * off + d);
    } else {
        vstd::arithmetic::div_mod::lemma_fundamental_div_mod_converse(n, 2 * d, m + 1, 2 * off - d);
    }
}

/// The limits of a volume read from the floor up: the surface where it starts there, feet otherwise.
pub proof fn limits_read_from_the_floor_up(space: Airspace)
    ensures
        space.flags % 2 == 1 ==> limits_of(space) == "SFC"@ + " - "@ + signed_decimal(
            space.upper_ft as int,
        ) + " ft"@,
        space.flags % 2 == 0 ==> limits_of(space) == signed_decimal(space.lower_ft as int) + " - "@
            + signed_decimal(space.upper_ft as int) + " ft"@,
{
    let flags = space.flags;
    assert(flags % 2 == 1 ==> flags & 1 != 0) by (bit_vector);
    assert(flags % 2 == 0 ==> flags & 1 == 0) by (bit_vector);
}

/// Where something is reads as a bearing of three digits and a distance to the tenth of a mile.
pub proof fn places_read_back(bearing_mdeg: nat, range_mnm: nat)
    requires
        bearing_mdeg < 999_000,
    ensures
        ({
            let text = place_of(bearing_mdeg, range_mnm);
            &&& text[3] == '\u{00B0}'
            &&& -500 <= bearing_mdeg - 1000 * number(text.take(3)) <= 500
            &&& text.subrange(6, text.len() - 3) == to_tenths(range_mnm, 1000)
            &&& text.skip(text.len() - 3) == " nm"@
        }),
{
    reveal_strlit("  ");
    reveal_strlit(" nm");
    rounding_is_to_the_nearest(bearing_mdeg, 1000);
    reveal_with_fuel(ten_to, 4);
    let degrees = nearest(bearing_mdeg, 1000);
    padded_reads_back(degrees, 3);
    let text = place_of(bearing_mdeg, range_mnm);
    let far = to_tenths(range_mnm, 1000);
    assert(text.take(3) =~= padded(degrees, 3));
    assert(text.subrange(6, text.len() - 3) =~= far);
    assert(text.skip(text.len() - 3) =~= " nm"@);
}

/// What a field is: its height, and where it has a runway how long that is, which way it runs and
/// whether it is lit.
pub proof fn facts_say_what_a_field_is(airport: Airport, runways: Seq<Runway>)
    requires
        runways.len() > 0,
    ensures
        airport.runway_ft == 0 ==> facts_of(airport, runways) == signed_decimal(
            airport.elevation_ft as int,
        ) + " ft"@ + ""@,
        airport.runway_ft > 0 && airport.flags & 2 == 0 ==> facts_of(airport, runways)
            == signed_decimal(airport.elevation_ft as int) + " ft"@ + ("   "@ + decimal(
            airport.runway_ft as nat,
        ) + " ft"@ + (" "@ + runways[0].written()) + ""@),
        airport.runway_ft > 0 && airport.flags & 2 != 0 ==> facts_of(airport, runways)
            == signed_decimal(airport.elevation_ft as int) + " ft"@ + ("   "@ + decimal(
            airport.runway_ft as nat,
        ) + " ft"@ + (" "@ + runways[0].written()) + "  LIT"@),
{
}

/// A frequency nobody has put a name to is left out of the card; every other stands there behind its
/// name, in the order of the chart.
pub proof fn only_named_frequencies_are_shown(list: Seq<Frequency>, next: Frequency)
    ensures
        next.kind == FreqKind::Other ==> entries_of(list.push(next)) == entries_of(list),
        next.kind != FreqKind::Other ==> entries_of(list.push(next)) == entries_of(list).push(
            next.kind.name() + " "@ + next.written(),
        ),
        entries_of(seq![]).len() == 0,
{
    assert(list.push(next).drop_last() =~= list);
}

/// As many frequencies stand on the line as fit, and always the first; with none it says so.
pub proof fn what_fits_stands_on_the_line(entries: Seq<Seq<char>>, widths: Seq<i64>)
    requires
        widths.len() == entries.len(),
    ensures
        entries.len() == 0 ==> frequency_line(entries, widths) == "no published frequency"@,
        entries.len() == 1 ==> frequency_line(entries, widths) == entries[0],
        entries.len() == 2 && widths[1] <= 322_000 ==> frequency_line(entries, widths) == entries[0]
            + "  "@ + entries[1],
        entries.len() == 2 && widths[1] > 322_000 ==> frequency_line(entries, widths) == entries[0],
{
    reveal_with_fuel(joined, 3);
    reveal_with_fuel(entries_that_fit, 3);
    if entries.len() == 1 {
        assert(entries.take(1) =~= entries);
    } else if entries.len() == 2 {
        assert(entries.take(2) =~= entries);
        assert(entries.take(1).len() == 1 && entries.take(1)[0] == entries[0]);
        assert(entries.drop_last() =~= entries.take(1));
    }
}

/// A card stands at the lower left of the content, inside it: clear of the margin, over the footer.
pub proof fn cards_stand_at_the_lower_left(
    b: Seq<u8>,
    airport: Airport,
    widths: Seq<i64>,
    weather: Option<StationWeather>,
    place: Option<(u32, u32)>,
    layout: Layout,
    theme: Theme,
)
    ensures
        ({
            let marks = airport_card_marks(b, airport, widths, weather, place, layout, theme);
            let (fill, title) = (marks[0], marks[2]);
            &&& fill is Fill
            &&& fill->Fill_x == layout.content_x0 + layout.margin
            &&& fill->Fill_y + fill->Fill_h == layout.height - layout.footer_height - layout.margin
            &&& fill->Fill_w == 336_000
            &&& weather is Some ==> fill->Fill_h == 107_000
            &&& weather is None ==> fill->Fill_h == 88_000
            &&& fill->Fill_colour == theme.bar_background
            &&& title is Text && title->text == label_text(airport.label@)
            &&& title->Text_y == fill->Fill_y + 16_000
            &&& title->style.colour == theme.text_primary
            &&& place matches Some((bearing, range)) ==> {
                &&& marks[3] is Text && marks[3]->text == place_of(bearing as nat, range as nat)
                &&& marks[3]->style.align == Align::Right
                &&& marks[3]->Text_x == fill->Fill_x + fill->Fill_w - 7_000
                &&& marks[4]->text == name_text(
                    b,
                    airport.name_off as int,
                    airport.name_len as int,
                )
                &&& marks[5]->text == facts_of(airport, runways_of(b, airport))
            }
            &&& place is None ==> marks[3]->text == name_text(
                b,
                airport.name_off as int,
                airport.name_len as int,
            ) && marks[4]->text == facts_of(airport, runways_of(b, airport))
        }),
{
    assert(CARD_ROWS[0] == 16_000);
}

/// The weather of a field stands on its card as its category, in the colour of that, and then wind,
/// ceiling, visibility and age. Without a category it says what it is instead.
pub proof fn the_weather_of_a_field_is_on_its_card(
    x: int,
    top: int,
    weather: StationWeather,
    theme: Theme,
)
    ensures
        ({
            let marks = weather_marks(x, top, Some(weather), theme);
            let line = marks.last();
            &&& line is Text && line->text == weather_line_of(weather)
            &&& line->Text_y == top + 90_000
            &&& weather.summary.category matches Some(category) ==> marks.len() == 2
                && marks[0]->text == category.name() && marks[0]->style.colour == category.tint(
                theme,
            ) && marks[0]->Text_x < line->Text_x
            &&& weather.summary.category is None ==> marks.len() == 1
            &&& weather_marks(x, top, None, theme).len() == 0
        }),
        ({
            let s = weather.summary;
            let none: Seq<char> = seq![];
            let head = if s.category is None {
                "METAR"@
            } else {
                none
            };
            let wind = if s.wind is Some {
                "  "@ + (s.wind->0).written()
            } else {
                none
            };
            let ceiling = if s.ceiling_ft is Some {
                "  "@ + decimal(s.ceiling_ft->0 as nat) + " ft"@
            } else {
                none
            };
            let sight = if s.visibility_sm is Some {
                "  "@ + visibility_text(s.visibility_sm->0) + " sm"@
            } else {
                none
            };
            let age = "  "@ + minutes_text((weather.age / 60_000_000_000) as nat);
            let taf = if weather.has_taf {
                "  TAF"@
            } else {
                none
            };
            weather_line_of(weather) == head + wind + ceiling + sight + (age + taf)
        }),
{
    assert(CARD_ROWS[4] == 90_000);
    assert(weather.age / SECOND / 60 == weather.age / 60_000_000_000);
}

/// An airspace card lists the volumes from the lowest up, four at most, each in the colour of its class
/// with what it is called and its limits.
pub proof fn the_airspace_card_lists_volumes(
    volumes: Seq<Airspace>,
    n: int,
    x: int,
    top: int,
    theme: Theme,
)
    requires
        0 < n <= volumes.len(),
    ensures
        ({
            let marks = row_marks(volumes, n, x, top, theme);
            let (class, row) = (marks[marks.len() - 2], marks[marks.len() - 1]);
            &&& class is Text && class->text == volumes[n - 1].class.name()
            &&& class->style.colour == class_colour(volumes[n - 1].class)
            &&& row is Text && row->text == airspace_row_of(volumes[n - 1])
            &&& class->Text_y == row->Text_y
            &&& class->Text_x < row->Text_x
        }),
        volumes_shown(volumes.len() as int) <= 4,
        volumes.len() <= 4 ==> volumes_shown(volumes.len() as int) == volumes.len(),
        label_text(volumes[n - 1].label@).len() <= 8 ==> airspace_row_of(volumes[n - 1]).len() == 9
            + limits_of(volumes[n - 1]).len(),
        airspace_row_of(volumes[n - 1]).skip(
            airspace_row_of(volumes[n - 1]).len() - limits_of(volumes[n - 1]).len(),
        ) == limits_of(volumes[n - 1]),
{
    reveal_strlit(" ");
    let row = airspace_row_of(volumes[n - 1]);
    let limits = limits_of(volumes[n - 1]);
    assert(row.skip(row.len() - limits.len()) =~= limits);
}

/// What is on the panel or within twelve pixels of it is drawn, all of it and nothing else, in the order
/// it was found.
pub proof fn what_is_on_the_panel_is_drawn(points: Seq<(i64, i64)>, layout: Layout, end: int)
    requires
        0 <= end <= points.len(),
    ensures
        ({
            let list = on_screen(points, layout, end);
            &&& forall|k: int|
                0 <= k < list.len() ==> 0 <= #[trigger] list[k] < end && layout.content_x0 - 12_000
                    <= points[list[k]].0 <= layout.content_x1 + 12_000 && layout.strip_top() - 12_000
                    <= points[list[k]].1 <= layout.strip_bottom() + 12_000
            &&& forall|j: int, k: int| 0 <= j < k < list.len() ==> list[j] < list[k]
            &&& forall|i: int|
                0 <= i < end && layout.content_x0 <= (#[trigger] points[i]).0 <= layout.content_x1
                    && layout.strip_top() <= points[i].1 <= layout.strip_bottom() ==> list.contains(i)
        }),
    decreases end,
{
    if end > 0 {
        what_is_on_the_panel_is_drawn(points, layout, end - 1);
        let before = on_screen(points, layout, end - 1);
        let list = on_screen(points, layout, end);
        assert forall|i: int|
            0 <= i < end && layout.content_x0 <= (#[trigger] points[i]).0 <= layout.content_x1
                && layout.strip_top() <= points[i].1 <= layout.strip_bottom() implies list.contains(
            i,
        ) by {
            if i == end - 1 {
                assert(list[list.len() - 1] == i);
            } else {
                assert(before.contains(i));
                let k = choose|k: int| 0 <= k < before.len() && before[k] == i;
                assert(list[k] == i);
            }
        }
    }
}

/// The airspace is drawn a class at a time, B under C under D, every volume with those of its class.
pub proof fn classes_are_drawn_in_order(
    b: Seq<u8>,
    space: Airspace,
    projection: Projection,
    theme: Theme,
    class: Class,
)
    ensures
        class_marks(b, seq![space], class, 1, projection, theme) == (if space.class == class {
            volume_marks(b, space, space.ring_count as int, projection, theme)
        } else {
            seq![]
        }),
        boundary_marks(b, seq![space], projection, theme) == volume_marks(
            b,
            space,
            space.ring_count as int,
            projection,
            theme,
        ),
{
    reveal_with_fuel(class_marks, 2);
    let none: Seq<Painted> = seq![];
    let one = volume_marks(b, space, space.ring_count as int, projection, theme);
    assert(none + one =~= one);
    assert(none + none =~= none);
    assert(class_marks(b, seq![space], class, 1, projection, theme) =~= if space.class == class {
        one
    } else {
        none
    });
    assert(boundary_marks(b, seq![space], projection, theme) =~= one);
}

/// Of two volumes the one of the wider class is drawn first, under the other, whichever is listed first.
pub proof fn the_wider_class_is_drawn_under(
    b: Seq<u8>,
    one: Airspace,
    other: Airspace,
    projection: Projection,
    theme: Theme,
)
    requires
        one.class == Class::B && other.class != Class::B || one.class == Class::C && other.class
            == Class::D,
    ensures
        ({
            let under = volume_marks(b, one, one.ring_count as int, projection, theme);
            let over = volume_marks(b, other, other.ring_count as int, projection, theme);
            &&& boundary_marks(b, seq![one, other], projection, theme) == under + over
            &&& boundary_marks(b, seq![other, one], projection, theme) == under + over
        }),
{
    reveal_with_fuel(class_marks, 3);
    let under = volume_marks(b, one, one.ring_count as int, projection, theme);
    let over = volume_marks(b, other, other.ring_count as int, projection, theme);
    assert(boundary_marks(b, seq![one, other], projection, theme) =~= under + over);
    assert(boundary_marks(b, seq![other, one], projection, theme) =~= under + over);
}

} // verus!
