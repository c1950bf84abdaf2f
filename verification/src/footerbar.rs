//! The bottom bar: what the pilot has selected, and what own-ship is doing.
//!
//! Mirrors [`crate::statusbar`] at the other end of the panel. Both run edge to edge, and the two
//! key strips sit between them.

use vstd::prelude::*;

use crate::ahrspage::{direction_text, push_direction, HeadingSource};
use crate::layout::{Layout, LONGEST_SIDE};
use crate::marks::{drawn, put_text, text_at, Align, Baseline, Painted, Mark, Style};
use crate::metar::DEGREE;
use crate::planview::{format_range, range_text};
use crate::statusbar::{bar_marks, bar_style, draw_bar};
use crate::text::{push_hundredths, push_rounded, rounded, to_hundredths};
use crate::theme::{Color, Theme};
use crate::view::{FrameStats, MapLayers, Page, ViewState};
use crate::weatherpage::{rows_of, rows_per_page};

verus! {

/// The banner that goes up with the airspace.
pub const NAVIGATION_BANNER: &'static str = "AIRSPACE \u{2014} NOT FOR NAVIGATION";

/// Whether the `NOT FOR NAVIGATION` banner belongs on screen.
///
/// Only the plan view, only with airspace drawn, and only when there is a chart to draw it from.
///
/// An airspace boundary is something a pilot may fly *relative to*. The banner marks the moment the
/// display starts making a claim of that kind, so it follows the airspace layer and nothing else.
/// Not "only when a boundary is actually visible": it would blink on and off as the aircraft
/// crossed in and out of coverage, and a caveat that comes and goes teaches the eye to stop reading
/// it. The selection is what raises it.
pub fn show_navigation_banner(view: &ViewState, has_chart: bool) -> (r: bool)
    ensures
        r == (view.page == Page::PlanView && view.map_layers == MapLayers::Full && has_chart),
{
    view.page == Page::PlanView && view.map_layers.shows_airspace() && has_chart
}

/// Baseline for text in the bar, matching the status bar's vertical centring.
pub fn baseline(layout: &Layout) -> (r: i64)
    requires
        layout.wf(),
    ensures
        r == layout.height - layout.footer_height + layout.footer_height / 2,
{
    layout.footer_y0() + layout.footer_height / 2
}

/// Own-ship's track and speed: dashes for what is not known.
pub open spec fn motion_of(track_mdeg: Option<i32>, speed_mkt: Option<i64>) -> Seq<char> {
    "TRK "@ + match track_mdeg {
        Some(track) => direction_text(track as int),
        None => "---"@ + seq![DEGREE],
    } + "   GS "@ + match speed_mkt {
        Some(speed) => rounded(speed as int, 1000),
        None => "--"@,
    } + " kt"@
}

/// Own-ship's track and speed, in thousandths of a degree and of a knot.
pub fn motion_text(track_mdeg: Option<i32>, speed_mkt: Option<i64>) -> (r: String)
    ensures
        r@ == motion_of(track_mdeg, speed_mkt),
{
    let mut out: String = String::new();
    out.append("TRK ");
    match track_mdeg {
        Some(track) => push_direction(&mut out, track),
        None => {
            out.append("---");
            out.push(DEGREE);
        },
    }
    out.append("   GS ");
    match speed_mkt {
        Some(speed) => push_rounded(&mut out, speed, 1000),
        None => out.append("--"),
    }
    out.append(" kt");
    assert(out@ =~= motion_of(track_mdeg, speed_mkt));
    out
}

/// The selected range and orientation.
pub open spec fn selection_of(view: ViewState) -> Seq<char> {
    range_text(view.range_mnm as nat) + " nm   "@ + view.orientation.name() + "   "@
}

/// The selected range and orientation. The altitude band follows, always named, in a colour of its
/// own.
pub fn selection_text(view: &ViewState) -> (r: String)
    ensures
        r@ == selection_of(*view),
{
    let mut out: String = format_range(view.range_mnm);
    out.append(" nm   ");
    out.append(view.orientation.label());
    out.append("   ");
    assert(out@ =~= selection_of(*view));
    out
}

/// The colour of the altitude band.
pub open spec fn band_colour_of(stats: FrameStats, theme: Theme) -> Color {
    if stats.targets_outside_altitude > 0 {
        theme.caution
    } else {
        theme.text_secondary
    }
}

/// The colour of the altitude band: amber while it is actually withholding traffic, ordinary
/// otherwise. The default band is a narrowing one, so a colour keyed on "a filter is selected"
/// would be amber from power-on.
pub fn band_colour(stats: &FrameStats, theme: &Theme) -> (r: Color)
    ensures
        r == band_colour_of(*stats, *theme),
{
    if stats.targets_outside_altitude > 0 {
        theme.caution
    } else {
        theme.text_secondary
    }
}

/// How to move through the weather list.
pub open spec fn weather_hint_of(view: ViewState, rows: int, total: int) -> Seq<char> {
    if view.weather_decode {
        "UP / DOWN for the next report"@
    } else if total <= rows {
        ""@
    } else if view.weather_scroll + rows >= total {
        "DOWN wraps to the top"@
    } else {
        "UP / DOWN to scroll"@
    }
}

/// How to move through the weather list. It names the soft keys, not the touch zones; with nothing
/// to scroll it says nothing.
pub fn weather_hint(view: &ViewState, rows: usize, total: usize) -> (r: &'static str)
    ensures
        r@ == weather_hint_of(*view, rows as int, total as int),
{
    if view.weather_decode {
        "UP / DOWN for the next report"
    } else if total > rows {
        if view.weather_scroll >= total - rows {
            "DOWN wraps to the top"
        } else {
            "UP / DOWN to scroll"
        }
    } else {
        ""
    }
}

/// The heading with its source. The caption is what stops GPS track being read as a magnetic
/// heading, so it stays attached to the number.
pub fn heading_text(source: HeadingSource) -> (r: String)
    ensures
        r@ == source.name() + "  "@ + source.written(),
{
    let mut out: String = String::new();
    out.append(source.caption());
    out.append("  ");
    out.append(source.text().as_str());
    assert(out@ =~= source.name() + "  "@ + source.written());
    out
}

/// The G-load: dashes when it is not known.
pub open spec fn g_of(g_load_mg: Option<i32>) -> Seq<char> {
    "G "@ + match g_load_mg {
        Some(g) => if g < 0 {
            "-"@ + to_hundredths((-g) as nat, 1000)
        } else {
            to_hundredths(g as nat, 1000)
        },
        None => "---"@,
    }
}

/// The G-load, in thousandths.
pub fn g_text(g_load_mg: Option<i32>) -> (r: String)
    ensures
        r@ == g_of(g_load_mg),
{
    let mut out: String = String::new();
    out.append("G ");
    match g_load_mg {
        Some(g) => {
            if g < 0 {
                out.append("-");
                push_hundredths(&mut out, (-(g as i64)) as u64, 1000);
            } else {
                push_hundredths(&mut out, g as u64, 1000);
            }
        },
        None => out.append("---"),
    }
    assert(out@ =~= g_of(g_load_mg));
    out
}

// --- the picture ---------------------------------------------------------------------------

/// What the bar says of own-ship and of what is held.
#[derive(Debug, Clone, Copy, PartialEq, Eq, Structural)]
pub struct Readings {
    pub track_mdeg: Option<i32>,
    pub ground_speed_mkt: Option<i64>,
    pub heading: HeadingSource,
    pub g_load_mg: Option<i32>,
    /// How many weather products are held.
    pub products: usize,
}

/// What the bar says on a page. `selection_width` is how wide the selected range and orientation
/// are.
pub open spec fn reading_marks(
    view: ViewState,
    readings: Readings,
    selection_width: int,
    stats: FrameStats,
    layout: Layout,
    theme: Theme,
) -> Seq<Painted> {
    let y = layout.height - layout.footer_height + layout.footer_height as int / 2;
    let small = theme.font_size_small as int;
    let (left, right) = (layout.margin as int, layout.width - layout.margin);
    match view.page {
        Page::PlanView => seq![
            text_at(
                right,
                y,
                motion_of(readings.track_mdeg, readings.ground_speed_mkt),
                bar_style(theme.text_primary, theme.font_size_normal as int, Align::Right),
            ),
            text_at(
                left,
                y,
                selection_of(view),
                bar_style(theme.text_secondary, small, Align::Left),
            ),
            text_at(
                left + selection_width,
                y,
                view.altitude_filter.name(),
                bar_style(band_colour_of(stats, theme), small, Align::Left),
            ),
        ],
        Page::Weather => seq![
            text_at(
                left,
                y,
                weather_hint_of(view, rows_of(theme, layout), readings.products as int),
                bar_style(theme.text_dim, small, Align::Left),
            ),
        ],
        Page::Ahrs => seq![
            text_at(
                left,
                y,
                readings.heading.name() + "  "@ + readings.heading.written(),
                bar_style(theme.text_secondary, small, Align::Left),
            ),
            text_at(
                right,
                y,
                g_of(readings.g_load_mg),
                bar_style(theme.text_secondary, small, Align::Right),
            ),
        ],
    }
}

/// The banner that goes up with the airspace, centred in the bar.
pub open spec fn banner_marks(
    view: ViewState,
    has_chart: bool,
    layout: Layout,
    theme: Theme,
) -> Seq<Painted> {
    if view.page == Page::PlanView && view.map_layers == MapLayers::Full && has_chart {
        seq![
            text_at(
                layout.width as int / 2,
                layout.height - layout.footer_height + layout.footer_height as int / 2,
                NAVIGATION_BANNER@,
                bar_style(theme.caution, theme.font_size_tag as int, Align::Center),
            ),
        ]
    } else {
        seq![]
    }
}

fn bar_text(colour: Color, size: i64, align: Align) -> (r: Style)
    ensures
        r == bar_style(colour, size as int, align),
{
    Style::new(colour, size, align, Baseline::Middle)
}

/// The bar: what is selected and what own-ship is doing, as the page calls for.
///
/// Painted after the page, never before: the weather underlay reaches the bottom edge of the panel, so
/// a bar drawn first would be painted over.
pub fn draw(
    view: &ViewState,
    readings: &Readings,
    selection_width: i64,
    has_chart: bool,
    stats: &FrameStats,
    layout: &Layout,
    theme: &Theme,
) -> (r: Vec<Mark>)
    requires
        layout.wf(),
        theme.sizes_ok(),
        0 <= selection_width <= LONGEST_SIDE,
    ensures
        drawn(r@) == bar_marks(
            *layout,
            *theme,
            layout.height - layout.footer_height,
            layout.footer_height as int,
            layout.height - layout.footer_height,
        ) + reading_marks(
            *view,
            *readings,
            selection_width as int,
            *stats,
            *layout,
            *theme,
        ) + banner_marks(*view, has_chart, *layout, *theme),
{
    let y: i64 = baseline(layout);
    let small: i64 = theme.font_size_small;
    let left: i64 = layout.margin;
    let right: i64 = layout.width - layout.margin;
    let mut out: Vec<Mark> = draw_bar(
        layout,
        theme,
        layout.footer_y0(),
        layout.footer_height,
        layout.footer_y0(),
    );
    let ghost bar = drawn(out@);
    match view.page {
        Page::PlanView => {
            let text: String = motion_text(readings.track_mdeg, readings.ground_speed_mkt);
            let style: Style = bar_text(theme.text_primary, theme.font_size_normal, Align::Right);
            put_text(&mut out, right, y, text.as_str(), style);
            let text: String = selection_text(view);
            put_text(
                &mut out,
                left,
                y,
                text.as_str(),
                bar_text(theme.text_secondary, small, Align::Left),
            );
            put_text(
                &mut out,
                left + selection_width,
                y,
                view.altitude_filter.label(),
                bar_text(band_colour(stats, theme), small, Align::Left),
            );
        },
        Page::Weather => {
            let hint: &str = weather_hint(view, rows_per_page(theme, layout), readings.products);
            put_text(&mut out, left, y, hint, bar_text(theme.text_dim, small, Align::Left));
        },
        Page::Ahrs => {
            let text: String = heading_text(readings.heading);
            let style: Style = bar_text(theme.text_secondary, small, Align::Left);
            put_text(&mut out, left, y, text.as_str(), style);
            let text: String = g_text(readings.g_load_mg);
            let style: Style = bar_text(theme.text_secondary, small, Align::Right);
            put_text(&mut out, right, y, text.as_str(), style);
        },
    }
    assert(drawn(out@) =~= bar + reading_marks(
        *view,
        *readings,
        selection_width as int,
        *stats,
        *layout,
        *theme,
    ));
    if show_navigation_banner(view, has_chart) {
        put_text(
            &mut out,
            layout.width / 2,
            y,
            NAVIGATION_BANNER,
            bar_text(theme.caution, theme.font_size_tag, Align::Center),
        );
    }
    assert(drawn(out@) =~= bar + reading_marks(
        *view,
        *readings,
        selection_width as int,
        *stats,
        *layout,
        *theme,
    ) + banner_marks(*view, has_chart, *layout, *theme));
    out
}

// --- laws ----------------------------------------------------------------------------------

/// The bar and the strips meet: the strips stop where the bar starts, and the text sits inside it.
pub proof fn the_bar_clears_the_strips(layout: Layout)
    requires
        layout.wf(),
        layout.height - layout.footer_height >= layout.status_bar_height + 1_000,
    ensures
        layout.strip_bottom() == layout.height - layout.footer_height,
        layout.height - layout.footer_height <= layout.height - layout.footer_height
            + layout.footer_height / 2 < layout.height,
{
}

/// Airports alone raise no banner, no page but the plan view does, and nothing does without a
/// chart; where it is up the bar says it once.
pub proof fn only_airspace_raises_the_banner(
    view: ViewState,
    has_chart: bool,
    layout: Layout,
    theme: Theme,
)
    ensures
        view.map_layers != MapLayers::Full ==> banner_marks(view, has_chart, layout, theme).len() == 0,
        view.page != Page::PlanView ==> banner_marks(view, has_chart, layout, theme).len() == 0,
        !has_chart ==> banner_marks(view, has_chart, layout, theme).len() == 0,
        view.map_layers == MapLayers::Full && view.page == Page::PlanView && has_chart ==> {
            &&& banner_marks(view, has_chart, layout, theme).len() == 1
            &&& banner_marks(view, has_chart, layout, theme)[0] matches Painted::Text { text, .. }
                && text == NAVIGATION_BANNER@
        },
{
}

/// The motion of own-ship reads as its track and then its ground speed, to the nearest degree and knot,
/// and dashes stand for what is not known.
pub proof fn motion_reads_as_it_is(track: i32, speed: i64)
    ensures
        motion_of(Some(track), Some(speed)) == "TRK "@ + direction_text(track as int) + "   GS "@
            + rounded(speed as int, 1000) + " kt"@,
        motion_of(None, Some(speed)) == "TRK "@ + ("---"@ + seq!['\u{00B0}']) + "   GS "@ + rounded(
            speed as int,
            1000,
        ) + " kt"@,
        motion_of(Some(track), None) == "TRK "@ + direction_text(track as int) + "   GS "@ + "--"@
            + " kt"@,
{
}

/// The altitude band is amber while it hides anything and plain while it does not.
pub proof fn the_band_is_amber_while_it_hides(stats: FrameStats, theme: Theme)
    ensures
        stats.targets_outside_altitude > 0 ==> band_colour_of(stats, theme) == theme.caution,
        stats.targets_outside_altitude == 0 ==> band_colour_of(stats, theme)
            == theme.text_secondary,
{
}

/// The hint on the weather page says what the keys will do next: go on, go back to the top from the last
/// page, step through open reports, and nothing where everything is on one page.
pub proof fn the_hint_says_what_comes_next(view: ViewState, rows: int, total: int)
    ensures
        view.weather_decode ==> weather_hint_of(view, rows, total)
            == "UP / DOWN for the next report"@,
        !view.weather_decode && total <= rows ==> weather_hint_of(view, rows, total) == ""@,
        !view.weather_decode && total > rows && view.weather_scroll + rows < total
            ==> weather_hint_of(view, rows, total) == "UP / DOWN to scroll"@,
        !view.weather_decode && total > rows && view.weather_scroll + rows >= total
            ==> weather_hint_of(view, rows, total) == "DOWN wraps to the top"@,
{
}

/// The load reads in hundredths of a g, with its sign where it is negative, and as dashes where there is
/// none.
pub proof fn the_load_reads_as_it_is(g: i32)
    ensures
        g >= 0 ==> g_of(Some(g)) == "G "@ + to_hundredths(g as nat, 1000),
        g < 0 ==> g_of(Some(g)) == "G "@ + ("-"@ + to_hundredths((-g) as nat, 1000)),
        g_of(None) == "G "@ + "---"@,
{
}

/// Each page has its own readings in the bar: the traffic page what is selected on the left and where
/// own-ship goes on the right, the attitude page the heading and the load, the weather page its hint. All
/// stand half way down the bar.
pub proof fn each_page_has_its_own_readings(
    view: ViewState,
    readings: Readings,
    selection_width: int,
    stats: FrameStats,
    layout: Layout,
    theme: Theme,
)
    ensures
        ({
            let marks = reading_marks(view, readings, selection_width, stats, layout, theme);
            let y = layout.height - layout.footer_height + layout.footer_height as int / 2;
            let (left, right) = (layout.margin as int, layout.width - layout.margin);
            &&& view.page == Page::PlanView ==> {
                &&& marks.len() == 3
                &&& marks[0]->text == motion_of(readings.track_mdeg, readings.ground_speed_mkt)
                &&& marks[0]->Text_x == right && marks[0]->style.align == Align::Right
                &&& marks[1]->text == range_text(view.range_mnm as nat) + " nm   "@
                    + view.orientation.name() + "   "@
                &&& marks[1]->Text_x == left && marks[1]->style.align == Align::Left
                &&& marks[2]->text == view.altitude_filter.name()
                &&& marks[2]->Text_x == left + selection_width
                &&& stats.targets_outside_altitude > 0 ==> marks[2]->style.colour == theme.caution
            }
            &&& view.page == Page::Weather ==> marks.len() == 1 && marks[0]->Text_x == left
            &&& view.page == Page::Ahrs ==> {
                &&& marks.len() == 2
                &&& marks[0]->text == readings.heading.name() + "  "@ + readings.heading.written()
                &&& marks[0]->Text_x == left
                &&& marks[1]->text == g_of(readings.g_load_mg)
                &&& marks[1]->Text_x == right && marks[1]->style.align == Align::Right
            }
            &&& forall|k: int| 0 <= k < marks.len() ==> (#[trigger] marks[k])->Text_y == y
        }),
{
}

/// The banner says that airspace is not to be navigated by, in amber.
pub proof fn the_banner_says_not_for_navigation(view: ViewState, layout: Layout, theme: Theme)
    requires
        view.page == Page::PlanView,
        view.map_layers == MapLayers::Full,
    ensures
        banner_marks(view, true, layout, theme)[0]->text
            == "AIRSPACE \u{2014} NOT FOR NAVIGATION"@,
        banner_marks(view, true, layout, theme)[0]->style.colour == theme.caution,
{
}

} // verus!
