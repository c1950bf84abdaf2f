use avionics::ahrspage::{self, AhrsFailure, AhrsRender, FlightData, HeadingSource, BANNER};
use avionics::chart::{Airspace, Bounds, Class, FLAG_LOWER_SURFACE};
use avionics::domain::{Ahrs, LatLon, Target, WeatherProduct, WeatherText};
use avionics::footerbar::{self, Readings};
use avionics::layout::Layout;
use avionics::maplayer::draw_airspace_card;
use avionics::marks::{Align, Baseline, Mark};
use avionics::planview::{
    self, draw_no_position_notice, draw_rings, Contact, Label, Plotted, Rect,
};
use avionics::projection::{Projection, Turn, UNIT};
use avionics::reckon::Reckoned;
use avionics::statusbar::{self, alarms, fields, Faults, Health};
use avionics::symbols;
use avionics::tapes::{self, Side, Tape, Vsi};
use avionics::theme::{faded, Color, Theme};
use avionics::threat::{Assessment, ThreatLevel};
use avionics::view::{FrameStats, Page, ViewState};
use avionics::weatherpage::{self, Cuts, EntryWidths, PageWidths, Products, ReportWidths};
use avionics::{pagestrip, softkeys};

const SECOND: u64 = 1_000_000_000;
const NOW: u64 = 1_000_000 * SECOND;

const ORIGIN: LatLon = LatLon { lat_e9: 39_908_800_000, lon_e9: -105_117_200_000 };
const COS: i64 = 767_053_000;

/// 800 by 480 pixels: the centre is at (400, 241.7) and the outer ring reaches 187.5 out.
fn layout() -> Layout {
    Layout::for_size(800_000, 480_000, &Theme::dark())
}

/// Every text of a picture, in order.
fn texts(list: &[Mark]) -> Vec<String> {
    list.iter()
        .filter_map(|mark| match mark {
            Mark::Text { text, .. } => Some(text.clone()),
            _ => None,
        })
        .collect()
}

/// Where a text stands, and in what colour.
fn find_text(list: &[Mark], wanted: &str) -> (i64, i64, Color) {
    list.iter()
        .find_map(|mark| match mark {
            Mark::Text { x, y, text, style } if text == wanted => Some((*x, *y, style.colour)),
            _ => None,
        })
        .unwrap_or_else(|| panic!("{wanted:?} is not in {list:?}"))
}

fn turns(list: &[Mark]) -> usize {
    list.iter().filter(|m| matches!(m, Mark::Turn { .. })).count()
}

fn unturns(list: &[Mark]) -> usize {
    list.iter().filter(|m| matches!(m, Mark::Unturn)).count()
}

// --- the plan view ------------------------------------------------------------------------

/// The twelve directions of the rose with north straight up.
fn rose() -> Vec<Turn> {
    (0..12)
        .map(|k| {
            let (sin, cos) = (30.0 * k as f64).to_radians().sin_cos();
            Turn { sin: (sin * 1e9).round() as i64, cos: (cos * 1e9).round() as i64 }
        })
        .collect()
}

#[test]
fn the_rings_are_labelled_away_from_north_and_hold_their_room() {
    let theme = Theme::dark();
    let (marks, reserved) =
        draw_rings(&ViewState::default(), Some(0), &rose(), (20_000, 10_000), &layout(), &theme);

    assert!(matches!(
        marks[0],
        Mark::Disc { at: (400_000, 241_700), radius: 187_500, colour } if colour == theme.ring_fill
    ));
    assert!(matches!(
        marks[1],
        Mark::Ring { at: (400_000, 241_700), radius: 187_500, colour, width: 1_440 }
            if colour == theme.ring
    ));
    assert!(matches!(marks[3], Mark::Ring { radius: 93_750, .. }));

    // North is up, so the labels stand on the lower left diagonal: 177.6 out at 45 degrees.
    let (x, y, shade) = find_text(&marks, "10");
    assert!((x - 274_418).abs() <= 1, "{x}");
    assert!((y - 367_282).abs() <= 1, "{y}");
    assert_eq!(shade, theme.ring_label);
    assert!(texts(&marks).contains(&"5".to_string()), "half the range");

    // The rose: a tick into the ring and a letter outside it.
    assert_eq!(find_text(&marks, "N"), (400_000, 44_850, theme.ring_label));
    assert!(matches!(
        marks[5],
        Mark::Line { from: (400_000, 72_950), to: (400_000, 54_200), width: 1_600, .. }
    ));
    assert_eq!(
        texts(&marks)[2..],
        ["N", "3", "6", "E", "12", "15", "S", "21", "24", "W", "30", "33"]
    );

    assert_eq!(reserved.len(), 14);
    assert_eq!(reserved[0].x1 - reserved[0].x0, 26_000, "the measured width and its padding");
    assert_eq!(reserved[0].y1 - reserved[0].y0, 17_000);
    // A letter is 62% of its size wide.
    assert_eq!(reserved[2].x1 - reserved[2].x0, 6_820 + 6_000);
}

fn projection() -> Projection {
    planview::make_projection(ORIGIN, COS, None, &ViewState::default(), &layout())
}

fn contact(screen: (i64, i64), track_mdeg: Option<i32>, category: u8) -> Contact {
    let target = Target {
        icao: 0xABCDEF,
        position: Some(ORIGIN),
        altitude_ft: Some(8000),
        on_ground: false,
        track_mdeg,
        ground_speed_kt: Some(120),
        vertical_speed_fpm: Some(500),
        emitter_category: category,
        extrapolated: false,
        age: 0,
        received: NOW,
    };
    Contact {
        target,
        reckoned: Reckoned { position: ORIGIN, extrapolated: 0, coasting: false },
        range_mnm: 1_000,
        screen,
    }
}

fn plotted(contact: usize, level: ThreatLevel) -> Plotted {
    Plotted {
        contact,
        assessment: Assessment {
            level,
            relative_altitude_mft: Some(500_000),
            range_mnm: 1_000,
        },
    }
}

fn label(identity: &str, width: i64) -> Label {
    Label { identity: identity.to_string(), width }
}

#[test]
fn a_target_is_a_symbol_with_a_barb_and_two_lines_of_label() {
    let theme = Theme::dark();
    let contacts = vec![contact((420_000, 200_000), Some(90_000), 1)];
    let (marks, suppressed) = planview::draw(
        &contacts,
        &[plotted(0, ThreatLevel::Alert)],
        &[label("N123AB", 40_000)],
        &[],
        &ViewState::default(),
        None,
        &projection(),
        &layout(),
        &theme,
    );
    assert_eq!(suppressed, 0);
    assert!(matches!(marks[0], Mark::Turn { at: (420_000, 200_000), mdeg: 90_000, down: 0 }));
    assert!(matches!(
        &marks[1],
        Mark::Symbol { colour, width: Some(3_520), size: 9_000, .. } if *colour == theme.target_outline
    ));
    assert!(matches!(
        &marks[2],
        Mark::Symbol { colour, width: None, .. } if *colour == theme.target_alert
    ));
    assert!(matches!(
        marks[3],
        Mark::Line { from: (0, -9_000), to: (0, -17_100), width: 1_600, .. }
    ));
    assert!(matches!(marks[4], Mark::Unturn));

    // Own-ship over it, and the label over everything.
    assert!(matches!(marks[5], Mark::Turn { at: (400_000, 241_700), mdeg: 0, down: 0 }));
    assert!(matches!(&marks[6], Mark::Symbol { width: Some(3_200), .. }));
    assert!(matches!(
        &marks[7],
        Mark::Symbol { outline, colour, width: None, .. }
            if *outline == symbols::ownship() && *colour == theme.ownship
    ));
    assert_eq!(texts(&marks), ["N123AB", "+05 \u{2191}"]);
    assert_eq!(turns(&marks), unturns(&marks));
}

#[test]
fn a_target_without_a_track_has_no_barb_and_is_not_turned() {
    let contacts = vec![contact((420_000, 200_000), None, 1)];
    let (marks, _) = planview::draw(
        &contacts,
        &[plotted(0, ThreatLevel::Normal)],
        &[label("N1", 10_000)],
        &[],
        &ViewState::default(),
        None,
        &projection(),
        &layout(),
        &Theme::dark(),
    );
    assert!(matches!(marks[0], Mark::Turn { mdeg: 0, .. }));
    assert!(matches!(marks[3], Mark::Unturn));
}

#[test]
fn the_most_urgent_label_keeps_its_place_and_the_other_moves_with_a_leader() {
    // Two targets on top of each other: the last one plotted is the more urgent, and is first in
    // the labels.
    let theme = Theme::dark();
    let contacts = vec![
        contact((420_000, 200_000), Some(0), 1),
        contact((420_000, 200_000), Some(0), 1),
    ];
    let (marks, suppressed) = planview::draw(
        &contacts,
        &[plotted(0, ThreatLevel::Normal), plotted(1, ThreatLevel::Alert)],
        &[label("URGENT", 40_000), label("OTHER", 40_000)],
        &[],
        &ViewState::default(),
        None,
        &projection(),
        &layout(),
        &theme,
    );
    assert_eq!(suppressed, 0);
    let (_, first, _) = find_text(&marks, "URGENT");
    assert_eq!(first, 200_000 - 11_550 / 2, "beside its symbol");
    let leader = faded(theme.tag_text, 45);
    let leaders = marks
        .iter()
        .filter(|m| matches!(m, Mark::Line { colour, width: 1_000, .. } if *colour == leader))
        .count();
    let (_, second, _) = find_text(&marks, "OTHER");
    assert_eq!(leaders == 1, second != first, "a label that moved has a leader");
}

#[test]
fn a_label_with_no_room_is_dropped_and_counted() {
    let everywhere = Rect { x0: -9_000_000, y0: -9_000_000, x1: 9_000_000, y1: 9_000_000 };
    let (marks, suppressed) = planview::draw(
        &[contact((420_000, 200_000), Some(0), 1)],
        &[plotted(0, ThreatLevel::Normal)],
        &[label("N1", 10_000)],
        &[everywhere],
        &ViewState::default(),
        None,
        &projection(),
        &layout(),
        &Theme::dark(),
    );
    assert_eq!(suppressed, 1);
    assert!(texts(&marks).is_empty());
}

#[test]
fn without_a_position_the_notice_stands_at_the_centre() {
    let theme = Theme::dark();
    let marks = draw_no_position_notice(true, true, &layout(), &theme);
    assert_eq!(find_text(&marks, "GPS FIX LOST"), (400_000, 241_700, theme.warning));
    assert_eq!(
        find_text(&marks, "traffic hidden until position returns"),
        (400_000, 245_700, theme.text_secondary)
    );
}

// --- the attitude page --------------------------------------------------------------------

fn level() -> Ahrs {
    Ahrs {
        pitch_mdeg: Some(0),
        roll_mdeg: Some(30_000),
        slip_skid_mdeg: Some(0),
        status: 6,
        received: Some(NOW),
        ..Default::default()
    }
}

fn nothing_known() -> FlightData {
    FlightData {
        ground_speed_mkt: None,
        pressure_altitude_mft: None,
        altitude_msl_mft: None,
        vertical_speed_mfpm: None,
        track_mdeg: None,
    }
}

#[test]
fn a_live_attitude_turns_the_horizon_against_the_bank() {
    let (marks, decision) =
        ahrspage::draw(&level(), &nothing_known(), 100_000, NOW, &layout(), &Theme::dark());
    assert_eq!(decision, AhrsRender::Attitude);
    assert!(matches!(marks[0], Mark::Clip { .. }));
    assert!(matches!(marks[1], Mark::Turn { mdeg: -30_000, down: 0, .. }));
    assert!(matches!(
        (&marks[2], &marks[3]),
        (Mark::Fill { .. }, Mark::Fill { area, .. }) if area.y == 0
    ));
    assert_eq!(turns(&marks), unturns(&marks));
}

#[test]
fn a_stale_attitude_is_flagged_and_nothing_looks_like_a_horizon() {
    let theme = Theme::dark();
    let (marks, decision) = ahrspage::draw(
        &level(),
        &nothing_known(),
        100_000,
        NOW + 5 * SECOND,
        &layout(),
        &theme,
    );
    assert_eq!(decision, AhrsRender::Failed(AhrsFailure::Stale));
    assert_eq!(turns(&marks), 0);
    let said = texts(&marks);
    assert_eq!(said[0], AhrsFailure::Stale.label());
    assert_eq!(said[1], AhrsFailure::Stale.detail());
    // The rest of the page goes on: both tapes, the heading and the reminder.
    assert!(said.contains(&"GS KT".to_string()));
    assert!(said.contains(&"NO DATA".to_string()));
    assert!(said.contains(&HeadingSource::Unknown.text()));
    assert!(said.contains(&BANNER.to_string()));
}

#[test]
fn a_panel_too_low_for_the_instruments_still_has_them() {
    let theme = Theme::dark();
    // Ninety pixels leave a strip lower than the scale of the vertical speed needs.
    let low = Layout::for_size(800_000, 90_000, &theme);
    let strip = ahrspage::vertical_strip(&low);
    assert!(strip.top < strip.bottom && strip.bottom - strip.top < 2 * tapes::VSI_INSET);
    let (usual, _) = ahrspage::draw(&level(), &nothing_known(), 100_000, NOW, &layout(), &theme);
    let (marks, _) = ahrspage::draw(&level(), &nothing_known(), 100_000, NOW, &low, &theme);
    assert_eq!(turns(&marks), turns(&usual));
    let said = texts(&marks);
    for text in texts(&tapes::draw_vsi(&strip, None, &theme)) {
        assert!(said.contains(&text), "{text} is missing from {said:?}");
    }

    // Forty leave none at all: no lines to spread, and a horizon all the same.
    let lower = Layout::for_size(800_000, 40_000, &theme);
    let speed = ahrspage::speed_tape(&lower);
    assert_eq!((speed.top, speed.bottom), (lower.status_bar_height, 40_000 - lower.footer_height));
    assert!(speed.bottom < speed.top);
    let area = ahrspage::instrument(&lower, &theme);
    assert!(area.half_height < 0);
    assert!(ahrspage::pitch_ladder(&area).is_empty());
    assert_eq!(ahrspage::horizon_offset(&area, 25_000), area.half_height);
    let (marks, _) = ahrspage::draw(&level(), &nothing_known(), 100_000, NOW, &lower, &theme);
    assert_eq!(turns(&marks), turns(&usual));

    let late = NOW + 5 * SECOND;
    let (marks, _) = ahrspage::draw(&level(), &nothing_known(), 100_000, late, &lower, &theme);
    assert!(marks.iter().any(|m| matches!(
        m,
        Mark::Ring { radius, .. } if *radius == area.half_height
    )));
}

#[test]
fn a_tape_without_a_value_has_a_caption_and_no_figures() {
    let theme = Theme::dark();
    let tape = Tape {
        x: 0,
        width: 64_000,
        top: 40_000,
        bottom: 440_000,
        units_per_px: 250,
        major: 10_000,
        minor: 5_000,
        side: Side::Left,
    };
    let blank = tapes::draw(&tape, "GS KT", None, &theme);
    assert_eq!(texts(&blank), ["GS KT", "NO DATA"]);
    assert_eq!(find_text(&blank, "NO DATA"), (32_000, 240_000, theme.warning));

    let live = tapes::draw(&tape, "GS KT", Some(104_000), &theme);
    let said = texts(&live);
    assert!(said.contains(&"100".to_string()) && said.contains(&"110".to_string()), "{said:?}");
    assert_eq!(said.last().map(String::as_str), Some("104"), "the box is over everything");
    assert!(!said.contains(&"NO DATA".to_string()));
    let clips = live.iter().filter(|m| matches!(m, Mark::Clip { .. })).count();
    let unclips = live.iter().filter(|m| matches!(m, Mark::Unclip)).count();
    assert_eq!((clips, unclips), (1, 1));
}

#[test]
fn the_rate_strip_points_at_the_rate() {
    let theme = Theme::dark();
    let vsi = Vsi { x: 600_000, width: 24_000, top: 40_000, bottom: 440_000, full_scale: 2_000 };
    let unknown = tapes::draw_vsi(&vsi, None, &theme);
    assert_eq!(texts(&unknown).last().map(String::as_str), Some("--"));

    let level = tapes::draw_vsi(&vsi, Some(0), &theme);
    assert!(level.iter().any(|m| matches!(
        m,
        Mark::Shape { points, .. }
            if *points == vec![(600_000, 240_000), (609_000, 235_000), (609_000, 245_000)]
    )));
}

// --- weather ------------------------------------------------------------------------------

fn metar() -> WeatherText {
    WeatherText {
        product: WeatherProduct::Metar,
        location: "KBJC".to_string(),
        body: "KBJC 121853Z 27010KT 10SM +TSRA".to_string(),
        received: NOW - 120 * SECOND,
    }
}

fn entry_widths() -> EntryWidths {
    EntryWidths { heading: 60_000, words: vec![30_000; 5] }
}

#[test]
fn an_empty_weather_page_says_why() {
    let theme = Theme::dark();
    let products = Products {
        items: &[],
        names: &[],
        order: &[],
        connected: true,
        nexrad: None,
    };
    let widths = PageWidths { space: 4_000, entries: vec![], report: None };
    let view = ViewState { page: Page::Weather, ..Default::default() };
    let marks = weatherpage::draw(&products, &view, &widths, NOW, &layout(), &theme);
    let (headline, detail) = weatherpage::empty_notice(true);
    assert_eq!(find_text(&marks, headline), (400_000, 240_000, theme.text_secondary));
    assert_eq!(find_text(&marks, detail), (400_000, 244_000, theme.text_dim));
}

#[test]
fn an_entry_is_a_heading_an_age_and_a_coloured_line() {
    let theme = Theme::dark();
    let items = [metar()];
    let names = ["METAR".to_string()];
    let products = Products {
        items: &items,
        names: &names,
        order: &[0],
        connected: true,
        nexrad: None,
    };
    let widths = PageWidths { space: 4_000, entries: vec![entry_widths()], report: None };
    let view = ViewState { page: Page::Weather, ..Default::default() };
    let marks = weatherpage::draw(&products, &view, &widths, NOW, &layout(), &theme);

    let (x, y, shade) = find_text(&marks, "METAR KBJC");
    assert_eq!((x, shade), (104_000, theme.text_primary));
    // The category stands ten pixels behind the heading.
    assert_eq!(find_text(&marks, "VFR").0, 104_000 + 60_000 + 10_000);
    // A word starts a space behind the one before it, under the heading.
    let left = 104_000 + 13_200;
    assert_eq!(find_text(&marks, "KBJC").0, left);
    assert_eq!(find_text(&marks, "121853Z").0, left + 34_000);
    let (_, below, hazard) = find_text(&marks, "+TSRA");
    // 11 pixel type has lines of 14.85.
    assert_eq!(below - y, 14_850 / 2 + 14_850 / 2);
    assert_ne!(hazard, theme.text_secondary, "a thunderstorm stands out");
}

#[test]
fn an_open_report_keeps_its_text_and_expands_its_codes() {
    let theme = Theme::dark();
    let items = [metar()];
    let names = ["METAR".to_string()];
    let products = Products {
        items: &items,
        names: &names,
        order: &[0],
        connected: true,
        nexrad: None,
    };
    let codes = avionics::glossary::explain(&items[0].body);
    assert!(!codes.is_empty());
    let report = ReportWidths {
        entry: entry_widths(),
        codes: vec![40_000; codes.len()],
        meanings: codes
            .iter()
            .map(|(_, meaning)| Cuts { whole: 90_000, cut: vec![0; meaning.chars().count()] })
            .collect(),
    };
    let widths = PageWidths { space: 4_000, entries: vec![], report: Some(report) };
    let view = ViewState {
        page: Page::Weather,
        weather_decode: true,
        ..Default::default()
    };
    let marks = weatherpage::draw(&products, &view, &widths, NOW, &layout(), &theme);
    let said = texts(&marks);
    for word in items[0].body.split_whitespace() {
        assert!(said.contains(&word.to_string()), "{word} is not shown");
    }
    for (code, meaning) in codes {
        // Beside the code, past the widest one.
        assert!(said.contains(&code.to_string()));
        assert_eq!(find_text(&marks, meaning).0, 104_000 + 40_000 + 8_800);
    }
    assert!(said.contains(&weatherpage::position_text(0, 1, 120 * SECOND)));
}

// --- the bars and the strips --------------------------------------------------------------

#[test]
fn the_status_bar_runs_fields_from_the_left_and_alarms_from_the_right() {
    let theme = Theme::dark();
    let health = Health {
        fix_usable: true,
        satellites: 9,
        es_rate: 412,
        uat_rate: 0,
        fresh: true,
        cpu_temp_mc: 71_400,
        nexrad_age: None,
    };
    let faults = Faults {
        position_stale: false,
        ever_had_position: true,
        has_altitude: false,
        decode_errors: 0,
    };
    let list = fields("3D", &health, &FrameStats::default(), &theme);
    let messages = alarms(&[], 4, &faults);
    assert_eq!(messages.len(), 1);
    let widths = vec![(20_000, 30_000); list.len()];
    let marks =
        statusbar::draw(&list, &widths, &messages, &[50_000], &layout(), &theme);
    assert!(matches!(
        &marks[0],
        Mark::Fill { area, .. } if (area.x, area.y, area.w, area.h) == (0, 0, 800_000, 28_600)
    ));
    assert!(matches!(
        marks[1],
        Mark::Line { from: (0, 28_600), to: (800_000, 28_600), width: 1_000, .. }
    ));
    assert_eq!(find_text(&marks, "GPS"), (8_000, 14_300, theme.text_dim));
    assert_eq!(find_text(&marks, &list[0].value), (32_000, 14_300, theme.good));
    assert_eq!(find_text(&marks, &messages[0].text).0, 792_000);

    // An alarm with no room is not written over the fields.
    let crowded = statusbar::draw(&list, &widths, &messages, &[700_000], &layout(), &theme);
    assert!(!texts(&crowded).contains(&messages[0].text));
}

#[test]
fn the_footer_follows_the_page() {
    let theme = Theme::dark();
    let readings = Readings {
        track_mdeg: Some(57_000),
        ground_speed_mkt: Some(120_000),
        heading: HeadingSource::Unknown,
        g_load_mg: Some(1_000),
        products: 3,
    };
    let stats = FrameStats { targets_outside_altitude: 1, ..Default::default() };
    let draw = |page: Page| {
        let view = ViewState { page, ..Default::default() };
        footerbar::draw(&view, &readings, 90_000, false, &stats, &layout(), &theme)
    };
    let plan = draw(Page::PlanView);
    assert_eq!(
        find_text(&plan, "TRK 057\u{00B0}   GS 120 kt"),
        (792_000, 467_400, theme.text_primary)
    );
    assert_eq!(find_text(&plan, "10 nm   N-UP   ").0, 8_000);
    // The band follows the selection, and is amber while it withholds traffic.
    let band = ViewState::default().altitude_filter.label();
    assert_eq!(find_text(&plan, band), (98_000, 467_400, theme.caution));

    let attitude = texts(&draw(Page::Ahrs));
    assert!(attitude.contains(&footerbar::g_text(Some(1_000))), "{attitude:?}");
}

#[test]
fn the_strips_label_every_key_and_fill_the_page_on_screen() {
    let theme = Theme::dark();
    let view = ViewState::default();
    let keys = softkeys::draw(&view, &FrameStats::default(), &layout(), &theme);
    assert!(matches!(
        &keys[0],
        Mark::Fill { area, .. } if (area.x, area.y, area.w) == (0, 28_600, 96_000)
    ));
    let lines = keys.iter().filter(|m| matches!(m, Mark::Line { .. })).count();
    assert_eq!(lines, 6, "an edge and a divider between every two keys");
    let wanted: Vec<String> = softkeys::keys_for(view.page)
        .into_iter()
        .flatten()
        .map(|key| softkeys::label(key, &view).to_string())
        .collect();
    assert_eq!(texts(&keys), wanted);

    let pages = pagestrip::draw(&view, &layout(), &theme);
    let fills = pages.iter().filter(|m| matches!(m, Mark::Fill { .. })).count();
    assert_eq!(fills, 2, "the strip, and the page that is on screen");
    assert_eq!(
        texts(&pages),
        Page::ALL.iter().map(|page| page.label().to_string()).collect::<Vec<_>>()
    );
    for mark in &pages {
        if let Mark::Text { style, .. } = mark {
            assert_eq!((style.align, style.baseline), (Align::Center, Baseline::Middle));
        }
    }
}

// --- cards --------------------------------------------------------------------------------

#[test]
fn the_airspace_card_stacks_its_layers() {
    let theme = Theme::dark();
    let volume = |class: Class, flags: u8, lower_ft: i32| Airspace {
        class,
        label: *b"TEB\0\0\0\0\0",
        lower_ft,
        upper_ft: 7000,
        flags,
        ring_first: 0,
        ring_count: 0,
        bounds: Bounds { lat_min: 0, lat_max: 0, lon_min: 0, lon_max: 0 },
    };
    let volumes = [volume(Class::D, FLAG_LOWER_SURFACE, 0), volume(Class::B, 0, 3000)];
    let marks = draw_airspace_card(&volumes, Some((89_600, 12_340)), &layout(), &theme);
    assert!(matches!(&marks[0], Mark::Fill { corner: 3_000, .. }));
    assert!(matches!(&marks[1], Mark::Frame { corner: 3_000, width: 1_000, .. }));
    let said = texts(&marks);
    assert_eq!(said[0], "AIRSPACE");
    assert!(said[1].starts_with("090\u{00B0}"), "{said:?}");
    assert_eq!(find_text(&marks, Class::D.label()).2, Color::rgb(95, 150, 255));
    assert_eq!(said.len(), 6);

    assert!(draw_airspace_card(&[], None, &layout(), &theme).is_empty());
}

#[test]
fn a_direction_is_never_longer_than_its_length() {
    // Straight up and straight right.
    let up = Turn { sin: 0, cos: UNIT };
    let right = Turn { sin: UNIT, cos: 0 };
    assert_eq!(avionics::projection::along((400_000, 241_700), up, 1_500), (400_000, 240_200));
    assert_eq!(avionics::projection::along((400_000, 241_700), right, 1_500), (401_500, 241_700));
}
