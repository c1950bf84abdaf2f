use avionics::domain::{LatLon, Target};
use avionics::layout::Layout;
use avionics::planview::{
    angular_distance, compass_label, draw_rings, format_range, held_back, make_projection, no_position_notice, padded_rect,
    place_tags, plan, rose_mark, survey, symbol_colour, tag_colour, tag_line, unplotted_count,
    vertical_trend, Contact, Rect, Sighting, Tag,
};
use avionics::projection::{Orientation, Turn, UNIT};
use avionics::reckon::{reckon, reckon_ownship, ReckonConfig, Reckoned};
use avionics::theme::{faded, Theme};
use avionics::threat::{
    assess, format_relative_altitude, AltitudeFilter, Assessment, ThreatConfig, ThreatLevel,
};
use avionics::view::{FrameStats, ViewState};

const SECOND: u64 = 1_000_000_000;
const NOW: u64 = 1_000_000 * SECOND;

const ORIGIN: LatLon = LatLon {
    lat_e9: 39_908_800_000,
    lon_e9: -105_117_200_000,
};

/// Cosine of the origin's latitude.
const COS: i64 = 767_053_000;

const EAST: Turn = Turn { sin: UNIT, cos: 0 };
const NORTH: Turn = Turn { sin: 0, cos: UNIT };

fn target(position: Option<LatLon>) -> Target {
    Target {
        icao: 0xABCDEF,
        position,
        altitude_ft: Some(8000),
        on_ground: false,
        track_mdeg: Some(90_000),
        ground_speed_kt: Some(120),
        vertical_speed_fpm: Some(0),
        emitter_category: 1,
        extrapolated: false,
        age: SECOND / 2,
        received: NOW,
    }
}

fn at(t: &Target, now: u64, config: &ReckonConfig) -> Option<Reckoned> {
    reckon(t, EAST, COS, now, config)
}

// --- dead reckoning -----------------------------------------------------------------------

#[test]
fn targets_are_extrapolated_along_their_track() {
    let config = ReckonConfig::default();
    let mut t = target(Some(ORIGIN));
    t.ground_speed_kt = Some(360);

    let result = at(&t, t.received + SECOND, &config).expect("positional target");

    // 360 kt for 1 s is 0.1 nm east.
    assert!(result.position.lon_e9 > ORIGIN.lon_e9);
    let moved = (result.position.lon_e9 - ORIGIN.lon_e9) as f64 / 1e9 * 60.0 * 0.767053;
    assert!((moved - 0.1).abs() < 1e-3, "moved {moved} nm");
    assert_eq!(result.position.lat_e9, ORIGIN.lat_e9);
    assert_eq!(result.extrapolated, SECOND);
    assert!(!result.coasting);
}

#[test]
fn extrapolation_is_capped_and_the_target_marked_coasting() {
    // Past the cap the last real position is drawn. A confident symbol miles from the aircraft is
    // worse than an obviously stale one.
    let config = ReckonConfig::default();
    let mut t = target(Some(ORIGIN));
    t.ground_speed_kt = Some(300);

    let now = t.received + config.max_extrapolation + 5 * SECOND;
    let result = at(&t, now, &config).expect("positional target");

    assert_eq!(
        result.extrapolated, config.max_extrapolation,
        "extrapolation should stop at the cap, got {}",
        result.extrapolated
    );
    assert!(result.coasting, "hitting the cap must mark the target coasting");
}

#[test]
fn targets_without_a_velocity_solution_are_not_extrapolated() {
    let config = ReckonConfig::default();
    let mut t = target(Some(ORIGIN));
    t.track_mdeg = None;
    t.ground_speed_kt = None;

    let result = at(&t, t.received + 2 * SECOND, &config).unwrap();
    assert_eq!(result.position, ORIGIN);
    assert_eq!(result.extrapolated, 0);
}

#[test]
fn a_stale_fix_freezes_rather_than_projecting_forward() {
    let config = ReckonConfig::default();
    let mut t = target(Some(ORIGIN));
    t.age = config.max_fix_age + SECOND;

    let result = at(&t, t.received + SECOND, &config).unwrap();
    assert_eq!(
        result.position, ORIGIN,
        "don't project forward from a position we already distrust"
    );
    assert!(result.coasting);
}

#[test]
fn stratux_side_extrapolation_is_surfaced_as_coasting() {
    let config = ReckonConfig::default();
    let mut t = target(Some(ORIGIN));
    t.extrapolated = true;

    let result = at(&t, t.received, &config).unwrap();
    assert!(result.coasting);
}

#[test]
fn targets_without_a_position_are_not_plotted() {
    let config = ReckonConfig::default();
    assert!(at(&target(None), NOW, &config).is_none());
}

#[test]
fn own_ship_is_extrapolated_the_same_way_as_traffic() {
    // If traffic is extrapolated and own-ship is not, every relative position is wrong by own-ship's
    // movement during the gap.
    let config = ReckonConfig::default();
    let moved = reckon_ownship(
        ORIGIN,
        Some(NORTH),
        Some(120_000),
        Some(NOW),
        COS,
        NOW + 30 * SECOND,
        &config,
    );
    // Capped at max_extrapolation, so 3 s at 120 kt = 0.1 nm, not 30 s worth.
    let travelled_nm = (moved.lat_e9 - ORIGIN.lat_e9) as f64 / 1e9 * 60.0;
    let expected = 120.0 * (config.max_extrapolation / SECOND) as f64 / 3600.0;
    assert!((travelled_nm - expected).abs() < 1e-6, "moved {travelled_nm} nm");

    // With no track or speed it must not move at all.
    let still = reckon_ownship(ORIGIN, None, None, Some(NOW), COS, NOW, &config);
    assert_eq!(still, ORIGIN);
}

// --- threat classification ----------------------------------------------------------------

#[test]
fn a_close_co_altitude_target_is_an_alert() {
    let config = ThreatConfig::default();
    let mut t = target(Some(ORIGIN));
    t.altitude_ft = Some(8200);

    let assessment = assess(&t, 2_000, Some(8_000_000), &config);
    assert_eq!(assessment.level, ThreatLevel::Alert);
    assert_eq!(assessment.relative_altitude_mft, Some(200_000));
}

#[test]
fn tiers_require_being_inside_both_range_and_altitude() {
    let config = ThreatConfig::default();
    let mut t = target(Some(ORIGIN));

    // Close but well above: not an alert.
    t.altitude_ft = Some(8000 + 5000);
    assert_eq!(
        assess(&t, 1_000, Some(8_000_000), &config).level,
        ThreatLevel::Normal
    );

    // Co-altitude but far away: not an alert.
    t.altitude_ft = Some(8000);
    assert_eq!(
        assess(&t, 30_000, Some(8_000_000), &config).level,
        ThreatLevel::Normal
    );

    // Inside the advisory box but outside the alert box.
    t.altitude_ft = Some(8000 + 1000);
    assert_eq!(
        assess(&t, 5_000, Some(8_000_000), &config).level,
        ThreatLevel::Advisory
    );
}

#[test]
fn without_own_altitude_classification_never_escalates_to_alert() {
    // Range-only alerts fire constantly in the circuit, and a display that cries wolf gets ignored
    // precisely when it matters.
    let config = ThreatConfig::default();
    let t = target(Some(ORIGIN));

    let assessment = assess(&t, 500, None, &config);
    assert_eq!(assessment.level, ThreatLevel::Advisory);
    assert!(assessment.relative_altitude_mft.is_none());

    // And a distant one with no altitude reference is still just normal traffic.
    assert_eq!(assess(&t, 20_000, None, &config).level, ThreatLevel::Normal);
}

#[test]
fn targets_on_the_ground_do_not_raise_alerts() {
    // Aircraft taxiing past the hold-short line are legitimately co-altitude and very close.
    let config = ThreatConfig::default();
    let mut t = target(Some(ORIGIN));
    t.on_ground = true;
    t.altitude_ft = Some(5400);

    assert_eq!(
        assess(&t, 200, Some(5_400_000), &config).level,
        ThreatLevel::Normal
    );
}

#[test]
fn relative_altitude_is_unknown_when_the_target_has_no_altitude() {
    let config = ThreatConfig::default();
    let mut t = target(Some(ORIGIN));
    t.altitude_ft = None;
    assert!(assess(&t, 1_000, Some(8_000_000), &config)
        .relative_altitude_mft
        .is_none());
}

#[test]
fn relative_altitude_is_formatted_in_signed_hundreds_of_feet() {
    assert_eq!(format_relative_altitude(Some(1_200_000)), "+12");
    assert_eq!(format_relative_altitude(Some(-2_500_000)), "-25");
    // Anything that rounds to zero is co-altitude and shown unsigned; the display cannot honestly
    // distinguish 40 ft above from 40 ft below, and "+00"/"-00" reads as a bug.
    assert_eq!(format_relative_altitude(Some(40_000)), "00");
    assert_eq!(format_relative_altitude(Some(-40_000)), "00");
    assert_eq!(format_relative_altitude(Some(0)), "00");
    assert_eq!(format_relative_altitude(None), "---");
    // Three digits when needed, rather than truncating.
    assert_eq!(format_relative_altitude(Some(15_000_000)), "+150");
}

#[test]
fn threat_levels_order_from_least_to_most_urgent() {
    // The plan view sorts by this to draw alerts on top and to give them first pick of tag space.
    assert!(ThreatLevel::Normal < ThreatLevel::Advisory);
    assert!(ThreatLevel::Advisory < ThreatLevel::Alert);
    assert!(ThreatLevel::Advisory.rank() < ThreatLevel::Alert.rank());
}

// --- view state ---------------------------------------------------------------------------

#[test]
fn range_cycles_forwards_and_wraps() {
    let mut view = ViewState {
        range_mnm: 2_000,
        orientation: Orientation::NorthUp,
        ..Default::default()
    };
    let mut seen = vec![view.range_mnm];
    for _ in 0..ViewState::RANGES.len() {
        view.cycle_range();
        seen.push(view.range_mnm);
    }
    assert_eq!(seen.first(), seen.last(), "cycling all the way should wrap");
    assert_eq!(&seen[..ViewState::RANGES.len()], &ViewState::RANGES[..]);
}

#[test]
fn range_cycles_backwards_and_wraps() {
    let mut view = ViewState {
        range_mnm: 2_000,
        orientation: Orientation::NorthUp,
        ..Default::default()
    };
    view.cycle_range_down();
    assert_eq!(view.range_mnm, *ViewState::RANGES.last().unwrap());
    view.cycle_range();
    assert_eq!(view.range_mnm, 2_000);
}

#[test]
fn an_unknown_range_recovers_to_a_valid_one() {
    // A config file or a future touch gesture could set something off-list; cycling must not get
    // stuck or panic.
    let mut view = ViewState {
        range_mnm: 7_300,
        orientation: Orientation::NorthUp,
        ..Default::default()
    };
    view.cycle_range();
    assert!(
        ViewState::RANGES.contains(&view.range_mnm),
        "got {}",
        view.range_mnm
    );
}

#[test]
fn orientation_toggles() {
    let mut view = ViewState::default();
    assert_eq!(view.orientation, Orientation::NorthUp);
    view.toggle_orientation();
    assert_eq!(view.orientation, Orientation::TrackUp);
    assert_eq!(view.orientation.label(), "TRK-UP");
    view.toggle_orientation();
    assert_eq!(view.orientation, Orientation::NorthUp);
}

// --- traffic held back for want of own-ship -------------------------------------------------

#[test]
fn traffic_received_without_own_ship_is_counted_not_forgotten() {
    // The plan view cannot place anything without an origin, and a dead receiver would look exactly
    // the same as a missing one.
    let east = LatLon {
        lon_e9: ORIGIN.lon_e9 + 100_000_000,
        ..ORIGIN
    };
    assert_eq!(
        unplotted_count(&[target(Some(ORIGIN)), target(Some(east))]),
        2
    );
}

#[test]
fn targets_without_a_position_are_not_counted_as_held() {
    // Mode-S-only targets have nothing to plot even with own-ship, so counting them here would
    // promise traffic that a GPS fix would not actually reveal.
    assert_eq!(unplotted_count(&[target(None), target(None)]), 0);
}

#[test]
fn a_coasting_target_still_counts_as_held() {
    // A fix too old to extrapolate from is frozen and drawn dimmed, not dropped. So a coasting
    // target WOULD have appeared had own-ship been available, and must be counted.
    let config = ReckonConfig::default();
    let mut coasting = target(Some(ORIGIN));
    coasting.age = config.max_fix_age * 3;
    coasting.received = NOW - 600 * SECOND;

    assert!(
        at(&coasting, NOW, &config).is_some_and(|r| r.coasting),
        "fixture is meant to be a coasting target"
    );
    assert_eq!(unplotted_count(&[coasting]), 1);
}

#[test]
fn an_empty_sky_is_still_reported_as_empty() {
    // The counter must not invent reassurance when there genuinely is nothing being received.
    assert_eq!(unplotted_count(&[]), 0);
}

// --- the rose -------------------------------------------------------------------------------

#[test]
fn angular_distance_is_zero_for_identical_angles() {
    assert_eq!(angular_distance(57_296, 57_296), 0);
    assert_eq!(angular_distance(-42_972, -42_972 + 360_000), 0);
}

#[test]
fn the_compass_rose_labels_every_thirty_degrees() {
    // Letters on the cardinals, tens of degrees elsewhere: the heading-indicator convention.
    let expected = [
        (0, "N"),
        (30, "3"),
        (60, "6"),
        (90, "E"),
        (120, "12"),
        (150, "15"),
        (180, "S"),
        (210, "21"),
        (240, "24"),
        (270, "W"),
        (300, "30"),
        (330, "33"),
    ];
    for (deg, want) in expected {
        assert_eq!(compass_label(deg), want, "{deg} degrees");
    }
    // Every position the rose actually draws must have a label; a blank would leave a tick with
    // nothing against it, which reads as a rendering fault.
    for deg in (0..360).step_by(30) {
        assert!(!compass_label(deg).is_empty(), "{deg} degrees has no label");
    }
}

#[test]
fn compass_labels_wrap_rather_than_going_blank() {
    assert_eq!(compass_label(360), "N");
    assert_eq!(compass_label(450), "E");
}

#[test]
fn angular_distance_is_symmetric_and_bounded() {
    for (a, b) in [
        (0, 180_000),
        (5_730, -5_730),
        (-166_158, 166_158),
        (0, 360_000 - 11_459),
    ] {
        let forward = angular_distance(a, b);
        let backward = angular_distance(b, a);
        assert_eq!(forward, backward, "not symmetric for {a},{b}");
        assert!(
            (0..=180_000).contains(&forward),
            "{forward} out of range for {a},{b}"
        );
    }
}

#[test]
fn angular_distance_takes_the_short_way_round() {
    // 10 degrees apart across the wrap point, not 350.
    assert_eq!(angular_distance(-5_000, 5_000), 10_000);
    assert_eq!(angular_distance(0, 180_000), 180_000);
}

#[test]
fn range_labels_keep_away_from_north() {
    let l = Layout::for_size(800_000, 480_000, &Theme::dark());
    let rose = vec![NORTH; 12];
    // Left of the centre or right of it, and above it or below.
    let side_of = |north: Option<i32>| {
        let view = ViewState::default();
        let (_, taken) = draw_rings(&view, north, &rose, (20_000, 20_000), &l, &Theme::dark());
        (taken[0].x1 < l.center.0, taken[0].y1 < l.center.1)
    };
    assert_eq!(side_of(None), (true, true), "upper left");
    assert_eq!(side_of(Some(-45_000)), (false, false), "lower right");
    assert_eq!(side_of(Some(135_000)), (true, true), "upper left");
    assert_eq!(side_of(Some(45_000)), (true, false), "lower left");
}

#[test]
fn ranges_lose_a_decimal_they_do_not_need() {
    assert_eq!(format_range(10_000), "10");
    assert_eq!(format_range(2_500), "2.5");
    assert_eq!(format_range(667), "0.7");
}

#[test]
fn cardinals_stand_out_on_the_rose() {
    let theme = Theme::dark();
    let l = Layout::for_size(800_000, 480_000, &theme);
    let north = rose_mark(0, &l, &theme);
    let other = rose_mark(30, &l, &theme);
    assert!(north.inner_radius < other.inner_radius, "a longer tick");
    assert_eq!(north.inner_radius, l.outer_radius * 90 / 100);
    assert_ne!(north.label_colour, other.label_colour);
}

// --- what is drawn ---------------------------------------------------------------------------

fn contact(range_mnm: i64, altitude_ft: i32, coasting: bool) -> Contact {
    let mut t = target(Some(ORIGIN));
    t.altitude_ft = Some(altitude_ft);
    Contact {
        target: t,
        reckoned: Reckoned {
            position: ORIGIN,
            extrapolated: 0,
            coasting,
        },
        range_mnm,
        screen: (400_000, 240_000),
    }
}

#[test]
fn the_plan_accounts_for_every_target() {
    let view = ViewState::default();
    let contacts = [
        contact(2_000, 8_100, false),
        contact(5_000, 9_000, true),
        contact(30_000, 8_000, false),
        contact(9_000, 20_000, false),
        contact(9_000, 8_500, false),
    ];
    let (plotted, stats) = plan(
        &contacts,
        &view,
        Some(8_000_000),
        &ThreatConfig::default(),
        3,
    );
    assert_eq!(stats.targets_drawn, 3);
    assert_eq!(stats.targets_outside_range, 1);
    assert_eq!(stats.targets_outside_altitude, 1);
    assert_eq!(stats.targets_no_position, 3);
    assert_eq!(stats.alerts, 1);
    assert_eq!(stats.advisories, 1);
    // Most urgent last, so that it is drawn on top.
    let order: Vec<usize> = plotted.iter().map(|p| p.contact).collect();
    assert_eq!(order.last(), Some(&0));
    assert_eq!(plotted.len(), 3);
}

#[test]
fn no_filter_hides_a_threat() {
    let alert = contact(1_000, 8_100, false);
    for filter in AltitudeFilter::ALL {
        let view = ViewState {
            altitude_filter: filter,
            ..Default::default()
        };
        let (plotted, _) = plan(
            &[alert],
            &view,
            Some(8_000_000),
            &ThreatConfig::default(),
            0,
        );
        assert_eq!(plotted.len(), 1, "{filter:?} hid an alert");
    }
}

#[test]
fn a_guess_is_drawn_dimmed() {
    let theme = Theme::dark();
    assert_eq!(
        symbol_colour(&theme, ThreatLevel::Alert, false),
        theme.colour_for(ThreatLevel::Alert)
    );
    assert_eq!(
        symbol_colour(&theme, ThreatLevel::Alert, true),
        faded(theme.colour_for(ThreatLevel::Alert), 55)
    );
    assert_eq!(tag_colour(&theme, false), theme.tag_text);
    assert_ne!(tag_colour(&theme, true), theme.tag_text);
}

#[test]
fn tags_show_a_climb_or_a_descent() {
    let level = Assessment {
        level: ThreatLevel::Normal,
        relative_altitude_mft: Some(1_200_000),
        range_mnm: 1_000,
    };
    assert_eq!(tag_line(&level, Some(500)), "+12 \u{2191}");
    assert_eq!(tag_line(&level, Some(-300)), "+12 \u{2193}");
    assert_eq!(tag_line(&level, None), "+12");
    assert_eq!(vertical_trend(Some(299)), "");
}

#[test]
fn placed_tags_keep_apart() {
    let theme = Theme::dark();
    let l = Layout::for_size(800_000, 480_000, &theme);
    let tags: Vec<Tag> = (0..4)
        .map(|i| Tag {
            x: l.center.0 + i * 2_000,
            y: l.center.1,
            width: 40_000,
        })
        .collect();
    let (spots, dropped) = place_tags(&l, &theme, &tags, &[]);
    let placed: Vec<Rect> = spots.iter().flatten().map(|s| s.rect).collect();
    assert_eq!(placed.len() + dropped, 4);
    assert!(placed.len() >= 2);
    for (i, a) in placed.iter().enumerate() {
        for b in &placed[i + 1..] {
            assert!(!a.overlaps(b), "{a:?} {b:?}");
        }
    }
}

#[test]
fn boxes_have_breathing_room() {
    let r = padded_rect(100_000, 50_000, 20_000, 10_000);
    assert_eq!(
        r,
        Rect {
            x0: 87_000,
            y0: 42_000,
            x1: 113_000,
            y1: 58_000
        }
    );
}

#[test]
fn a_missing_position_is_explained() {
    assert_eq!(no_position_notice(true, true).0, "GPS FIX LOST");
    assert_eq!(no_position_notice(false, true).0, "WAITING FOR GPS FIX");
    assert_eq!(no_position_notice(false, false).0, "NO STRATUX CONNECTION");
}

#[test]
fn filters_are_named_and_closed() {
    assert_eq!(AltitudeFilter::ALL.len(), 4);
    assert!(AltitudeFilter::Normal.is_narrowing());
    assert!(!AltitudeFilter::Unrestricted.is_narrowing());
    let mut filter = AltitudeFilter::Normal;
    for _ in 0..4 {
        filter = filter.cycle();
    }
    assert_eq!(filter, AltitudeFilter::Normal);
}

// --- from targets to contacts ---------------------------------------------------------------

#[test]
fn a_survey_places_every_target_that_has_a_position() {
    let layout = Layout::for_size(800_000, 480_000, &Theme::dark());
    let view = ViewState::default();
    let projection = make_projection(ORIGIN, COS, None, &view, &layout);
    assert_eq!(projection.origin(), ORIGIN);
    assert_eq!(projection.center_px(), layout.center);
    assert_eq!(projection.px_per_nm(), layout.outer_radius * 1000 / view.range_mnm as i64);
    assert_eq!(projection.rotation_deg(), 0);

    // One five miles north and standing still, one never heard to say where it is.
    let mut still = target(Some(LatLon { lat_e9: ORIGIN.lat_e9 + 83_333_000, ..ORIGIN }));
    still.ground_speed_kt = Some(0);
    let seen = |t: Target| Sighting { target: t, course: EAST, cos_lat: COS };
    let (contacts, without) =
        survey(&[seen(still), seen(target(None))], &projection, NOW, &ReckonConfig::default());
    assert_eq!(contacts.len(), 1);
    assert_eq!(without, 1);
    // 4.99998 miles, and a range is rounded up.
    assert_eq!(contacts[0].range_mnm, 5_000);
    assert_eq!(contacts[0].screen.0, layout.center.0);
    assert_eq!(contacts[0].screen, projection.project(contacts[0].reckoned.position));

    let (plotted, stats) = plan(&contacts, &view, None, &ThreatConfig::default(), without);
    assert_eq!(plotted.len(), 1);
    assert_eq!(stats.targets_no_position, 1);
}

#[test]
fn a_limit_is_compared_with_the_distance_itself() {
    let layout = Layout::for_size(800_000, 480_000, &Theme::dark());
    let mut view = ViewState::default();
    view.range_mnm = 5_000;
    let projection = make_projection(ORIGIN, COS, None, &view, &layout);
    let config = ThreatConfig::default();
    let seen = |lat_e9: i64| {
        let mut t = target(Some(LatLon { lat_e9: ORIGIN.lat_e9 + lat_e9, ..ORIGIN }));
        t.ground_speed_kt = Some(0);
        survey(
            &[Sighting { target: t, course: EAST, cos_lat: COS }],
            &projection,
            NOW,
            &ReckonConfig::default(),
        )
        .0
    };
    // Five miles are 83,333,333.3 billionths of a degree: one more is past the ring.
    assert_eq!(plan(&seen(83_333_333), &view, None, &config, 0).1.targets_outside_range, 0);
    let past = plan(&seen(83_333_334), &view, None, &config, 0).1;
    assert_eq!((past.targets_drawn, past.targets_outside_range), (0, 1));

    // Three miles are exactly 50,000,000.
    assert_eq!(seen(50_000_000)[0].range_mnm, 3_000);
    assert_eq!(seen(50_000_001)[0].range_mnm, 3_001);
}

#[test]
fn a_frame_without_own_ship_says_what_it_holds_back() {
    let targets = [target(Some(ORIGIN)), target(None), target(Some(ORIGIN))];
    assert_eq!(
        held_back(&targets, 4),
        FrameStats {
            targets_unplotted: 2,
            targets_no_position: 4,
            ..FrameStats::default()
        }
    );
    assert_eq!(
        FrameStats::off_the_plan(3),
        FrameStats { targets_no_position: 3, ..FrameStats::default() }
    );
}
