use avionics::ahrspage::{
    altitude_source, altitude_tape, classify, heading_source, horizon_offset, instrument,
    pitch_ladder, roll_colour, roll_tick_percent, slip_offset, speed_tape, vertical_strip,
    AhrsFailure, AhrsRender, AltSource, HeadingSource,
};
use avionics::domain::Ahrs;
use avionics::layout::Layout;
use avionics::theme::Theme;

const MILLISECOND: u64 = 1_000_000;
const NOW: u64 = 1_000_000_000_000;

/// A non-zero status word: what a receiver reports when a module is present.
const REPORTING: u8 = 6;

#[test]
fn a_zero_status_word_means_failure_even_with_plausible_numbers() {
    // The dangerous case: a receiver with no AHRS reports 0.0 pitch and 0.0 roll, which is
    // indistinguishable from wings-level unless the status word is consulted.
    let ahrs = Ahrs {
        pitch_mdeg: Some(0),
        roll_mdeg: Some(0),
        status: 0,
        received: Some(NOW),
        ..Default::default()
    };
    assert_eq!(
        classify(&ahrs, NOW),
        AhrsRender::Failed(AhrsFailure::NoData)
    );
}

#[test]
fn no_sensor_means_failure_not_a_level_horizon() {
    assert_eq!(
        classify(&Ahrs::default(), NOW),
        AhrsRender::Failed(AhrsFailure::NoData)
    );
}

#[test]
fn roll_without_pitch_is_a_failure_not_a_partial_indicator() {
    let ahrs = Ahrs {
        roll_mdeg: Some(20_000),
        pitch_mdeg: None,
        status: REPORTING,
        received: Some(NOW),
        ..Default::default()
    };
    assert_eq!(
        classify(&ahrs, NOW),
        AhrsRender::Failed(AhrsFailure::NoData)
    );
}

#[test]
fn a_stale_reading_is_flagged_rather_than_frozen_on_screen() {
    let ahrs = Ahrs {
        pitch_mdeg: Some(2_000),
        roll_mdeg: Some(3_000),
        status: REPORTING,
        received: Some(NOW - 1500 * MILLISECOND),
        ..Default::default()
    };
    assert_eq!(classify(&ahrs, NOW), AhrsRender::Failed(AhrsFailure::Stale));
}

#[test]
fn a_fresh_reading_draws_the_attitude() {
    let ahrs = Ahrs {
        pitch_mdeg: Some(2_000),
        roll_mdeg: Some(3_000),
        status: REPORTING,
        received: Some(NOW - 100 * MILLISECOND),
        ..Default::default()
    };
    assert_eq!(classify(&ahrs, NOW), AhrsRender::Attitude);
    assert_eq!(ahrs.attitude(), Some((2_000, 3_000)));
}

#[test]
fn zero_attitude_is_a_reading_not_an_absence() {
    // Exactly level must render, not trip the failure path.
    let ahrs = Ahrs {
        pitch_mdeg: Some(0),
        roll_mdeg: Some(0),
        status: REPORTING,
        received: Some(NOW),
        ..Default::default()
    };
    assert_eq!(classify(&ahrs, NOW), AhrsRender::Attitude);
}

#[test]
fn direction_is_captioned_by_what_it_actually_is() {
    let mut ahrs = Ahrs::default();

    // Nothing available: dashes, not a north-pointing zero.
    assert!(matches!(heading_source(&ahrs, None), HeadingSource::Unknown));
    assert_eq!(heading_source(&ahrs, None).text(), "---");

    // GPS track must NOT be captioned HDG: track and heading differ by the wind, which is exactly
    // when someone would be reading it.
    let track = Some(57_000);
    assert!(matches!(heading_source(&ahrs, track), HeadingSource::Track(_)));
    assert_eq!(heading_source(&ahrs, track).caption(), "TRK gps");
    assert_eq!(heading_source(&ahrs, track).text(), "057\u{00B0}");

    // A real heading outranks track when the sensor supplies one.
    ahrs.mag_heading_mdeg = Some(120_000);
    assert!(matches!(heading_source(&ahrs, track), HeadingSource::Mag(_)));
    assert_eq!(heading_source(&ahrs, track).caption(), "HDG mag");
}

#[test]
fn headings_wrap_into_zero_to_three_sixty() {
    let mut ahrs = Ahrs::default();
    ahrs.mag_heading_mdeg = Some(-10_000);
    assert_eq!(heading_source(&ahrs, None).text(), "350\u{00B0}");
    ahrs.mag_heading_mdeg = Some(370_000);
    assert_eq!(heading_source(&ahrs, None).text(), "010\u{00B0}");
}

#[test]
fn altitude_is_captioned_with_the_sensor_it_came_from() {
    // Baro wins when present: it is what traffic reports, so it is the like-for-like number.
    let baro = altitude_source(Some(4_800_000), Some(5_000_000));
    assert!(matches!(baro, AltSource::Baro(v) if v == 4_800_000));
    assert_eq!(baro.caption(), "BARO FT");

    // Without a pressure sensor the number is GPS MSL, and the caption must say so rather than
    // silently relabelling it, since the two differ by the altimeter setting.
    let gps = altitude_source(None, Some(5_000_000));
    assert!(matches!(gps, AltSource::Gps(v) if v == 5_000_000));
    assert_eq!(gps.caption(), "GPS FT");

    // No fix at all: dashes, never a zero.
    let unknown = altitude_source(None, None);
    assert!(matches!(unknown, AltSource::Unknown));
    assert_eq!(unknown.value(), None);
}

#[test]
fn failures_say_what_is_wrong() {
    assert_eq!(AhrsFailure::NoData.label(), "AHRS UNAVAILABLE");
    assert_eq!(AhrsFailure::Stale.detail(), "sensor stopped updating");
}

#[test]
fn the_horizon_drops_as_the_nose_rises() {
    let theme = Theme::dark();
    let l = Layout::for_size(800_000, 480_000, &theme);
    let i = instrument(&l, &theme);
    assert_eq!(horizon_offset(&i, 0), 0);
    assert_eq!(horizon_offset(&i, 25_000), i.half_height, "a whole scale up");
    assert_eq!(horizon_offset(&i, -25_000), -i.half_height);
    let ladder = pitch_ladder(&i);
    assert_eq!(ladder.len(), 12);
    assert!(ladder.iter().all(|r| r.degrees % 5 == 0 && r.degrees != 0));
    for r in &ladder {
        assert_eq!(r.y < 0, r.degrees > 0, "positive pitch is above the horizon");
    }
}

#[test]
fn steep_banks_and_slips_are_bounded() {
    let theme = Theme::dark();
    assert_eq!(roll_colour(30_000, &theme), theme.text_primary);
    assert_eq!(roll_colour(-30_001, &theme), theme.caution);
    assert_eq!(roll_tick_percent(30), 12);
    assert_eq!(roll_tick_percent(45), 7);
    assert_eq!(slip_offset(20_000, 40_000), 40_000);
    assert_eq!(slip_offset(-20_000, 40_000), -40_000);
    assert_eq!(slip_offset(5_000, 40_000), 20_000);
    assert_eq!(slip_offset(-5_000, -40_001), 20_000);
}

#[test]
fn the_tapes_stand_at_the_edges_of_the_attitude() {
    let l = Layout::for_size(800_000, 480_000, &Theme::dark());
    let speed = speed_tape(&l);
    let altitude = altitude_tape(&l);
    let rate = vertical_strip(&l);
    assert_eq!(speed.x, l.content_x0);
    assert_eq!(speed.width, 62_000);
    assert_eq!(altitude.x + altitude.width, rate.x, "the two on the right touch");
    assert_eq!(rate.x + rate.width, l.content_x1);
    assert_eq!((altitude.width, rate.width), (70_000, 34_000));
    for (top, bottom) in [(speed.top, speed.bottom), (altitude.top, altitude.bottom)] {
        assert_eq!(top, l.status_bar_height);
        assert_eq!(bottom, 480_000 - l.footer_height);
    }
    assert_eq!((rate.top, rate.bottom), (speed.top, speed.bottom));
    assert_eq!((speed.major, speed.minor, speed.units_per_px), (10_000, 5_000, 250));
    assert_eq!((altitude.major, altitude.minor, altitude.units_per_px), (100_000, 20_000, 2_500));
    assert_eq!(rate.full_scale, 2_000);
}
