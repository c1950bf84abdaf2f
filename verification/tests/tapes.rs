use avionics::tapes::{
    rate_bar, rate_text, scale_height, value_box, value_text, Side, Tape, Vsi, VSI_INSET,
};
use avionics::theme::Theme;

fn tape() -> Tape {
    Tape {
        x: 0,
        width: 64_000,
        top: 40_000,
        bottom: 440_000,
        units_per_px: 250,
        major: 10_000,
        minor: 5_000,
        side: Side::Left,
    }
}

#[test]
fn the_current_value_sits_at_the_pointer() {
    let t = tape();
    assert_eq!(t.y_for(104_000, 104_000), t.centre_y());
}

#[test]
fn higher_values_are_higher_on_screen() {
    // Screen y grows downward, so a larger value must produce a SMALLER y. Getting this backwards
    // gives a tape that runs the wrong way, which reads as plausible until you accelerate.
    let t = tape();
    let above = t.y_for(114_000, 104_000);
    let below = t.y_for(94_000, 104_000);
    assert!(above < t.centre_y(), "114 kt should be above the pointer");
    assert!(below > t.centre_y(), "94 kt should be below it");
}

#[test]
fn the_scale_moves_at_the_configured_rate() {
    let t = tape();
    // 10 units at 0.25 units per pixel is 40 pixels.
    let delta = t.centre_y() - t.y_for(114_000, 104_000);
    assert_eq!(delta, 40_000, "moved {delta}, expected 40 px");
}

fn vsi() -> Vsi {
    Vsi {
        x: 0,
        width: 36_000,
        top: 40_000,
        bottom: 440_000,
        full_scale: 2_000,
    }
}

#[test]
fn vsi_zero_is_at_the_centre_and_climb_is_up() {
    let v = vsi();
    assert_eq!(v.y_for(0), v.centre_y());
    assert!(v.y_for(500_000) < v.centre_y(), "a climb must deflect upward");
    assert!(
        v.y_for(-500_000) > v.centre_y(),
        "a descent must deflect downward"
    );
}

#[test]
fn vsi_clamps_beyond_full_scale_rather_than_running_off_the_strip() {
    let v = vsi();
    assert_eq!(v.y_for(9_999_000), v.top + VSI_INSET);
    assert_eq!(v.y_for(-9_999_000), v.bottom - VSI_INSET);
}

#[test]
fn ticks_stand_on_multiples_of_their_interval() {
    let t = tape();
    // 400 px at a quarter of a unit each: 50 units either side, and one interval past the ends.
    let majors = t.major_ticks(104_000);
    assert_eq!(majors.first(), Some(&50_000));
    assert_eq!(majors.last(), Some(&160_000));
    assert!(majors.iter().all(|v| v % 10_000 == 0));
    let minors = t.minor_ticks(104_000);
    assert!(minors.iter().all(|v| v % 5_000 == 0 && v % 10_000 != 0));
    assert_eq!(minors.first(), Some(&45_000));
}

#[test]
fn values_are_whole_numbers() {
    assert_eq!(value_text(104_400), "104");
    assert_eq!(value_text(-1_600), "-2");
}

#[test]
fn the_readout_points_at_its_scale() {
    let theme = Theme::dark();
    let left = value_box(&tape(), &theme);
    assert!(left.right_aligned);
    assert!(left.point_x > left.x1);
    let right = value_box(
        &Tape {
            side: Side::Right,
            ..tape()
        },
        &theme,
    );
    assert!(right.point_x < right.x0);
    assert_eq!(
        scale_height(&tape(), &theme),
        400_000 - theme.font_size_tag * 17 / 10
    );
}

#[test]
fn the_rate_is_shown_once_it_matters() {
    assert_eq!(rate_text(0), None);
    assert_eq!(rate_text(520_000), Some("+500".to_string()));
    assert_eq!(rate_text(-760_000), Some("-750".to_string()));
    let v = vsi();
    let (top, height) = rate_bar(&v, 500_000);
    assert_eq!(top, v.y_for(500_000));
    assert_eq!(top + height, v.centre_y());
    assert_eq!(v.ticks().len(), 9);
}
