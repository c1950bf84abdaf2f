use avionics::touch::{
    axis_range, choose_device, scale_point, Gesture, Scaling, TouchEvent, TouchState,
    TAP_MAX_DURATION,
};

/// The panel's ranges, as the panel reports them.
const X_RANGE: (i32, i32) = (0, 799);
const Y_RANGE: (i32, i32) = (0, 479);
const SCREEN: (i64, i64) = (800_000, 480_000);

const NOW: u64 = 1_000_000_000_000;

fn state() -> TouchState {
    TouchState::new(X_RANGE, Y_RANGE, SCREEN)
}

/// One touch, in exactly the event order the panel emits: x and y arrive as separate events, and
/// the release carries no position at all.
fn tap_events(id: i32, x: i32, y: i32) -> Vec<TouchEvent> {
    vec![
        TouchEvent::TrackingId(id),
        TouchEvent::PositionX(x),
        TouchEvent::PositionY(y),
        TouchEvent::BtnTouch(true),
        TouchEvent::TrackingId(-1),
        TouchEvent::BtnTouch(false),
    ]
}

fn replay(state: &mut TouchState, events: &[TouchEvent]) -> Vec<Gesture> {
    let mut gestures = Vec::new();
    for event in events {
        state.apply(*event, NOW, &mut gestures);
    }
    gestures
}

/// Thousandths of a pixel as pixels.
fn px(v: i64) -> f32 {
    v as f32 / 1000.0
}

#[test]
fn a_captured_tap_lands_where_the_finger_was() {
    let mut s = state();
    let gestures = replay(&mut s, &tap_events(90, 493, 129));

    assert_eq!(gestures.len(), 1, "one finger down and up is one tap");
    match gestures[0] {
        Gesture::Tap { x, y } => {
            let (x, y) = (px(x), px(y));
            assert!((x - 493.6).abs() < 1.0, "x was {x}, expected ~493");
            assert!(
                (y - 129.3).abs() < 1.0,
                "y was {y}, expected ~129 (was ~0 before)"
            );
        }
        other => panic!("expected a tap, got {other:?}"),
    }
}

#[test]
fn the_bottom_of_the_screen_is_reachable() {
    let mut s = state();
    let gestures = replay(&mut s, &tap_events(1, 752, 406));
    match gestures.as_slice() {
        [Gesture::Tap { x, y }] => {
            let (x, y) = (px(*x), px(*y));
            assert!(x > 704.0, "x {x} should be inside the soft-key strip");
            assert!(
                (361.0..451.0).contains(&y),
                "y {y} should land in the bottom slot, not the top one"
            );
        }
        other => panic!("expected one tap in the bottom slot, got {other:?}"),
    }
}

#[test]
fn consecutive_taps_do_not_inherit_each_others_coordinates() {
    let mut s = state();
    let mut ys = Vec::new();
    for (i, y) in [40, 240, 440].iter().enumerate() {
        let gestures = replay(&mut s, &tap_events(i as i32 + 1, 750, *y));
        match gestures.as_slice() {
            [Gesture::Tap { y, .. }] => ys.push(px(*y)),
            other => panic!("tap {i} produced {other:?}"),
        }
    }
    assert!(
        ys[0] < ys[1] && ys[1] < ys[2],
        "taps did not track the finger: {ys:?}"
    );
    assert!((ys[0] - 40.0).abs() < 1.5, "first tap y was {}", ys[0]);
    assert!((ys[2] - 440.0).abs() < 1.5, "third tap y was {}", ys[2]);
}

#[test]
fn a_genuine_touch_at_the_top_left_corner_is_not_mistaken_for_no_reading() {
    let mut s = state();
    let gestures = replay(&mut s, &tap_events(7, 0, 0));
    assert_eq!(
        gestures.len(),
        1,
        "the top-left corner is a valid place to press"
    );
    assert!(matches!(gestures[0], Gesture::Tap { .. }));
}

#[test]
fn a_contact_with_no_position_is_dropped_rather_than_reported_at_zero() {
    let mut s = state();
    let gestures = replay(
        &mut s,
        &[
            TouchEvent::TrackingId(47),
            TouchEvent::BtnTouch(true),
            TouchEvent::TrackingId(-1),
            TouchEvent::BtnTouch(false),
        ],
    );
    assert!(gestures.is_empty(), "expected no gesture, got {gestures:?}");
}

#[test]
fn two_fingers_are_a_two_finger_tap() {
    let mut s = state();
    let mut gestures = Vec::new();
    for e in [
        TouchEvent::Slot(0),
        TouchEvent::TrackingId(10),
        TouchEvent::PositionX(200),
        TouchEvent::PositionY(200),
        TouchEvent::Slot(1),
        TouchEvent::TrackingId(11),
        TouchEvent::PositionX(400),
        TouchEvent::PositionY(220),
        TouchEvent::Slot(0),
        TouchEvent::TrackingId(-1),
        TouchEvent::Slot(1),
        TouchEvent::TrackingId(-1),
    ] {
        s.apply(e, NOW, &mut gestures);
    }
    assert_eq!(gestures, vec![Gesture::TwoFingerTap]);
}

#[test]
fn a_drag_is_not_a_tap() {
    let mut s = state();
    let mut gestures = Vec::new();
    for e in [
        TouchEvent::TrackingId(20),
        TouchEvent::PositionX(100),
        TouchEvent::PositionY(100),
        TouchEvent::PositionX(300),
        TouchEvent::PositionY(300),
        TouchEvent::TrackingId(-1),
    ] {
        s.apply(e, NOW, &mut gestures);
    }
    assert!(gestures.is_empty(), "a drag must not fire a control");
}

#[test]
fn a_long_press_is_not_a_tap() {
    let mut s = state();
    let mut gestures = Vec::new();
    s.apply(TouchEvent::TrackingId(30), NOW, &mut gestures);
    s.apply(TouchEvent::PositionX(400), NOW, &mut gestures);
    s.apply(TouchEvent::PositionY(240), NOW, &mut gestures);
    // Released well after the tap window.
    let late = NOW + TAP_MAX_DURATION + 100_000_000;
    s.apply(TouchEvent::TrackingId(-1), late, &mut gestures);
    assert!(
        gestures.is_empty(),
        "a resting hand must not fire a control"
    );
}

#[test]
fn a_press_up_to_the_limit_is_still_a_tap() {
    let mut s = state();
    let mut gestures = Vec::new();
    s.apply(TouchEvent::TrackingId(30), NOW, &mut gestures);
    s.apply(TouchEvent::PositionX(400), NOW, &mut gestures);
    s.apply(TouchEvent::PositionY(240), NOW, &mut gestures);
    s.apply(TouchEvent::TrackingId(-1), NOW + TAP_MAX_DURATION, &mut gestures);
    assert_eq!(gestures.len(), 1);
}

#[test]
fn a_resized_screen_scales_the_next_touch() {
    let mut s = state();
    s.set_screen((1_024_000, 600_000));
    let gestures = replay(&mut s, &tap_events(3, 799, 479));
    assert_eq!(
        gestures,
        vec![Gesture::Tap {
            x: 1_024_000,
            y: 600_000
        }]
    );
}

#[test]
fn device_coordinates_scale_to_the_screen() {
    let scaling = Scaling {
        x_range: (0, 100),
        y_range: (-50, 50),
        screen: (800_000, 480_000),
    };
    assert_eq!(scale_point((50, 0), &scaling), (400_000, 240_000));
    assert_eq!(scale_point((-10, 60), &scaling), (0, 480_000));
}

#[test]
fn the_panel_is_chosen_by_its_name() {
    let names: Vec<String> = ["mouse pad", "EDT FT5x06 panel", "other"]
        .iter()
        .map(|s| s.to_string())
        .collect();
    assert_eq!(choose_device(&names), Some(1));
    assert_eq!(choose_device(&names[2..]), Some(0), "any multitouch device beats none");
    assert_eq!(choose_device(&[]), None);
}

#[test]
fn a_missing_axis_range_falls_back_to_the_screen() {
    assert_eq!(axis_range(Some((5, 105)), 800), (5, 105));
    assert_eq!(axis_range(Some((7, 7)), 800), (0, 800));
    assert_eq!(axis_range(None, 480), (0, 480));
}
