use avionics::chart::Chart;
use avionics::domain::LatLon;
use avionics::interact::{self, apply_key_at, handle_tap, two_finger_tap, zone_for, MapTap, TapZone};
use avionics::layout::Layout;
use avionics::pagestrip;
use avionics::planview::make_projection;
use avionics::projection::{Orientation, Projection, UNIT};
use avionics::softkeys::{self, SoftKey};
use avionics::theme::Theme;
use avionics::threat::AltitudeFilter;
use avionics::view::{
    CageState, Inspected, MapLayers, Page, ViewState, CAGE_ARM_TIMEOUT, CAGE_RESULT_DWELL,
};

const NOW: u64 = 1_000_000_000_000;
const SECOND: u64 = 1_000_000_000;
const MILLISECOND: u64 = 1_000_000;

/// The panel this is laid out for: 800 by 480 pixels.
fn layout() -> Layout {
    Layout::for_size(800_000, 480_000, &Theme::dark())
}

fn tap(view: &mut ViewState, layout: &Layout, x: i64, y: i64, rows: usize, total: usize) {
    interact::tap(&Theme::dark(), view, layout, x, y, rows, total, NOW);
}

/// Centre of a soft-key slot, in screen pixels.
fn key_point(layout: &Layout, slot: usize) -> (i64, i64) {
    let (x, y, w, h) = softkeys::slot_rect(layout, slot);
    (x + w / 2, y + h / 2)
}

/// Centre of a page's key on the right-hand strip.
fn page_point(layout: &Layout, page: Page) -> (i64, i64) {
    let slot = Page::ALL.iter().position(|p| *p == page).expect("page");
    let (x, y, w, h) = pagestrip::slot_rect(layout, slot);
    (x + w / 2, y + h / 2)
}

/// Centre of whichever slot carries `key` on `page`.
///
/// Resolved rather than hardcoded so that rearranging the strip cannot silently turn a test of
/// what a key *does* into a test of where it *is*.
fn point_of(layout: &Layout, page: Page, key: SoftKey) -> (i64, i64) {
    let slot = softkeys::keys_for(page)
        .iter()
        .position(|k| *k == Some(key))
        .unwrap_or_else(|| panic!("{key:?} is not on {page:?}"));
    key_point(layout, slot)
}

#[test]
fn range_keys_step_both_ways() {
    let l = layout();
    let mut view = ViewState::default();
    assert_eq!(view.range_mnm, 10_000);

    let (x, y) = point_of(&l, Page::PlanView, SoftKey::RangeUp);
    tap(&mut view, &l, x, y, 5, 0);
    assert_eq!(view.range_mnm, 20_000, "RNG+ should step up");

    let (x, y) = point_of(&l, Page::PlanView, SoftKey::RangeDown);
    tap(&mut view, &l, x, y, 5, 0);
    tap(&mut view, &l, x, y, 5, 0);
    assert_eq!(view.range_mnm, 5_000, "RNG- should step down twice");
}

#[test]
fn the_plan_view_body_no_longer_changes_range() {
    // The whole reason the soft keys exist: a hand steadying itself against the panel must not
    // cycle the range scale silently.
    let l = layout();
    let mut view = ViewState::default();
    let before = view.range_mnm;
    for y in [l.status_bar_height + 20_000, l.height / 2, l.height - l.footer_height - 20_000] {
        tap(&mut view, &l, l.content_x0 + l.content_width() / 2, y, 5, 0);
    }
    assert_eq!(view.range_mnm, before, "body taps must not change range");
    assert_eq!(view.page, Page::PlanView, "body taps must not change page");
}

#[test]
fn every_page_is_one_press_away_from_every_other() {
    // No page is ever two presses away, and pressing the key for the page you are already on is a
    // no-op rather than a move.
    let l = layout();
    for from in Page::ALL {
        for to in Page::ALL {
            let mut view = ViewState {
                page: from,
                ..Default::default()
            };
            let (x, y) = page_point(&l, to);
            tap(&mut view, &l, x, y, 5, 0);
            assert_eq!(view.page, to, "{from:?} -> {to:?} took more than one press");
        }
    }
}

#[test]
fn the_status_bar_no_longer_changes_page() {
    // The page strip is three tall keys, so a fallback here would buy nothing and cost an
    // accidental-press path along the whole top of the panel.
    let l = layout();
    let mut view = ViewState::default();
    let x = l.content_x0 + l.content_width() / 2;
    tap(&mut view, &l, x, l.status_bar_height / 2, 5, 0);
    assert_eq!(view.page, Page::PlanView, "the status bar must be inert");
}

#[test]
fn caging_needs_two_presses_never_one() {
    // The whole point: one press must never re-reference the attitude sensor.
    let l = layout();
    let mut view = ViewState {
        page: Page::Ahrs,
        ..Default::default()
    };
    let (x, y) = point_of(&l, Page::Ahrs, SoftKey::CageAhrs);

    assert_eq!(view.cage, CageState::Idle);
    tap(&mut view, &l, x, y, 5, 0);
    assert_eq!(view.cage, CageState::Armed, "one press must only arm");
    tap(&mut view, &l, x, y, 5, 0);
    assert_eq!(view.cage, CageState::Requested, "the second press confirms");

    // Further presses must not queue another request behind the first.
    tap(&mut view, &l, x, y, 5, 0);
    assert_eq!(view.cage, CageState::Requested);
}

#[test]
fn an_armed_cage_lapses_so_two_unrelated_presses_cannot_combine() {
    let now = NOW;
    let mut view = ViewState::default();
    view.set_cage(CageState::Armed, now);

    // Still armed a moment later.
    view.tick_cage(now + SECOND);
    assert_eq!(view.cage, CageState::Armed);

    // Lapsed after the timeout: a stray press now and a real one minutes later must not
    // add up to a cage nobody asked for.
    view.tick_cage(now + CAGE_ARM_TIMEOUT + MILLISECOND);
    assert_eq!(view.cage, CageState::Idle);
}

#[test]
fn a_finished_cage_returns_to_idle_on_its_own() {
    let now = NOW;
    let mut view = ViewState::default();
    view.set_cage(CageState::Done { ok: true }, now);

    view.tick_cage(now + SECOND);
    assert_eq!(view.cage, CageState::Done { ok: true }, "result should dwell");

    view.tick_cage(now + CAGE_RESULT_DWELL + MILLISECOND);
    assert_eq!(view.cage, CageState::Idle);
}

#[test]
fn the_level_key_is_not_reachable_from_the_other_pages() {
    // Slot 4 is the underlay toggle on the plan view and inert on weather. Pressing it there
    // must not touch the cage state.
    let l = layout();
    let (x, y) = key_point(&l, 4);
    for page in [Page::PlanView, Page::Weather] {
        let mut view = ViewState {
            page,
            ..Default::default()
        };
        tap(&mut view, &l, x, y, 5, 20);
        assert_eq!(view.cage, CageState::Idle, "slot 4 armed a cage on {page:?}");
    }
}

#[test]
fn decoding_toggles_and_switches_up_down_to_single_steps() {
    let l = layout();
    let mut view = ViewState {
        page: Page::Weather,
        ..Default::default()
    };
    let (x, y) = point_of(&l, Page::Weather, SoftKey::ToggleDecode);

    // Browsing: UP/DOWN move a page at a time.
    let down = point_of(&l, Page::Weather, SoftKey::ScrollDown);
    tap(&mut view, &l, down.0, down.1, 5, 20);
    assert_eq!(view.weather_scroll, 5, "a page is five rows here");

    // Decoding shows one report, so the same keys step one entry.
    tap(&mut view, &l, x, y, 5, 20);
    assert!(view.weather_decode);
    let down = point_of(&l, Page::Weather, SoftKey::ScrollDown);
    tap(&mut view, &l, down.0, down.1, 5, 20);
    assert_eq!(view.weather_scroll, 6, "decode mode steps one entry");

    // And back.
    tap(&mut view, &l, x, y, 5, 20);
    assert!(!view.weather_decode);
}

#[test]
fn entering_decode_keeps_the_selection_inside_the_list() {
    let l = layout();
    let mut view = ViewState {
        page: Page::Weather,
        weather_scroll: 99,
        ..Default::default()
    };
    let (x, y) = point_of(&l, Page::Weather, SoftKey::ToggleDecode);
    tap(&mut view, &l, x, y, 5, 3);
    assert_eq!(view.weather_scroll, 2, "clamped to the last entry, not left out of range");
}

#[test]
fn the_decode_key_is_not_reachable_from_the_other_pages() {
    let l = layout();
    let (x, y) = point_of(&l, Page::Weather, SoftKey::ToggleDecode);
    for page in [Page::PlanView, Page::Ahrs] {
        let mut view = ViewState {
            page,
            ..Default::default()
        };
        tap(&mut view, &l, x, y, 5, 20);
        assert!(
            !view.weather_decode,
            "the slot DECODE occupies on the weather page toggled it on {page:?}"
        );
    }
}

#[test]
fn the_key_label_tracks_the_cage_state() {
    let mut view = ViewState {
        page: Page::Ahrs,
        ..Default::default()
    };
    let key = softkeys::SoftKey::CageAhrs;
    let now = NOW;

    assert_eq!(softkeys::label(key, &view), "LEVEL");
    view.set_cage(CageState::Armed, now);
    assert_eq!(softkeys::label(key, &view), "CONFIRM");
    view.set_cage(CageState::Done { ok: true }, now);
    assert_eq!(softkeys::label(key, &view), "CAGED");
    view.set_cage(CageState::Done { ok: false }, now);
    assert_eq!(softkeys::label(key, &view), "FAILED");
}

#[test]
fn the_attitude_page_ignores_body_taps_entirely() {
    let l = layout();
    let mut view = ViewState {
        page: Page::Ahrs,
        ..Default::default()
    };
    let before = view.clone();
    for y in [l.height * 35 / 100, l.height / 2, l.height * 65 / 100] {
        tap(&mut view, &l, l.content_x0 + l.content_width() / 2, y, 5, 0);
    }
    assert_eq!(view.page, before.page);
    assert_eq!(view.range_mnm, before.range_mnm);
    // Two fingers must not toggle orientation from here either.
    two_finger_tap(&mut view);
    assert_eq!(view.orientation, before.orientation);
}

#[test]
fn inert_slots_swallow_the_press() {
    let l = layout();
    let mut view = ViewState {
        page: Page::Weather,
        ..Default::default()
    };
    let before = view.clone();
    // Slots 3 and 4 are unused on the weather page.
    for slot in [3, 4] {
        let (x, y) = key_point(&l, slot);
        tap(&mut view, &l, x, y, 5, 20);
    }
    assert_eq!(view.page, before.page, "an inert key must not fall through to the page");
    assert_eq!(view.weather_scroll, before.weather_scroll);
}

#[test]
fn a_key_press_does_not_also_trigger_the_zone_beneath_it() {
    // DOWN sits over the upper half of the body. A press that was dispatched twice would be seen
    // in the list.
    let l = layout();
    let (x, y) = point_of(&l, Page::Weather, SoftKey::ScrollDown);
    assert_eq!(
        zone_for(&l, x, y),
        TapZone::BodyUpper,
        "test premise: this key overlaps a zone that scrolls the opposite way"
    );

    let mut view = ViewState {
        page: Page::Weather,
        ..Default::default()
    };
    tap(&mut view, &l, x, y, 5, 20);
    assert_eq!(
        view.weather_scroll, 5,
        "double dispatch would have scrolled down then back up to 0"
    );
}

#[test]
fn the_bars_run_edge_to_edge_and_the_strips_sit_between_them() {
    // Both bars own their full width, and neither strip reaches into either.
    let l = layout();
    for x in [
        l.strip_width / 2,
        l.content_x0 + l.content_width() / 2,
        l.content_x1 + l.strip_width / 2,
    ] {
        for y in [0, l.status_bar_height / 2, l.footer_y0() + 1_000, l.height - 1_000] {
            assert_eq!(softkeys::hit(&l, x, y), None, "function strip at ({x}, {y})");
            assert_eq!(pagestrip::hit(&l, x, y), None, "page strip at ({x}, {y})");
        }
    }
    // And the strips do cover everything between the bars.
    let mid = l.strip_y0() + l.strip_height() / 2;
    assert!(softkeys::hit(&l, l.strip_width / 2, mid).is_some());
    assert!(pagestrip::hit(&l, l.content_x1 + 1_000, mid).is_some());
}

#[test]
fn underlay_key_toggles_and_is_reachable_only_on_the_plan_view() {
    let l = layout();
    let mut view = ViewState::default();
    assert!(view.show_weather_underlay);

    let (x, y) = key_point(&l, 4);
    tap(&mut view, &l, x, y, 5, 0);
    assert!(!view.show_weather_underlay);

    // Slot 4 is inert on the weather page, so it must not toggle anything there.
    view.page = Page::Weather;
    tap(&mut view, &l, x, y, 5, 0);
    assert!(!view.show_weather_underlay, "slot 4 must be inert on the weather page");
}

#[test]
fn orientation_key_matches_the_two_finger_gesture() {
    let l = layout();
    let mut by_key = ViewState::default();
    let mut by_gesture = ViewState::default();

    let (x, y) = point_of(&l, Page::PlanView, SoftKey::ToggleOrientation);
    tap(&mut by_key, &l, x, y, 5, 0);
    two_finger_tap(&mut by_gesture);

    assert_eq!(by_key.orientation, by_gesture.orientation);
    assert_eq!(by_key.orientation, Orientation::TrackUp);
}

#[test]
fn scroll_keys_move_the_weather_list() {
    let l = layout();
    let mut view = ViewState {
        page: Page::Weather,
        ..Default::default()
    };
    let (x, y) = point_of(&l, Page::Weather, SoftKey::ScrollDown);
    tap(&mut view, &l, x, y, 5, 20);
    assert_eq!(view.weather_scroll, 5, "DOWN should advance one page of rows");

    let (x, y) = point_of(&l, Page::Weather, SoftKey::ScrollUp);
    tap(&mut view, &l, x, y, 5, 20);
    assert_eq!(view.weather_scroll, 0, "UP should come back");
}

#[test]
fn apply_key_and_tap_agree() {
    // The strip's dispatch and the direct mapping must not drift apart.
    let l = layout();
    for (slot, key) in softkeys::keys_for(Page::PlanView).iter().enumerate() {
        let Some(key) = key else { continue };
        let mut by_tap = ViewState::default();
        let mut direct = ViewState::default();
        let (x, y) = key_point(&l, slot);
        tap(&mut by_tap, &l, x, y, 5, 0);
        apply_key_at(&mut direct, *key, 5, 0, NOW);
        assert_eq!(by_tap.page, direct.page, "slot {slot}");
        assert_eq!(by_tap.range_mnm, direct.range_mnm, "slot {slot}");
        assert_eq!(by_tap.orientation, direct.orientation, "slot {slot}");
        assert_eq!(
            by_tap.show_weather_underlay, direct.show_weather_underlay,
            "slot {slot}"
        );
        assert_eq!(
            by_tap.altitude_filter, direct.altitude_filter,
            "slot {slot}"
        );
    }
}

#[test]
fn the_altitude_key_steps_through_every_band_and_returns() {
    // One key, four states, so the only way back to where you started is all the way round.
    // A cycle that dead-ended would leave a filter engaged with no way to open it up.
    let l = layout();
    let mut view = ViewState::default();
    let start = view.altitude_filter;

    let (x, y) = point_of(&l, Page::PlanView, SoftKey::CycleAltitudeFilter);
    let mut seen = vec![start];
    for _ in 1..AltitudeFilter::ALL.len() {
        tap(&mut view, &l, x, y, 5, 0);
        assert!(
            !seen.contains(&view.altitude_filter),
            "{:?} came round twice before the cycle closed",
            view.altitude_filter
        );
        seen.push(view.altitude_filter);
    }
    tap(&mut view, &l, x, y, 5, 0);
    assert_eq!(view.altitude_filter, start, "the cycle must close");
    assert_eq!(seen.len(), AltitudeFilter::ALL.len());
}

#[test]
fn the_altitude_key_does_not_disturb_the_range() {
    // The two culls are independent.
    let l = layout();
    let mut view = ViewState::default();
    let (x, y) = point_of(&l, Page::PlanView, SoftKey::CycleAltitudeFilter);
    tap(&mut view, &l, x, y, 5, 0);
    assert_eq!(view.range_mnm, ViewState::default().range_mnm);
    assert_eq!(view.orientation, ViewState::default().orientation);
    assert_ne!(view.altitude_filter, ViewState::default().altitude_filter);
}

/// The smallest chart there is: one empty cell, and a square of airspace around the origin.
fn square_chart() -> Chart {
    let mut b: Vec<u8> = Vec::new();
    b.extend(b"AVCHART1");
    b.extend(2u16.to_le_bytes());
    b.extend([0u8; 6]);
    for count in [0u32, 1, 1, 4, 0, 0, 0, 0] {
        b.extend(count.to_le_bytes());
    }
    for v in [0u16, 0, 1, 1] {
        b.extend(v.to_le_bytes());
    }
    let mut at = 96u32;
    for length in [8u32, 0, 40, 8, 32, 0, 0, 0] {
        b.extend(at.to_le_bytes());
        at += length;
    }
    b.resize(96, 0);
    b.extend([0u8; 8]);
    for edge in [-1000i32, 1000, -1000, 1000] {
        b.extend(edge.to_le_bytes());
    }
    b.extend(0u32.to_le_bytes());
    b.extend(1u16.to_le_bytes());
    b.extend([2u8, 0]);
    b.extend(500i32.to_le_bytes());
    b.extend(1500i32.to_le_bytes());
    b.extend(b"TEST\0\0\0\0");
    b.extend(0u32.to_le_bytes());
    b.extend(4u32.to_le_bytes());
    for (lat, lon) in [(-1000i32, -1000i32), (1000, -1000), (1000, 1000), (-1000, 1000)] {
        b.extend(lat.to_le_bytes());
        b.extend(lon.to_le_bytes());
    }
    Chart::from_bytes(b).expect("a good chart")
}

/// North-up, with this position at the centre.
fn around(at: LatLon) -> Projection {
    make_projection(at, UNIT, None, &ViewState::default(), &layout())
}

#[test]
fn a_tap_on_drawn_airspace_opens_its_card_and_a_miss_closes_it() {
    let l = layout();
    let chart = square_chart();
    let inside = LatLon {
        lat_e9: 100_000,
        lon_e9: 200_000,
    };
    let outside = LatLon {
        lat_e9: 5_000_000,
        lon_e9: 0,
    };
    let over = |at| {
        Some(MapTap {
            chart: &chart,
            projection: around(at),
        })
    };
    let theme = Theme::dark();
    let (x, y) = (l.center.0, l.center.1);
    let mut view = ViewState {
        map_layers: MapLayers::Full,
        ..Default::default()
    };

    handle_tap(&theme, &l, &mut view, over(inside), x, y, 0, NOW);
    let card = view.inspect.expect("a card");
    assert_eq!(card.subject, Inspected::Airspace(inside));
    assert_eq!(card.opened, NOW);

    handle_tap(&theme, &l, &mut view, over(outside), x, y, 0, NOW);
    assert!(view.inspect.is_none(), "a miss dismisses it");
    assert_eq!(view.range_mnm, ViewState::default().range_mnm);

    // What is not drawn cannot be inspected.
    view.map_layers = MapLayers::Airports;
    handle_tap(&theme, &l, &mut view, over(inside), x, y, 0, NOW);
    assert!(view.inspect.is_none());
    handle_tap(&theme, &l, &mut view, None, x, y, 0, NOW);
    assert!(view.inspect.is_none());
}

#[test]
fn a_key_press_leaves_an_open_card_alone() {
    let l = layout();
    let chart = square_chart();
    let at = LatLon {
        lat_e9: 0,
        lon_e9: 0,
    };
    let theme = Theme::dark();
    let mut view = ViewState {
        map_layers: MapLayers::Full,
        ..Default::default()
    };
    let map = MapTap {
        chart: &chart,
        projection: around(at),
    };
    handle_tap(&theme, &l, &mut view, Some(map), l.center.0, l.center.1, 0, NOW);
    let card = view.inspect;
    assert!(card.is_some());
    let (x, y) = point_of(&l, Page::PlanView, SoftKey::RangeUp);
    handle_tap(&theme, &l, &mut view, None, x, y, 0, NOW);
    assert_eq!(view.inspect, card);
    assert_eq!(view.range_mnm, 20_000);
}

#[test]
fn a_card_goes_away_by_itself() {
    let mut view = ViewState::default();
    view.inspect = Some(avionics::view::Inspect {
        subject: Inspected::Airport(3),
        opened: NOW,
    });
    view.tick_inspect(10 * SECOND, NOW + 10 * SECOND);
    assert!(view.inspect.is_some());
    view.tick_inspect(10 * SECOND, NOW + 10 * SECOND + 1);
    assert!(view.inspect.is_none());
}
