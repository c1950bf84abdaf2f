use avionics::layout::Layout;
use avionics::softkeys::{colour, hit, key_at, keys_for, label, slot_rect, SoftKey, SLOTS};
use avionics::theme::Theme;
use avionics::threat::AltitudeFilter;
use avionics::view::{CageState, FrameStats, MapLayers, Page, ViewState};


/// The panel this is laid out for: 800 by 480 pixels.
fn layout() -> Layout {
    Layout::for_size(800_000, 480_000, &Theme::dark())
}

#[test]
fn navigation_is_never_on_this_strip() {
    // Page selection lives on the opposite edge, and nothing here may move the pilot off the page they are on — so a
    // mispress on the function strip is always recoverable without hunting for where PAGE
    // went on the page you landed on.
    for page in Page::ALL {
        for key in keys_for(page).into_iter().flatten() {
            assert!(
                !matches!(key, SoftKey::ScrollUp | SoftKey::ScrollDown)
                    || page == Page::Weather,
                "{key:?} does not belong on {page:?}"
            );
        }
    }
    // And every page's keys are drawn from its own page's set, never another's.
    assert!(keys_for(Page::Ahrs)
        .into_iter()
        .flatten()
        .all(|k| k == SoftKey::CageAhrs));
}

#[test]
fn taps_right_of_the_strip_are_not_key_presses() {
    // The strip is on the left, so everything from the content area rightwards belongs to the
    // page or to the page strip.
    let l = layout();
    // Probe the centre of slot 1 rather than a fixed y: the strip's top moves with the status bar
    // height, which moves with the font size.
    let (_, y, _, h) = slot_rect(&l, 1);
    let mid = y + h / 2;

    assert_eq!(hit(&l, l.content_x0, mid), None, "content area");
    assert_eq!(hit(&l, l.content_x1 + 5_000, mid), None, "page strip");
    assert_eq!(hit(&l, l.width - 1_000, mid), None);
    assert_eq!(
        hit(&l, l.content_x0 - 1_000, mid),
        Some(1),
        "inside the strip"
    );
}

#[test]
fn softkeys_neither_bar_belongs_to_this_strip() {
    // The strip runs between the two bars, not the full height of the panel. Both ends are
    // pinned: a press in the status bar or the footer bar is not a key press, even though it
    // is inside the strip's columns.
    let l = layout();
    let x = l.strip_width / 2;
    assert_eq!(hit(&l, x, 0), None, "top of the status bar");
    assert_eq!(hit(&l, x, l.status_bar_height - 1), None, "status bar");
    assert_eq!(hit(&l, x, l.footer_y0()), None, "top of the footer bar");
    assert_eq!(hit(&l, x, l.height - 1_000), None, "footer bar");

    assert_eq!(
        hit(&l, x, l.strip_y0()),
        Some(0),
        "first pixel below the bar is slot 0"
    );
    assert_eq!(hit(&l, x, l.strip_y1() - 1), Some(SLOTS - 1));
}

#[test]
fn every_slot_is_reachable_and_none_overlap() {
    let l = layout();
    for slot in 0..SLOTS {
        let (x, y, w, h) = slot_rect(&l, slot);
        // Probe the centre of each slot.
        assert_eq!(
            hit(&l, x + w / 2, y + h / 2),
            Some(slot),
            "slot {slot} centre did not hit itself"
        );
    }
}

#[test]
fn the_bottom_edge_does_not_index_past_the_last_slot() {
    let l = layout();
    assert_eq!(
        hit(&l, l.strip_width / 2, l.strip_y1() - 1),
        Some(SLOTS - 1)
    );
}

#[test]
fn slots_tile_the_strip_without_gaps() {
    let l = layout();
    let mut expected_y = l.strip_y0();
    for slot in 0..SLOTS {
        let (_, y, _, h) = slot_rect(&l, slot);
        assert!(
            (y - expected_y).abs() < 1,
            "slot {slot} starts at a gap"
        );
        expected_y += h;
    }
    assert!((expected_y - l.strip_y1()).abs() < 1);
}

#[test]
fn strip_is_wide_enough_to_hit_on_the_target_panel() {
    // 800x480 is the panel this was designed against; a key must stay finger-sized.
    let l = layout();
    let (_, _, w, h) = slot_rect(&l, 0);
    assert!(w >= 72_000, "strip too narrow to hit reliably: {w}");
    assert!(h >= 60_000, "keys too short to hit reliably: {h}");
}

#[test]
fn orientation_key_reports_current_state_not_the_pending_one() {
    let mut view = ViewState::default();
    let before = label(SoftKey::ToggleOrientation, &view);
    view.toggle_orientation();
    assert_ne!(before, label(SoftKey::ToggleOrientation, &view));
}

#[test]
fn the_attitude_page_offers_level_only() {
    let keys = keys_for(Page::Ahrs);
    // LEVEL sits in the last slot, the furthest point on the strip from where a hand rests
    // reaching for anything else. Asserted as "the last slot" rather than as a number, so
    // growing the strip moves it instead of stranding it in the middle.
    assert_eq!(keys[SLOTS - 1], Some(SoftKey::CageAhrs));
    assert!(
        keys[..SLOTS - 1].iter().all(Option::is_none),
        "nothing else on this page is adjustable"
    );
}

#[test]
fn the_weather_page_offers_scrolling_and_decoding() {
    let keys = keys_for(Page::Weather);
    assert_eq!(keys[0], Some(SoftKey::ScrollUp));
    assert_eq!(keys[1], Some(SoftKey::ScrollDown));
    assert_eq!(keys[2], Some(SoftKey::ToggleDecode));
    assert!(
        keys[3..].iter().all(Option::is_none),
        "nothing invented to fill the spare slots"
    );
}

#[test]
fn the_plan_view_keys_are_pinned_in_order() {
    // Every key on this page and where it sits. The point is not the list, it is that moving a
    // key has to be a deliberate edit here: these are pressed by feel in turbulence, and a key
    // that quietly migrates because a neighbour was added is the failure this prevents.
    let keys = keys_for(Page::PlanView);
    assert_eq!(
        keys,
        [
            Some(SoftKey::RangeUp),
            Some(SoftKey::RangeDown),
            Some(SoftKey::CycleAltitudeFilter),
            Some(SoftKey::ToggleOrientation),
            Some(SoftKey::ToggleUnderlay),
            Some(SoftKey::CycleMapLayers),
        ]
    );
    assert!(keys.iter().all(Option::is_some), "the strip is full");
}

#[test]
fn the_map_key_reports_the_layer_it_is_in() {
    // Same rule as the orientation and altitude keys: labelled with where you are, not with
    // where pressing it would take you.
    let mut view = ViewState::default();
    for _ in 0..MapLayers::ALL.len() {
        assert_eq!(
            label(SoftKey::CycleMapLayers, &view),
            view.map_layers.label()
        );
        view.cycle_map_layers();
    }
    // ... and the cycle returns to where it started rather than stranding a state.
    assert_eq!(view.map_layers, ViewState::default().map_layers);
}

#[test]
fn the_altitude_key_reports_the_band_it_is_in() {
    // Same rule as the orientation key: a toggle is labelled with where you are, not where
    // pressing it would take you.
    let mut view = ViewState::default();
    for _ in 0..AltitudeFilter::ALL.len() {
        assert_eq!(
            label(SoftKey::CycleAltitudeFilter, &view),
            view.altitude_filter.label()
        );
        view.cycle_altitude_filter();
    }
}

#[test]
fn a_key_is_found_by_its_slot() {
    let view = ViewState::default();
    assert_eq!(key_at(&view, 0), Some(SoftKey::RangeUp));
    assert_eq!(key_at(&view, 5), Some(SoftKey::CycleMapLayers));
    assert_eq!(key_at(&view, 6), None);
    let ahrs = ViewState {
        page: Page::Ahrs,
        ..ViewState::default()
    };
    assert_eq!(key_at(&ahrs, 0), None);
}

#[test]
fn keys_are_labelled_with_what_they_do() {
    let mut view = ViewState::default();
    assert_eq!(label(SoftKey::RangeUp, &view), "RNG +");
    assert_eq!(label(SoftKey::RangeDown, &view), "RNG -");
    assert_eq!(label(SoftKey::ToggleUnderlay, &view), "WX ON");
    view.show_weather_underlay = false;
    assert_eq!(label(SoftKey::ToggleUnderlay, &view), "WX OFF");
}

#[test]
fn an_underlay_that_is_on_is_drawn_as_on() {
    let theme = Theme::dark();
    let stats = FrameStats::default();
    let mut view = ViewState::default();
    assert_eq!(
        colour(SoftKey::ToggleUnderlay, &view, &stats, &theme),
        theme.good
    );
    view.show_weather_underlay = false;
    assert_eq!(
        colour(SoftKey::ToggleUnderlay, &view, &stats, &theme),
        theme.text_primary
    );
    view.cage = CageState::Done { ok: false };
    assert_eq!(
        colour(SoftKey::CageAhrs, &view, &stats, &theme),
        theme.warning
    );
}
