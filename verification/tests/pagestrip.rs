use avionics::layout::Layout;
use avionics::pagestrip::{hit, key_colours, slot_rect};
use avionics::softkeys;
use avionics::theme::Theme;
use avionics::view::{Page, ViewState};


/// The panel this is laid out for: 800 by 480 pixels.
fn layout() -> Layout {
    Layout::for_size(800_000, 480_000, &Theme::dark())
}

#[test]
fn every_page_has_a_key_and_each_one_hits_itself() {
    let l = layout();
    for (slot, page) in Page::ALL.iter().enumerate() {
        let (x, y, w, h) = slot_rect(&l, slot);
        assert_eq!(
            hit(&l, x + w / 2, y + h / 2),
            Some(*page),
            "{page:?} key did not select its own page"
        );
    }
}

#[test]
fn the_content_area_is_not_the_page_strip() {
    // The gap between the two strips must belong to neither.
    let l = layout();
    assert_eq!(hit(&l, l.content_x1 - 1_000, 100_000), None);
    assert_eq!(hit(&l, l.content_x0 + 1_000, 100_000), None);
    assert_eq!(hit(&l, 0, 100_000), None, "that is the function strip");
}

#[test]
fn pagestrip_neither_bar_belongs_to_this_strip() {
    let l = layout();
    let x = l.content_x1 + 5_000;
    assert_eq!(hit(&l, x, 0), None, "top of the status bar");
    assert_eq!(hit(&l, x, l.status_bar_height - 1), None, "status bar");
    assert_eq!(hit(&l, x, l.footer_y0()), None, "top of the footer bar");
    assert_eq!(hit(&l, x, l.height - 1_000), None, "footer bar");

    assert_eq!(hit(&l, x, l.strip_y0()), Page::ALL.first().copied());
    assert_eq!(hit(&l, x, l.strip_y1() - 1), Page::ALL.last().copied());
}

#[test]
fn the_bottom_edge_does_not_index_past_the_last_page() {
    let l = layout();
    assert_eq!(
        hit(&l, l.content_x1 + 1_000, l.strip_y1() - 1),
        Page::ALL.last().copied()
    );
}

#[test]
fn keys_tile_the_strip_without_gaps() {
    let l = layout();
    let mut expected_y = l.strip_y0();
    for slot in 0..Page::ALL.len() {
        let (_, y, _, h) = slot_rect(&l, slot);
        assert!(
            (y - expected_y).abs() < 1,
            "slot {slot} starts at a gap"
        );
        expected_y += h;
    }
    assert!((expected_y - l.strip_y1()).abs() < 1);
}

#[test]
fn page_keys_are_at_least_as_hittable_as_function_keys() {
    // Navigation is the way out of anywhere, so it must never be the harder press.
    let l = layout();
    let (_, _, _, page_h) = slot_rect(&l, 0);
    let (_, _, _, fn_h) = softkeys::slot_rect(&l, 0);
    assert!(
        page_h >= fn_h,
        "page keys {page_h} shorter than function keys {fn_h}"
    );
    assert!(
        page_h >= 60_000,
        "page keys too short to hit reliably: {page_h}"
    );
}

#[test]
fn the_two_strips_do_not_overlap() {
    let l = layout();
    let (fn_x, _, fn_w, _) = softkeys::slot_rect(&l, 0);
    let (pg_x, _, _, _) = slot_rect(&l, 0);
    assert!(fn_x + fn_w <= pg_x, "the strips overlap");
    assert!(fn_x + fn_w <= l.content_x0);
    assert!(pg_x >= l.content_x1);
}

#[test]
fn the_key_of_the_page_that_is_shown_stands_out() {
    let theme = Theme::dark();
    let view = ViewState::default();
    assert_eq!(
        key_colours(Page::PlanView, &view, &theme),
        (theme.background, Some(theme.ring_label))
    );
    assert_eq!(
        key_colours(Page::Weather, &view, &theme),
        (theme.text_secondary, None)
    );
}
