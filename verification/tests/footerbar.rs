use avionics::ahrspage::HeadingSource;
use avionics::footerbar::{
    band_colour, baseline, g_text, heading_text, motion_text, selection_text,
    show_navigation_banner, weather_hint, NAVIGATION_BANNER,
};
use avionics::layout::Layout;
use avionics::theme::Theme;
use avionics::view::{FrameStats, MapLayers, Page, ViewState};

fn layout() -> Layout {
    Layout::for_size(800_000, 480_000, &Theme::dark())
}

#[test]
fn the_bar_spans_the_whole_panel_and_clears_both_strips() {
    let l = layout();
    assert_eq!(l.footer_y0(), l.strip_y1(), "the strips must stop at the bar");
    assert!(l.footer_y0() > l.strip_y0());
    assert_eq!(l.footer_y0() + l.footer_height, l.height);
}

#[test]
fn text_sits_inside_the_bar() {
    let l = layout();
    let y = baseline(&l);
    assert!(y > l.footer_y0() && y < l.height, "baseline {y} outside the bar");
}

#[test]
fn only_drawn_airspace_raises_the_caveat() {
    let mut view = ViewState::default();
    assert!(!show_navigation_banner(&view, true), "airports make no claim");
    view.map_layers = MapLayers::Full;
    assert!(show_navigation_banner(&view, true));
    assert!(!show_navigation_banner(&view, false), "nothing to draw it from");
    view.page = Page::Weather;
    assert!(!show_navigation_banner(&view, true));
    assert_eq!(NAVIGATION_BANNER, "AIRSPACE \u{2014} NOT FOR NAVIGATION");
}

#[test]
fn motion_shows_dashes_for_what_is_not_known() {
    assert_eq!(
        motion_text(Some(57_000), Some(119_600)),
        "TRK 057\u{00B0}   GS 120 kt"
    );
    assert_eq!(motion_text(None, None), "TRK ---\u{00B0}   GS -- kt");
}

#[test]
fn the_selection_names_range_and_orientation() {
    assert_eq!(selection_text(&ViewState::default()), "10 nm   N-UP   ");
}

#[test]
fn the_band_is_amber_only_while_it_withholds_traffic() {
    let theme = Theme::dark();
    let mut stats = FrameStats::default();
    assert_eq!(band_colour(&stats, &theme), theme.text_secondary);
    stats.targets_outside_altitude = 1;
    assert_eq!(band_colour(&stats, &theme), theme.caution);
}

#[test]
fn the_weather_hint_says_what_the_keys_do() {
    let mut view = ViewState {
        page: Page::Weather,
        ..Default::default()
    };
    assert_eq!(weather_hint(&view, 10, 8), "");
    assert_eq!(weather_hint(&view, 10, 30), "UP / DOWN to scroll");
    view.weather_scroll = 20;
    assert_eq!(weather_hint(&view, 10, 30), "DOWN wraps to the top");
    view.weather_decode = true;
    assert_eq!(weather_hint(&view, 10, 30), "UP / DOWN for the next report");
}

#[test]
fn headings_keep_their_caption_and_g_its_sign() {
    assert_eq!(
        heading_text(HeadingSource::Track(57_000)),
        "TRK gps  057\u{00B0}"
    );
    assert_eq!(g_text(Some(1_004)), "G 1.00");
    assert_eq!(g_text(Some(-500)), "G -0.50");
    assert_eq!(g_text(None), "G ---");
}
