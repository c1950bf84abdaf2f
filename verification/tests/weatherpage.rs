use avionics::domain::{WeatherProduct, WeatherText};
use avionics::layout::Layout;
use avionics::metar::FlightCategory;
use avionics::theme::Theme;
use avionics::view::{Page, ViewState};
use avionics::weatherpage::{
    age_colour, badge, code_colour, coloured_words, empty_notice, expansion_cell, expansion_layout,
    fit_line, fit_text, header_text, heading, meaning_room, more_text, ordered, position_text,
    priority, rows_available, scroll_text, selected, shown_offset, wrap_lines,
};

const SECOND: u64 = 1_000_000_000;
const MINUTE: u64 = 60 * SECOND;

#[test]
fn a_short_list_stays_in_one_full_width_column() {
    // The common case, and the one worth protecting: a single column gives each meaning the
    // whole panel width, so nothing has to be truncated.
    for count in 1..=20 {
        let (columns, rows) = expansion_layout(count, 24);
        assert_eq!(columns, 1, "{count} entries should not need a second column");
        assert_eq!(rows, count);
    }
}

#[test]
fn a_long_list_splits_into_balanced_columns() {
    // 27 entries into 14 and 13, not 24 and 3. Filling the first column to the bottom before
    // starting the second leaves a nearly empty column beside a full one, and pushes the last
    // rows down to the footer for no reason.
    let (columns, rows) = expansion_layout(27, 24);
    assert_eq!(columns, 2);
    assert_eq!(rows, 14);
}

#[test]
fn the_layout_never_claims_more_rows_than_it_has() {
    // `rows` indexes screen positions, so a value above `rows_available` would draw the tail
    // of each column into the footer and off the bottom of the panel.
    for count in [0, 1, 5, 27, 60, 500] {
        for available in [1, 3, 24, 40] {
            let (columns, rows) = expansion_layout(count, available);
            assert!(rows <= available, "{count} in {available}: rows {rows}");
            assert!(rows >= 1, "{count} in {available}: rows must be usable");
            assert!((1..=2).contains(&columns));
        }
    }
}

#[test]
fn overflow_is_detectable_rather_than_silent() {
    // When capacity really is short the caller draws a "+N more" note. That only works if the
    // shortfall is visible in these numbers, so check the arithmetic the caller relies on.
    let (columns, rows) = expansion_layout(60, 10);
    assert!(rows * columns < 60, "capacity should be short here");
    assert_eq!(60 - rows * columns, 40);
}

fn item(product: WeatherProduct, location: &str, body: &str, received: u64) -> WeatherText {
    WeatherText {
        product,
        location: location.to_string(),
        body: body.to_string(),
        received,
    }
}

#[test]
fn observations_come_first_and_stations_in_order() {
    let items = [
        item(WeatherProduct::Taf, "KBOS", "", 1),
        item(WeatherProduct::Metar, "KEWR", "", 1),
        item(WeatherProduct::Notam, "KABE", "", 1),
        item(WeatherProduct::Metar, "KBOS", "", 1),
    ];
    assert_eq!(ordered(&items), vec![3, 1, 0, 2]);
    assert!(priority(&WeatherProduct::Metar) < priority(&WeatherProduct::Other));
}

#[test]
fn ages_turn_amber_and_then_red() {
    let theme = Theme::dark();
    assert_eq!(age_colour(29 * MINUTE, &theme), theme.text_dim);
    assert_eq!(age_colour(30 * MINUTE, &theme), theme.caution);
    assert_eq!(age_colour(60 * MINUTE, &theme), theme.warning);
}

#[test]
fn the_lines_around_the_list_say_what_is_shown() {
    assert_eq!(
        header_text(12, Some((40, 3 * MINUTE))),
        "FIS-B TEXT  12 products   |   NEXRAD 40 blocks, 3m"
    );
    assert_eq!(scroll_text(5, 10, 30), Some("6-15 of 30".to_string()));
    assert_eq!(scroll_text(0, 10, 10), None);
    assert_eq!(position_text(2, 30, 90 * SECOND), "3 of 30   1m");
    assert_eq!(heading("METAR", "KDEN"), "METAR KDEN");
    assert_eq!(heading("NOTAM", ""), "NOTAM");
    assert_eq!(empty_notice(false).0, "WEATHER STREAM OFFLINE");
}

#[test]
fn only_observations_carry_a_badge() {
    let metar = item(WeatherProduct::Metar, "KDEN", "KDEN 291853Z 10SM OVC004", 0);
    assert_eq!(badge(&metar), Some(FlightCategory::Lifr));
    let taf = item(WeatherProduct::Taf, "KDEN", "KDEN 291853Z 10SM OVC004", 0);
    assert_eq!(badge(&taf), None);
}

#[test]
fn the_selection_stays_inside_the_list() {
    let view = ViewState {
        page: Page::Weather,
        weather_scroll: 99,
        ..Default::default()
    };
    assert_eq!(selected(&view, 4), Some(3));
    assert_eq!(selected(&view, 0), None);
    assert_eq!(shown_offset(&view, 10, 30), 20);
    assert_eq!(shown_offset(&view, 10, 3), 0);
}

#[test]
fn hazards_are_coloured_and_remarks_dimmed() {
    let theme = Theme::dark();
    let words = coloured_words("KMIA TSRA 10SM RMK TSRA", &theme);
    assert_eq!(words[1], ("TSRA", theme.warning));
    assert_eq!(words[2], ("10SM", theme.text_secondary));
    assert_eq!(words[4], ("TSRA", theme.text_dim));
    assert_eq!(code_colour("+RA", theme.text_primary, &theme), theme.caution);
    assert_eq!(code_colour("BR", theme.text_primary, &theme), theme.text_primary);
}

#[test]
fn words_are_laid_out_by_their_widths() {
    let widths = [30_000, 40_000, 50_000];
    let (at, cut) = fit_line(&widths, 5_000, 200_000);
    assert_eq!(at, vec![0, 35_000, 80_000]);
    assert_eq!(cut, None);
    let (at, cut) = fit_line(&widths, 5_000, 90_000);
    assert_eq!(at.len(), 2);
    assert_eq!(cut, Some(80_000));

    let (spots, lines) = wrap_lines(&widths, 5_000, 90_000);
    assert_eq!(spots, vec![(0, 0), (35_000, 0), (0, 1)]);
    assert_eq!(lines, 2);
}

#[test]
fn a_text_too_wide_is_cut_and_says_so() {
    // Each character and the mark are 10 px wide.
    let cut: Vec<i64> = (0..5).map(|n| (n + 2) * 10_000).collect();
    assert_eq!(fit_text("abcde", 50_000, &cut, 60_000), "abcde");
    assert_eq!(fit_text("abcde", 50_000, &cut, 40_000), "abc\u{2026}");
    assert_eq!(fit_text("abcde", 50_000, &cut, 15_000), "");
}

#[test]
fn expansions_fill_columns_top_to_bottom() {
    let theme = Theme::dark();
    let l = Layout::for_size(800_000, 480_000, &theme);
    assert!(rows_available(&theme, &l, l.strip_y0()) > 3);
    assert_eq!(expansion_cell(0, 14), (0, 0));
    assert_eq!(expansion_cell(13, 14), (0, 13));
    assert_eq!(expansion_cell(14, 14), (1, 0));
    assert_eq!(more_text(60, 2, 20), Some("+20 more".to_string()));
    assert_eq!(more_text(40, 2, 20), None);
    let one = meaning_room(&l, &theme, 1, 40_000);
    let two = meaning_room(&l, &theme, 2, 40_000);
    assert!(two.0 < one.0 && two.1 < one.1);
}
