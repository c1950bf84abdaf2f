use avionics::chart::{
    bounds_around, Airport, Airspace, Bounds, Class, FreqKind, Frequency, Kind, Runway, Tier,
    FLAG_HARD_SURFACE, FLAG_LOWER_SURFACE,
};
use avionics::domain::{LatLon, WeatherProduct, WeatherText};
use avionics::layout::Layout;
use avionics::maplayer::{
    age_text, airport_card, airspace_card, airspace_row, facts_line, fit_entries, format_visibility,
    frequency_entries, has_centre, labelled, nearest_symbol, on_panel, place_text, station_weather,
    symbol_radius, tick_count, tick_half_length, vertical_limits, visible_radius_nm, weather_line, StationWeather,
    CARD_H, CARD_H_WX, CARD_ROWS, CARD_W, CATEGORY_COLUMN, LABEL_RANGE, TICK_RANGE,
};
use avionics::planview::make_projection;
use avionics::projection::Projection;
use avionics::metar::{summarise, FlightCategory};
use avionics::single::Single;
use avionics::theme::Theme;
use avionics::view::{MapLayers, ViewState};

const NOW: u64 = 1_000_000_000_000_000;
const SECOND: u64 = 1_000_000_000;
const MINUTE: u64 = 60 * SECOND;

fn layout() -> Layout {
    Layout::for_size(800_000, 480_000, &Theme::dark())
}

fn view_at(range_mnm: u32, layers: MapLayers) -> ViewState {
    ViewState {
        range_mnm,
        map_layers: layers,
        ..ViewState::default()
    }
}

fn airport(label: &str, lat: f64, lon: f64, tier: Tier) -> Airport {
    let mut bytes = [0u8; 8];
    for (i, b) in label.bytes().enumerate() {
        bytes[i] = b;
    }
    Airport {
        index: 0,
        position: LatLon {
            lat_e9: (lat * 1e9) as i64,
            lon_e9: (lon * 1e9) as i64,
        },
        label: bytes,
        elevation_ft: 187,
        runway_ft: 5998,
        kind: Kind::Medium,
        tier,
        flags: FLAG_HARD_SURFACE,
        runway_first: 0,
        runway_count: 0,
        freq_first: 0,
        freq_count: 0,
        name_off: 0,
        name_len: 0,
    }
}

#[test]
fn off_panel_symbols_are_skipped_but_edge_ones_survive() {
    let l = layout();
    assert!(
        on_panel(&l, l.center.0, l.center.1),
        "the centre is on the panel"
    );
    assert!(on_panel(&l, l.content_x0, l.strip_y0()), "top-left corner");
    assert!(
        on_panel(&l, l.content_x0 - 6_000, l.center.1),
        "a symbol straddling the strip edge is still drawn"
    );
    assert!(
        !on_panel(&l, l.content_x0 - 40_000, l.center.1),
        "well under the strip"
    );
    assert!(
        !on_panel(&l, l.center.0, l.height + 5_000),
        "below the panel"
    );
}

#[test]
fn overlapping_symbols_resolve_to_the_nearest() {
    // At close range symbols crowd. Returning the first match would make the answer depend on where
    // an airport happens to sit in the file.
    let l = layout();
    let view = view_at(20_000, MapLayers::Airports);
    let (cx, cy) = (l.center.0, l.center.1);
    let symbols = vec![
        (cx, cy),
        (cx + 10_000, cy),
        (cx + 10_000, cy + 9_000),
        (cx - 8_000, cy - 8_000),
    ];
    let mut probed = 0usize;
    for (i, (x, y)) in symbols.iter().enumerate() {
        assert_eq!(
            nearest_symbol(&view, &l, &symbols, *x, *y),
            Some(i),
            "symbol {i} resolved to one that is further away"
        );
        probed += 1;
    }
    assert!(probed > 3);
}

fn reports(list: &[(&str, &str, &str)]) -> Vec<WeatherText> {
    list.iter()
        .map(|(product, location, body)| WeatherText {
            product: match *product {
                "METAR" => WeatherProduct::Metar,
                "TAF" => WeatherProduct::Taf,
                _ => WeatherProduct::Other,
            },
            location: location.to_string(),
            body: body.to_string(),
            received: NOW,
        })
        .collect()
}

/// A number in single precision, and back.
fn single(v: f32) -> Single {
    let (bits, negative) = (v.to_bits() & 0x7fff_ffff, v.is_sign_negative());
    let (step, places) = ((bits >> 23) as i32, bits & 0x7f_ffff);
    match step {
        255 if places > 0 => Single::NotANumber,
        255 => Single::Infinite { negative },
        0 => Single::Finite { negative, mantissa: places, exponent: -149 },
        _ => Single::Finite { negative, mantissa: places | 0x80_0000, exponent: step - 150 },
    }
}

fn miles(v: Option<Single>) -> Option<f32> {
    v.map(|v| match v {
        Single::Finite { negative, mantissa, exponent } => {
            let size = (mantissa as f64 * 2f64.powi(exponent)) as f32;
            if negative { -size } else { size }
        }
        Single::Infinite { negative: false } => f32::INFINITY,
        Single::Infinite { negative: true } => f32::NEG_INFINITY,
        Single::NotANumber => f32::NAN,
    })
}

#[test]
fn a_stations_metar_is_found_by_its_icao_identifier() {
    // The join the whole feature rests on: the symbol says MMU, the METAR says KMMU.
    let state = reports(&[(
        "METAR",
        "KMMU",
        "METAR KMMU 021656Z 15014KT 10SM BKN031 27/22 A2993",
    )]);

    let found = station_weather(&state, "KMMU", NOW).expect("KMMU has a METAR");
    assert_eq!(found.summary.ceiling_ft, Some(3100));
    assert_eq!(miles(found.summary.visibility_sm), Some(10.0));
    assert_eq!(found.summary.category, Some(FlightCategory::Vfr));
    assert!(!found.has_taf);

    // The short label must not match, or every airport would show its neighbour's weather.
    assert!(station_weather(&state, "MMU", NOW).is_none());
    assert!(station_weather(&state, "KEWR", NOW).is_none());
}

#[test]
fn a_field_with_no_station_identifier_matches_nothing() {
    // 18% of fields have no ICAO code. An empty string must not match an empty `location`, or those
    // fields would all show the same arbitrary report.
    let state = reports(&[("METAR", "", "METAR 021656Z 10SM CLR")]);
    assert!(station_weather(&state, "", NOW).is_none());
}

#[test]
fn a_taf_alone_is_not_reported_as_weather() {
    // The card's line is built from the METAR. A TAF on its own is a forecast with no observation
    // behind it, and showing a category derived from nothing would be a guess.
    let state = reports(&[("TAF", "KMMU", "TAF KMMU 021543Z 0216/0318 15010KT P6SM")]);
    assert!(station_weather(&state, "KMMU", NOW).is_none());
}

#[test]
fn a_taf_alongside_a_metar_is_flagged() {
    let state = reports(&[
        (
            "METAR",
            "KEWR",
            "METAR KEWR 021651Z 18008KT 10SM FEW250 28/19 A2994",
        ),
        (
            "TAF",
            "KEWR",
            "TAF KEWR 021543Z 0216/0318 15010G18KT P6SM FEW070",
        ),
    ]);
    let found = station_weather(&state, "KEWR", NOW).expect("KEWR");
    assert!(found.has_taf);
}

#[test]
fn the_station_match_is_case_insensitive() {
    let state = reports(&[("METAR", "kmmu", "METAR KMMU 021656Z 10SM CLR 27/22")]);
    assert!(station_weather(&state, "KMMU", NOW).is_some());
}

#[test]
fn an_unreadable_report_yields_no_category_rather_than_vfr() {
    // Implying VFR from a report that could not be read is the failure worth designing out.
    let state = reports(&[("METAR", "KAAA", "METAR KAAA 021656Z AUTO")]);
    let found = station_weather(&state, "KAAA", NOW).expect("KAAA");
    assert_eq!(found.summary.category, None);
}

#[test]
fn a_report_is_as_old_as_its_reception() {
    let state = reports(&[("METAR", "KMMU", "METAR KMMU 021656Z 10SM CLR 27/22")]);
    let found = station_weather(&state, "KMMU", NOW + 7 * MINUTE).expect("KMMU");
    assert_eq!(found.age, 7 * MINUTE);
}

fn line_for(body: &str, age: u64, has_taf: bool) -> String {
    weather_line(&StationWeather {
        summary: summarise(body),
        age,
        has_taf,
    })
}

#[test]
fn the_weather_line_leads_with_wind() {
    // The card names the runways two lines above, and wind against runway is the pairing a pilot is
    // reading for, so it comes before ceiling and visibility, not after.
    let line = line_for(
        "METAR KMMU 021656Z 15014G21KT 10SM BKN031 27/22 A2993",
        4 * 60 * SECOND,
        false,
    );
    assert_eq!(line, "  150\u{00B0} 14G21  3100 ft  10 sm  4m");

    let calm = line_for(
        "METAR KMMU 021656Z 00000KT 10SM CLR 27/22 A2993",
        60 * SECOND,
        true,
    );
    assert_eq!(calm, "  CALM  10 sm  1m  TAF");
}

#[test]
fn a_line_with_no_category_names_the_product_instead_of_going_blank() {
    // No badge is drawn in this case, so without the word the line would start with a gap.
    let line = line_for("METAR KAAA 021656Z 09005KT", 120 * SECOND, false);
    assert!(line.starts_with("METAR"), "{line}");
    assert!(line.contains("090\u{00B0} 05"), "{line}");
}

/// Fit entries as if every character were `per_char` wide.
fn fit_with(entries: &[&str], per_char: i64, room: i64) -> String {
    let entries: Vec<String> = entries.iter().map(|s| s.to_string()).collect();
    let widths: Vec<i64> = (0..entries.len())
        .map(|k| entries[..=k].join("  ").chars().count() as i64 * per_char)
        .collect();
    fit_entries(&entries, &widths, room)
}

#[test]
fn the_frequency_line_drops_entries_from_the_least_useful_end() {
    // The file sorts most-useful-first, so dropping from the end drops APP before CTAF.
    let all = ["TWR 118.1", "GND 121.7", "ATIS 124.25", "APP 127.6"];
    // 10 px a character: three entries are 33 characters and fit in 340; four are 44 and do not.
    assert_eq!(
        fit_with(&all, 10_000, 340_000),
        "TWR 118.1  GND 121.7  ATIS 124.25",
        "the fourth should be dropped, not the first"
    );
    assert_eq!(
        fit_with(&all, 10_000, 1_000_000),
        "TWR 118.1  GND 121.7  ATIS 124.25  APP 127.6",
        "all four when there is room"
    );
    assert_eq!(fit_with(&all, 10_000, 210_000), "TWR 118.1  GND 121.7");
    assert_eq!(
        fit_with(&all, 10_000, 100_000),
        "TWR 118.1",
        "tower survives longest"
    );
}

#[test]
fn one_entry_too_wide_is_still_shown() {
    // A card with one frequency running a little long is more use than a card with none, and the
    // caller has already put the most useful one first.
    assert_eq!(fit_with(&["CTAF 122.8"], 6_600, 10_000), "CTAF 122.8");
    assert_eq!(fit_with(&[], 6_600, 500_000), "");
}

#[test]
fn the_worst_weather_line_still_fits_the_card() {
    // Measured at 6.6 px per character for the bold face at the tag size on the rendered panel. The
    // budget matters because the line would grow silently.
    const MPX_PER_CHAR: i64 = 6_600;
    let worst = line_for(
        "METAR KAAA 021656Z 36025G40KT 1/4SM FG VV001 M01/M02 A2960",
        72 * 60 * SECOND,
        true,
    );
    let width = CATEGORY_COLUMN + worst.chars().count() as i64 * MPX_PER_CHAR;
    let available = CARD_W - 7_000 * 2;
    assert!(
        width <= available,
        "worst line {worst:?} needs {width} of {available}"
    );
    // And it really is the worst case: gusting, three-digit ceiling, fractional visibility, an
    // hours-old report and a TAF.
    assert!(
        worst.contains('G') && worst.contains("TAF") && worst.contains('h'),
        "{worst}"
    );
}

#[test]
fn report_age_reads_the_way_a_pilot_would_say_it() {
    assert_eq!(age_text(0), "0m");
    assert_eq!(age_text(59 * SECOND), "0m");
    assert_eq!(age_text(4 * 60 * SECOND), "4m");
    assert_eq!(age_text(59 * 60 * SECOND), "59m");
    assert_eq!(age_text(60 * 60 * SECOND), "1h00m");
    assert_eq!(age_text(72 * 60 * SECOND), "1h12m");
}

#[test]
fn whole_miles_of_visibility_lose_the_decimal() {
    let text = |v: f32| format_visibility(single(v));
    assert_eq!(text(10.0), "10");
    assert_eq!(text(3.0), "3");
    assert_eq!(text(0.5), "0.50");
    assert_eq!(text(1.75), "1.75");
    let written = |v: f32| {
        if (v - v.round()).abs() < 0.05 {
            format!("{:.0}", v.round())
        } else {
            format!("{v:.2}")
        }
    };
    for v in [
        0.0f32, 0.125, 0.375, 0.05, 0.049, 0.95, 0.9501, 1.045, 2.05, 2.5, 3.5, 0.005, 0.015, 99.995,
        8388607.5, 16777216.0, 1e9, 1e30, f32::MAX, 1e-45, 1e-20, f32::INFINITY, f32::NAN,
    ] {
        assert_eq!(text(v), written(v), "{v}");
        if !v.is_nan() {
            assert_eq!(text(-v), written(-v), "{}", -v);
        }
    }
}

fn volume(class: Class, flags: u8, lower_ft: i32, upper_ft: i32) -> Airspace {
    Airspace {
        class,
        label: *b"TEB\0\0\0\0\0",
        lower_ft,
        upper_ft,
        flags,
        ring_first: 0,
        ring_count: 0,
        bounds: Bounds {
            lat_min: 0,
            lat_max: 0,
            lon_min: 0,
            lon_max: 0,
        },
    }
}

#[test]
fn vertical_limits_read_the_way_a_sectional_states_them() {
    // A surface floor says SFC, not the meaningless number `lower_ft` holds for those volumes.
    let d = volume(Class::D, FLAG_LOWER_SURFACE, -9999, 1500);
    assert!(d.lower_is_surface());
    assert!(
        vertical_limits(&d).starts_with("SFC - "),
        "{}",
        vertical_limits(&d)
    );
    assert_eq!(vertical_limits(&d), "SFC - 1500 ft");

    let b = volume(Class::B, 0, 1800, 7000);
    assert!(!b.lower_is_surface());
    assert_eq!(
        vertical_limits(&b),
        format!("{} - {} ft", b.lower_ft, b.upper_ft)
    );
}

#[test]
fn an_airspace_row_lines_its_limits_up() {
    let d = volume(Class::D, FLAG_LOWER_SURFACE, 0, 1500);
    let row = airspace_row(&d);
    assert!(row.starts_with("TEB     "), "{row:?}");
    assert!(row.ends_with("SFC - 1500 ft"), "{row:?}");
}

#[test]
fn the_airspace_card_never_promises_more_rows_than_it_has() {
    // The card grows to fit what it shows, capped at the rows that exist. A stack deeper than the
    // card is truncated rather than drawn past the border.
    let l = layout();
    for (shown, row) in CARD_ROWS.iter().enumerate().skip(1) {
        let height = row + 10_000;
        let y0 = l.footer_y0() - l.margin - height;
        assert!(
            y0 > l.strip_y0(),
            "{shown} rows starts above the status bar"
        );
        assert!(
            y0 + height < l.footer_y0(),
            "{shown} rows overlaps the footer"
        );
        assert!(*row < height, "the last row is inside the card");
        assert_eq!(airspace_card(&l, shown), ((l.content_left(), y0, CARD_W, height), shown));
    }
    assert_eq!(airspace_card(&l, 9).1, 4);
}

#[test]
fn the_card_grows_for_weather_and_still_clears_the_footer() {
    // The taller card is the one that can collide with the bar below it.
    let l = layout();
    let (x0, y0, _, height) = airport_card(&l, true);
    assert_eq!(x0, l.content_left());
    assert_eq!(y0, l.footer_y0() - l.margin - CARD_H_WX);
    assert_eq!(height, CARD_H_WX);
    assert!(
        y0 > l.strip_y0(),
        "the weather card starts above the status bar"
    );
    assert!(
        y0 + CARD_H_WX < l.footer_y0(),
        "the weather card overlaps the footer"
    );
    assert!(x0 + CARD_W <= l.content_x1);
    // Every row has somewhere to sit inside the card it belongs to.
    for (index, row) in CARD_ROWS.iter().enumerate() {
        let card = if index == 4 { CARD_H_WX } else { CARD_H };
        assert!(
            *row < card,
            "row {index} at {row} is outside a card of {card}"
        );
        assert!(*row > 0, "row {index} is above the card");
    }
}

#[test]
fn the_card_fits_inside_the_content_area_and_clears_the_footer() {
    let l = layout();
    let (x0, y0, _, _) = airport_card(&l, false);
    assert_eq!(y0, l.footer_y0() - l.margin - CARD_H);
    assert!(x0 >= l.content_x0, "card starts left of the content area");
    assert!(x0 + CARD_W <= l.content_x1, "card runs past the page strip");
    assert!(y0 > l.strip_y0(), "card starts above the status bar");
    assert!(y0 + CARD_H < l.footer_y0(), "card overlaps the footer bar");
    // And it leaves most of the plan view alone: own-ship is at the centre.
    assert!(
        x0 + CARD_W < l.center.0 + l.content_width() / 2,
        "card covers the right half"
    );
}

#[test]
fn runway_ticks_are_dropped_at_ranges_where_they_cannot_show_an_angle() {
    // At 40 nm one pixel is 0.85 nm, so a 5,000 ft runway is 4 px, shorter than the symbol it sits
    // inside. A tick that cannot show an angle is only ink.
    for range in ViewState::RANGES {
        let drawn = range <= TICK_RANGE;
        assert_eq!(
            drawn,
            range <= 20_000,
            "range {range} changed sides of the tick threshold"
        );
        assert_eq!(tick_count(range, 3) > 0, drawn);
    }
    assert_eq!(tick_count(5_000, 3), 2, "the two longest");
    assert_eq!(tick_count(5_000, 1), 1);
}

#[test]
fn labels_are_confined_to_the_ranges_where_they_can_be_read() {
    // Not a rendering test: a statement of the rule, so a later change to the ranges has to decide
    // deliberately whether the new range gets labels.
    let l = layout();
    let theme = Theme::dark();
    for range in ViewState::RANGES {
        let is_labelled = range <= LABEL_RANGE;
        assert_eq!(
            is_labelled,
            range <= 10_000,
            "range {range} changed which side of the label threshold it is on"
        );
        assert_eq!(
            labelled(range, Tier::Major, &l, &theme, l.center.0 + 60_000, l.center.1),
            is_labelled
        );
        assert!(
            !labelled(range, Tier::Major, &l, &theme, l.center.0, l.center.1),
            "a label would be drawn through own-ship"
        );
    }
}

#[test]
fn ticks_are_to_scale_between_their_limits() {
    let runway = |length_ft| Runway {
        heading_deg: 50,
        length_ft,
    };
    // 20 px to the mile: a mile of runway is 20 px long, and half of that to each side.
    assert_eq!(tick_half_length(&runway(6076), 20_000, 5_000), 10_000);
    assert_eq!(tick_half_length(&runway(1000), 20_000, 5_000), 7_000, "the floor");
    assert_eq!(tick_half_length(&runway(30_000), 100_000, 5_000), 26_000, "the ceiling");
}

#[test]
fn symbols_shrink_with_importance() {
    assert_eq!(symbol_radius(Tier::Major), 5_000);
    assert_eq!(symbol_radius(Tier::Paved), 4_000);
    assert_eq!(symbol_radius(Tier::Heliport), 3_000);
    assert!(has_centre(&airport("MMU", 40.8, -74.4, Tier::Major)));
    assert!(!has_centre(&airport("3N6", 40.8, -74.4, Tier::Minor)));
}

#[test]
fn the_card_says_where_a_field_is_and_what_it_has() {
    assert_eq!(place_text(47_400, 12_340), "047\u{00B0}  12.3 nm");
    let mmu = airport("MMU", 40.799, -74.415, Tier::Major);
    let runways = [Runway {
        heading_deg: 50,
        length_ft: 5998,
    }];
    let facts = facts_line(&mmu, &runways);
    assert!(facts.starts_with("187 ft   5998 ft 05/23"), "{facts:?}");
}

#[test]
fn frequencies_are_named_and_unnamed_ones_left_out() {
    let list = [
        Frequency {
            khz: 118_100,
            kind: FreqKind::Tower,
        },
        Frequency {
            khz: 121_975,
            kind: FreqKind::Other,
        },
        Frequency {
            khz: 124_250,
            kind: FreqKind::Atis,
        },
    ];
    assert_eq!(frequency_entries(&list), vec!["TWR 118.1", "ATIS 124.25"]);
}

/// North-up around 40 N, with the outer ring at this range.
fn projection(l: &Layout, range_mnm: u32) -> Projection {
    make_projection(
        LatLon::from_millionths(40_000_000, -74_000_000),
        766_044_443,
        None,
        &view_at(range_mnm, MapLayers::Full),
        l,
    )
}

#[test]
fn the_query_box_reaches_the_corners_of_the_screen() {
    // The rings are inscribed, so the corners of the panel are nearly twice the selected range
    // out. A box of the range, or of the range times the root of two, stops the map at an invisible
    // circle and leaves the corners bare, which reads as missing data.
    let l = layout();
    for range in ViewState::RANGES {
        let p = projection(&l, range);
        let radius = visible_radius_nm(&l, &p);
        let bounds = bounds_around(p.origin(), radius, 766_044_443);

        let corner_dx = (l.content_x1 - l.center.0).abs() as f64;
        let corner_dy = (l.center.1 - l.strip_y0()).abs() as f64;
        let corner_nm = corner_dx.hypot(corner_dy) / p.px_per_nm() as f64;

        assert!(
            radius as f64 / 1000.0 >= corner_nm - 0.01,
            "at {range} the query reaches {radius}, the corner is at {corner_nm:.1}"
        );
        let span_nm = (bounds.lat_max - bounds.lat_min) as f64 / 1e6 * 60.0 / 2.0;
        assert!(
            span_nm >= corner_nm - 0.05,
            "the box is tighter than the radius asked for"
        );
    }
}

#[test]
fn the_visible_radius_scales_with_the_range_and_not_with_the_panel_size() {
    // Two panels of different shape must each cover their own corners, and the ratio to the
    // selected range must stay put as the range changes.
    let wide = Layout::for_size(1_024_000, 600_000, &Theme::dark());
    let small = layout();
    for l in [wide, small] {
        let mut ratios = Vec::new();
        for range in ViewState::RANGES {
            ratios.push(visible_radius_nm(&l, &projection(&l, range)) as f64 / range as f64);
        }
        let first = ratios[0];
        for r in &ratios {
            assert!(
                (r - first).abs() < 1e-3,
                "ratio drifted with range: {ratios:?}"
            );
        }
        assert!(
            first > 1.0,
            "the corners are further out than the ring: {first}"
        );
    }
}
