use avionics::glossary::{codes_in, explain, lookup, ENTRIES};

#[test]
fn the_table_is_sorted_so_binary_search_finds_everything() {
    // An out-of-order entry makes its own code unfindable and nothing else fails, so this is
    // checked rather than assumed.
    for pair in ENTRIES.windows(2) {
        assert!(
            pair[0].0 < pair[1].0,
            "{:?} and {:?} are out of order",
            pair[0].0,
            pair[1].0
        );
    }
    // And every entry is reachable through the public path.
    for (code, meaning) in ENTRIES.iter() {
        assert_eq!(lookup(code), Some(*meaning), "{code} not found");
    }
}

#[test]
fn weather_groups_decompose_into_their_parts() {
    assert_eq!(codes_in("TSRA"), vec!["TS", "RA"]);
    assert_eq!(codes_in("+TSRA"), vec!["+", "TS", "RA"]);
    assert_eq!(codes_in("VCTS"), vec!["VC", "TS"]);
    assert_eq!(codes_in("FZRA"), vec!["FZ", "RA"]);
    assert_eq!(codes_in("-SHSN"), vec!["-", "SH", "SN"]);
}

#[test]
fn sky_groups_yield_the_cover_and_any_cloud_type() {
    assert_eq!(codes_in("BKN008"), vec!["BKN"]);
    assert_eq!(codes_in("OVC015CB"), vec!["OVC", "CB"]);
    assert_eq!(codes_in("SCT025TCU"), vec!["SCT", "TCU"]);
    assert_eq!(codes_in("VV003"), vec!["VV"]);
}

#[test]
fn whole_token_abbreviations_resolve() {
    assert_eq!(codes_in("AUTO"), vec!["AUTO"]);
    assert_eq!(codes_in("AO2"), vec!["AO2"]);
    assert_eq!(codes_in("TSNO"), vec!["TSNO"]);
    assert_eq!(codes_in("SLPNO"), vec!["SLPNO"]);
}

#[test]
fn tsno_is_a_sensor_notice_not_a_thunderstorm() {
    // The trap this whole module has to get right: TSNO contains "TS" but means the
    // thunderstorm sensor is unavailable. It must resolve to itself and nothing else.
    assert_eq!(codes_in("TSNO"), vec!["TSNO"]);
    assert_eq!(lookup("TSNO"), Some("thunderstorm information not available"));
}

#[test]
fn single_letters_are_not_matched_as_whole_tokens() {
    // M, P, R, S, N, E and V are real entries but standing alone they are almost always part
    // of something else. Defining a stray letter would be confident noise.
    for token in ["M", "P", "R", "S", "N", "E", "V", "G", "B", "L", "W", "Z", "C"] {
        assert!(codes_in(token).is_empty(), "{token} should not resolve alone");
    }
}

#[test]
fn unrecognised_tokens_stay_silent() {
    // Station identifiers, times, temperatures, altimeter settings and the rest are not
    // glossary entries. Silence is the correct answer.
    for token in ["KDEN", "291853Z", "27015KT", "M02/M04", "A2992", "2918/3024", "10SM"] {
        assert!(codes_in(token).is_empty(), "{token} should not resolve");
    }
}

#[test]
fn a_report_explains_in_reading_order_without_repeats() {
    let body = "METAR KDEN 291853Z 27015KT 2SM TSRA BKN008 OVC015CB M02/M04 A2992 RMK AO2 TSNO";
    let codes: Vec<&str> = explain(body).into_iter().map(|(c, _)| c).collect();

    // Order follows the report, so the reader's eye and the list agree.
    assert_eq!(
        codes,
        vec!["METAR", "TS", "RA", "BKN", "OVC", "CB", "AO2", "TSNO"]
    );
}

#[test]
fn a_code_appearing_twice_is_listed_once() {
    let codes: Vec<&str> = explain("SCT010 SCT020 BKN030").into_iter().map(|(c, _)| c).collect();
    assert_eq!(codes, vec!["SCT", "BKN"]);
}

#[test]
fn a_report_with_nothing_to_explain_yields_nothing() {
    assert!(explain("KDEN 291853Z 27015KT").is_empty());
    assert!(explain("").is_empty());
}

#[test]
fn an_explained_code_comes_with_its_meaning() {
    let list = explain("KDEN 291853Z BKN008");
    assert_eq!(list.len(), 1);
    assert_eq!(list[0].0, "BKN");
    assert_eq!(Some(list[0].1), lookup("BKN"));
}

#[test]
fn an_unknown_code_has_no_meaning() {
    assert_eq!(lookup("QQQ"), None);
    assert_eq!(lookup(""), None);
}

#[test]
fn a_report_written_twice_is_explained_once() {
    let body = "KDEN 291853Z +TSRA BKN008CB RMK AO2";
    assert_eq!(explain(&format!("{body} {body}")), explain(body));
    assert_eq!(explain(&format!("{body}\n{body}")), explain(body));
}

#[test]
fn a_weather_token_is_its_qualifier_and_its_groups() {
    assert_eq!(codes_in("+TSRAGR"), vec!["+", "TS", "RA", "GR"]);
    assert_eq!(codes_in("VCSH"), vec!["VC", "SH"]);
    assert_eq!(codes_in("BLSN"), vec!["BL", "SN"]);
}
