use avionics::metar::{
    body_hazard, parse_weather, summarise, token_hazard, FlightCategory, Hazard,
};
use avionics::single::Single;
use avionics::theme::Theme;

/// A number in single precision, and back.
fn single(v: f32) -> Single {
    let (bits, negative) = (v.to_bits() & 0x7fff_ffff, v.is_sign_negative());
    let (step, places) = ((bits >> 23) as i32, bits & 0x7f_ffff);
    match step {
        255 if places > 0 => Single::NotANumber,
        255 => Single::Infinite { negative },
        0 => Single::Finite { negative, mantissa: places, exponent: -149 },
        _ => Single::Finite { negative, mantissa: places | 0x80_0000, exponent: step - 150 },
    }
}

fn miles(v: Option<Single>) -> Option<f32> {
    v.map(|v| match v {
        Single::Finite { negative, mantissa, exponent } => {
            let size = (mantissa as f64 * 2f64.powi(exponent)) as f32;
            if negative { -size } else { size }
        }
        Single::Infinite { negative: false } => f32::INFINITY,
        Single::Infinite { negative: true } => f32::NEG_INFINITY,
        Single::NotANumber => f32::NAN,
    })
}

// Real-shape reports. Written out in full rather than as fragments, because the parser has to
// survive the fields it does NOT understand sitting next to the ones it does.
const VFR: &str = "KBJC 291853Z 09012G20KT 10SM FEW120 24/07 A3002 RMK AO2 SLP123";
const MVFR: &str = "KORD 291853Z 25012KT 5SM HZ BKN025 15/09 A3001";
const IFR: &str = "KSEA 291853Z 18008KT 3SM BR OVC008 09/08 A2988";
const LIFR: &str = "KDEN 291853Z 27015KT 1/2SM -SN OVC004 M02/M04 A2992";
const TSTORM: &str = "KMIA 291853Z 09010KT 10SM TSRA SCT018 BKN035CB 28/24 A2998";

#[test]
fn flight_category_matches_the_faa_thresholds() {
    assert_eq!(summarise(VFR).category, Some(FlightCategory::Vfr));
    assert_eq!(summarise(MVFR).category, Some(FlightCategory::Mvfr));
    assert_eq!(summarise(IFR).category, Some(FlightCategory::Ifr));
    assert_eq!(summarise(LIFR).category, Some(FlightCategory::Lifr));
}

#[test]
fn only_broken_and_overcast_count_as_a_ceiling() {
    // The commonest mistake in home-grown METAR code: SCT018 is not a ceiling, so this report
    // is VFR on its 10SM visibility and its BKN035 ceiling, not IFR on the scattered layer.
    let s = summarise(TSTORM);
    assert_eq!(s.ceiling_ft, Some(3500), "BKN035 is the ceiling, not SCT018");
    assert_eq!(s.category, Some(FlightCategory::Vfr));
}

#[test]
fn the_lowest_ceiling_layer_wins() {
    let s = summarise("KXXX 291853Z 10SM BKN012 OVC030 10/05 A3000");
    assert_eq!(s.ceiling_ft, Some(1200));
}

#[test]
fn vertical_visibility_is_a_ceiling() {
    let s = summarise("KXXX 291853Z 1/4SM FG VV002 05/05 A2990");
    assert_eq!(s.ceiling_ft, Some(200));
    assert_eq!(s.category, Some(FlightCategory::Lifr));
}

#[test]
fn the_worse_of_ceiling_and_visibility_governs() {
    // Good ceiling, bad visibility.
    let s = summarise("KXXX 291853Z 1/2SM FG OVC050 05/05 A2990");
    assert_eq!(s.category, Some(FlightCategory::Lifr), "visibility should govern");
    // Bad ceiling, good visibility.
    let s = summarise("KXXX 291853Z 10SM OVC004 05/05 A2990");
    assert_eq!(s.category, Some(FlightCategory::Lifr), "ceiling should govern");
}

#[test]
fn a_whole_plus_fraction_visibility_is_not_read_as_the_fraction() {
    // "1 1/2SM" is 1.5 miles. Reading it as 0.5 turns IFR into LIFR.
    let s = summarise("KXXX 291853Z 18008KT 1 1/2SM BR OVC020 09/08 A2988");
    assert_eq!(miles(s.visibility_sm), Some(1.5));
    assert_eq!(s.category, Some(FlightCategory::Ifr));
}

#[test]
fn less_than_and_more_than_visibility_parse() {
    assert_eq!(miles(summarise("KXXX 291853Z M1/4SM FG").visibility_sm), Some(0.25));
    assert_eq!(miles(summarise("KXXX 291853Z P6SM").visibility_sm), Some(6.0));
}

#[test]
fn clear_skies_are_unlimited_not_unknown() {
    let s = summarise("KXXX 291853Z 09005KT 10SM CLR 20/10 A3000");
    assert_eq!(s.ceiling_ft, None);
    assert_eq!(s.category, Some(FlightCategory::Vfr));
}

#[test]
fn cavok_is_vfr() {
    assert_eq!(
        summarise("EGLL 291853Z 09005KT CAVOK 20/10 Q1013").category,
        Some(FlightCategory::Vfr)
    );
}

#[test]
fn a_report_with_neither_ceiling_nor_visibility_has_no_category() {
    // Never guess. A PIREP or a fragment must not be assigned a category.
    assert_eq!(summarise("UA /OV KDEN /TM 1840 /FL085 /TP C172").category, None);
    assert_eq!(summarise("").category, None);
}

#[test]
fn remarks_are_not_parsed_as_fields() {
    // RMK sections carry things that look like sky groups and visibilities but are not.
    let s = summarise("KXXX 291853Z 10SM CLR 20/10 A3000 RMK AO2 SLP123 VIS 1/4 OVC002");
    assert_eq!(s.ceiling_ft, None, "an OVC in the remarks is not a ceiling");
    assert_eq!(s.category, Some(FlightCategory::Vfr));
}

// --- hazard tokens -----------------------------------------------------------------------

#[test]
fn thunderstorms_and_freezing_are_warnings() {
    for token in ["TSRA", "+TSRA", "VCTS", "TS", "FZRA", "FZFG", "FZDZ", "GR", "PL", "IC"] {
        assert_eq!(token_hazard(token), Hazard::Warning, "{token}");
    }
}

#[test]
fn heavy_precipitation_and_real_obscurations_are_cautions() {
    for token in ["+RA", "+SN", "FG", "FU", "SA", "DU"] {
        assert_eq!(token_hazard(token), Hazard::Caution, "{token}");
    }
}

#[test]
fn routine_tokens_are_not_highlighted() {
    // Mist and haze appear in a large share of reports. Highlighting them would train the eye
    // to ignore the highlight, which costs more than it gains.
    for token in ["BR", "HZ", "-RA", "RA", "SCT018", "10SM", "A3002", "24/07"] {
        assert_eq!(token_hazard(token), Hazard::Routine, "{token}");
    }
}

#[test]
fn station_identifiers_are_not_mistaken_for_weather() {
    // The reason this parses the grammar instead of searching for substrings: all of these
    // contain a valid two-letter code and none of them are weather.
    for token in ["KTSM", "TSNO", "KFGZ", "KRAP", "KSNA", "AO2", "SLP123", "RMK"] {
        assert_eq!(
            token_hazard(token),
            Hazard::Routine,
            "{token} must not be read as weather"
        );
        assert!(parse_weather(token).is_none(), "{token} parsed as weather");
    }
}

#[test]
fn a_taf_summarises_to_something_that_describes_no_single_moment() {
    // Why only observations carry a badge. A TAF does parse, and produces a category that is true of no point in time. A TAF covers
    // many hours in FM/TEMPO/BECMG periods; `summarise` has no notion of periods, so it takes
    // the LOWEST ceiling anywhere in the forecast and the FIRST visibility, mixing conditions
    // eight hours apart into one badge.
    let taf = "TAF KDEN 291720Z 2918/3024 27012KT P6SM SCT120 FM300200 1/2SM FZRA OVC003";
    let s = summarise(taf);

    // Visibility comes from the first period (good), the ceiling from the last (bad) — so the
    // badge would read LIFR over a forecast whose current period is VFR.
    assert_eq!(miles(s.visibility_sm), Some(6.0), "first period visibility");
    assert_eq!(s.ceiling_ft, Some(300), "last period ceiling");
    assert_eq!(s.category, Some(FlightCategory::Lifr));

    // Which is wrong in the other direction from the obvious guess, and just as misleading.
    // Observations only.
}

#[test]
fn body_hazard_takes_the_worst_of_tokens_and_category() {
    assert_eq!(body_hazard(VFR), Hazard::Routine);
    assert_eq!(body_hazard(MVFR), Hazard::Caution, "MVFR alone is a caution");
    assert_eq!(body_hazard(IFR), Hazard::Warning, "IFR alone is a warning");
    assert_eq!(body_hazard(TSTORM), Hazard::Warning, "VFR, but a thunderstorm");
}

#[test]
fn hazards_in_the_remarks_do_not_raise_the_rating() {
    // "TSNO" means the thunderstorm sensor is unavailable, not that there is a thunderstorm.
    let quiet = "KXXX 291853Z 09005KT 10SM CLR 20/10 A3000 RMK AO2 TSNO";
    assert_eq!(body_hazard(quiet), Hazard::Routine);
}

#[test]
fn a_category_follows_from_its_limits() {
    assert_eq!(FlightCategory::from_ceiling(499), FlightCategory::Lifr);
    assert_eq!(FlightCategory::from_ceiling(500), FlightCategory::Ifr);
    assert_eq!(FlightCategory::from_ceiling(1000), FlightCategory::Mvfr);
    assert_eq!(FlightCategory::from_ceiling(3001), FlightCategory::Vfr);
    let mile = |v: f32| FlightCategory::from_visibility(single(v));
    assert_eq!(mile(0.99), FlightCategory::Lifr);
    assert_eq!(mile(-7.0), FlightCategory::Lifr);
    assert_eq!(mile(1.0), FlightCategory::Ifr);
    assert_eq!(mile(2.9999998), FlightCategory::Ifr);
    assert_eq!(mile(3.0), FlightCategory::Mvfr);
    assert_eq!(mile(5.0), FlightCategory::Mvfr);
    assert_eq!(mile(5.0000005), FlightCategory::Vfr);
    assert_eq!(mile(5.1), FlightCategory::Vfr);
    assert_eq!(mile(f32::INFINITY), FlightCategory::Vfr);
    assert_eq!(mile(f32::NEG_INFINITY), FlightCategory::Lifr);
    assert_eq!(mile(f32::NAN), FlightCategory::Vfr);
}

#[test]
fn the_worse_of_two_ratings_is_kept() {
    assert_eq!(Hazard::Caution.worse(Hazard::Routine), Hazard::Caution);
    assert_eq!(Hazard::Caution.worse(Hazard::Warning), Hazard::Warning);
    assert_eq!(
        FlightCategory::Mvfr.worse(FlightCategory::Ifr),
        FlightCategory::Ifr
    );
}

#[test]
fn categories_are_labelled_and_coloured() {
    let theme = Theme::dark();
    assert_eq!(FlightCategory::Lifr.label(), "LIFR");
    assert_eq!(FlightCategory::Vfr.colour(&theme), theme.good);
    assert_eq!(FlightCategory::Lifr.colour(&theme), theme.warning);
}

#[test]
fn a_wind_group_reads_its_direction_speed_and_gust() {
    let wind = summarise("KBJC 291853Z 09012G20KT 10SM").wind.expect("a wind");
    assert_eq!(wind.direction_deg, 90);
    assert_eq!(wind.speed_kt, 12);
    assert_eq!(wind.gust_kt, Some(20));
}

#[test]
fn weather_groups_come_apart() {
    let (qualifier, groups) = parse_weather("+TSRA").expect("weather");
    assert_eq!(qualifier, "+");
    assert_eq!(groups, vec!["TS", "RA"]);
}

#[test]
fn a_visibility_is_read_however_it_is_written() {
    let read = |token: &str| miles(summarise(&format!("KXXX 291853Z {token}")).visibility_sm);
    assert_eq!(read("000000010SM"), Some(10.0), "noughts in front do not count");
    assert_eq!(read("0000000000000000000000001.5000000000000SM"), Some(1.5));
    assert_eq!(read("12345678901SM").map(|v| v > 12.3e9), Some(true));
    assert_eq!(read("1e1SM"), Some(10.0));
    assert_eq!(read("2.5E-1SM"), Some(0.25));
    assert_eq!(read(".5SM"), Some(0.5));
    assert_eq!(read("5.SM"), Some(5.0));
    assert_eq!(read("+3SM"), Some(3.0));
    assert_eq!(read("1/0.0000000004SM").map(|v| v > 2.4e9), Some(true));
    assert_eq!(read("1/infSM"), Some(0.0));
    for nothing in ["SM", ".SM", "1eSM", "e1SM", "1.2.3SM", "1,5SM", "--1SM", "/2SM", "infiniteSM"] {
        assert_eq!(read(nothing), None, "{nothing}");
    }

    let whole = |token: &str| summarise(&format!("KXXX 291853Z {token}"));
    for (token, v) in [
        ("infSM", f32::INFINITY),
        ("-1/0SM", f32::NEG_INFINITY),
        ("0/0SM", f32::NAN),
        ("NaNSM", f32::NAN),
        ("1e50SM", f32::INFINITY),
    ] {
        assert_eq!(whole(token).visibility_sm, Some(single(v)), "{token}");
    }
    assert_eq!(whole("1e50SM").category, Some(FlightCategory::Vfr));
    assert_eq!(read("1e-60SM"), Some(0.0));
}

#[test]
fn only_heavy_raises_the_rating_of_a_token() {
    for token in ["RA", "BR", "FG", "TSRA", "FZDZ", "KDEN"] {
        let plain = token_hazard(token);
        assert_eq!(token_hazard(&format!("-{token}")), plain, "-{token}");
        assert_eq!(token_hazard(&format!("VC{token}")), plain, "VC{token}");
    }
    assert_eq!(token_hazard("+RA"), Hazard::Caution);
    assert_eq!(token_hazard("+TSRA"), Hazard::Warning);
    assert_eq!(token_hazard("+KDEN"), Hazard::Routine);
}

#[test]
fn appended_remarks_leave_the_rating_alone() {
    for body in [VFR, MVFR, IFR, LIFR, TSTORM, "KBJC 291853Z 10SM FEW120"] {
        for remarks in [" RMK", " RMK TSNO FZRA OVC001", "\tRMK\n1/4SM +TSRA"] {
            let longer = format!("{body}{remarks}");
            assert_eq!(body_hazard(&longer), body_hazard(body), "{longer}");
            assert_eq!(summarise(&longer).category, summarise(body).category, "{longer}");
        }
    }
}

#[test]
fn a_visibility_is_held_to_single_precision() {
    let read = |token: &str| summarise(&format!("KXXX 291853Z {token}SM")).visibility_sm;
    for text in [
        "0", "1", "10", "0.1", "2.9999999", "2.9999998", "2.99999985", "16777216", "16777217",
        "16777218", "16777219", "33554433", "123456789", "0.3", "3.4028235e38", "3.4028236e38",
        "3.40282356e38", "3.4028234663852886e38", "1e39", "9.99e38", "1e-45", "7e-46", "7.1e-46",
        "1.17549435e-38", "1.1754942e-38", "1e-46", "0.000000000000000000000000000000000000000000007",
        "7.0064923216240853546186479164495806564013097093825788587853412e-46",
        "7.0064923216240853546186479164495806564013097093825788587853414e-46",
        "1.00000005960464477539062500000000000000000000000000000", "1.000000059604644775390625",
        "1.0000000596046447753906250000000000000000000000000001", "8388609.5", "8388608.5",
        "99999999999999999999999999999999999999", "5e-324", "00000.00001", "1e-7", "6.02214076e23",
    ] {
        let want = text.parse::<f32>().expect("a number");
        assert_eq!(read(text), Some(single(want + 0.0)), "{text}");
        let want = -want;
        assert_eq!(read(&format!("-{text}")), Some(single(want + 0.0)), "-{text}");
    }
    for (top, under) in [
        ("1", "3"), ("2", "3"), ("1", "10"), ("7", "8"), ("1e-40", "3"), ("1e38", "1e-3"),
        ("1e-30", "1e20"), ("5", "-2"), ("-1", "7"), ("1", "1e-45"), ("16777217", "2"),
    ] {
        let want = top.parse::<f32>().unwrap() / under.parse::<f32>().unwrap();
        assert_eq!(read(&format!("{top}/{under}")), Some(single(want + 0.0)), "{top}/{under}");
        assert_eq!(
            read(&format!("2 {top}/{under}")),
            Some(single(want + 2.0)),
            "2 {top}/{under}"
        );
        assert_eq!(
            read(&format!("99 {top}/{under}")),
            Some(single(want + 99.0)),
            "99 {top}/{under}"
        );
    }
    assert_eq!(summarise("KXXX 291853Z 2.9999999SM").category, Some(FlightCategory::Mvfr));
    assert_eq!(summarise("KXXX 291853Z 2.9999998SM").category, Some(FlightCategory::Ifr));
}
