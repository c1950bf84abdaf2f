use avionics::statusbar::{
    alarms, fields, next_field, place_alarms, radio_colour, rate_text, traffic_text, Faults, Health,
};
use avionics::theme::Theme;
use avionics::view::FrameStats;

const MINUTE: u64 = 60_000_000_000;

fn health() -> Health {
    Health {
        fix_usable: true,
        satellites: 9,
        es_rate: 412,
        uat_rate: 0,
        fresh: true,
        cpu_temp_mc: 71_400,
        nexrad_age: Some(6 * MINUTE),
    }
}

fn no_faults() -> Faults {
    Faults {
        position_stale: false,
        ever_had_position: true,
        has_altitude: true,
        decode_errors: 0,
    }
}

fn said(down: &[&str], faults: &Faults) -> Vec<(String, bool)> {
    alarms(down, 4, faults)
        .into_iter()
        .map(|a| (a.text, a.severe))
        .collect()
}

#[test]
fn every_field_says_what_it_measures() {
    let theme = Theme::dark();
    let bar = fields("3D", &health(), &FrameStats::default(), &theme);
    let said: Vec<(&str, &str)> = bar.iter().map(|f| (f.label, f.value.as_str())).collect();
    assert_eq!(
        said,
        vec![
            ("GPS", "3D/9"),
            ("1090", "412/m"),
            ("978", "0/m"),
            ("TFC", "0"),
            ("CPU", "71\u{b0}C"),
            ("WX", "6m"),
        ]
    );
    assert_eq!(bar[0].colour, theme.good);
    assert_eq!(bar[2].colour, theme.warning, "a deaf radio is a fault");
    assert_eq!(bar[4].colour, theme.caution);
    assert_eq!(bar[5].colour, theme.caution);
}

#[test]
fn stale_health_is_not_reported_as_a_reading() {
    let theme = Theme::dark();
    let stale = Health { fix_usable: false, fresh: false, nexrad_age: None, ..health() };
    let bar = fields("NONE", &stale, &FrameStats::default(), &theme);
    assert_eq!(bar.len(), 4);
    assert_eq!(bar[0].value, "NONE");
    assert_eq!(bar[0].colour, theme.warning);
    assert_eq!(bar[1].value, "?");
    assert_eq!(rate_text(7, false), "?");
    assert_eq!(radio_colour(0, false, &theme), theme.text_dim);
}

#[test]
fn culled_targets_are_named_and_not_lost() {
    let stats = FrameStats {
        targets_drawn: 3,
        targets_outside_range: 12,
        targets_outside_altitude: 2,
        targets_no_position: 1,
        targets_unplotted: 4,
        ..FrameStats::default()
    };
    assert_eq!(traffic_text(&stats), "3 +12 out +2 alt +1 nopos +4 held");
    assert_eq!(traffic_text(&FrameStats::default()), "0");
}

#[test]
fn alarms_come_most_pressing_first() {
    assert_eq!(said(&[], &no_faults()), vec![]);
    assert_eq!(
        said(&["TFC", "WX"], &no_faults()),
        vec![("NO TFC,WX".to_string(), false)]
    );
    let all = Faults {
        position_stale: true,
        ever_had_position: true,
        has_altitude: false,
        decode_errors: 3,
    };
    assert_eq!(
        said(&["A", "B", "C", "D"], &all),
        vec![
            ("STRATUX OFFLINE".to_string(), true),
            ("POSITION STALE".to_string(), true),
            ("NO ALT REF".to_string(), false),
            ("3 DECODE ERR".to_string(), false),
        ]
    );
}

#[test]
fn a_position_never_had_is_not_stale() {
    let waiting = Faults { position_stale: true, ever_had_position: false, ..no_faults() };
    assert_eq!(said(&[], &waiting), vec![]);
}

#[test]
fn alarms_stop_short_of_the_fields() {
    // Two alarms of 100 px fit between 400 and 800; a third does not.
    let at = place_alarms(500_000, 800_000, &[100_000, 100_000, 100_000]);
    assert_eq!(at, vec![800_000, 688_000]);
    assert_eq!(next_field(10_000, 20_000, 30_000), 78_000);
}
