use avionics::projection::Orientation;
use avionics::session::{
    apply_key, chart_candidates, check_result, connector_line, map_layer_line, open_inspect_card,
    pump_cage, CardOutcome, CHART_IN_TREE,
};
use avionics::view::{CageState, ViewState};

const NOW: u64 = 1_000_000_000_000;
const SECOND: u64 = 1_000_000_000;

fn caged(cage: CageState) -> ViewState {
    let mut view = ViewState::default();
    view.set_cage(cage, NOW);
    view
}

#[test]
fn a_request_goes_out_exactly_once() {
    let mut view = caged(CageState::Requested);
    assert!(pump_cage(&mut view, None, true, NOW));
    assert_eq!(view.cage, CageState::InFlight);
    assert!(!pump_cage(&mut view, None, true, NOW + SECOND));
    assert_eq!(view.cage, CageState::InFlight);
    assert!(!pump_cage(&mut view, Some(true), true, NOW + 2 * SECOND));
    assert_eq!(view.cage, CageState::Done { ok: true });
}

#[test]
fn a_replay_has_nothing_to_cage() {
    let mut view = caged(CageState::Requested);
    assert!(!pump_cage(&mut view, None, false, NOW));
    assert_eq!(view.cage, CageState::Done { ok: false });
}

#[test]
fn a_lapsed_arm_is_retired_each_frame() {
    let mut view = caged(CageState::Armed);
    pump_cage(&mut view, None, true, NOW + 60 * SECOND);
    assert_eq!(view.cage, CageState::Idle);
}

#[test]
fn keys_drive_the_selections() {
    let mut view = ViewState::default();
    let start = view;
    apply_key(&mut view, 'r');
    assert_ne!(view.range_mnm, start.range_mnm);
    apply_key(&mut view, 'R');
    assert_eq!(view, start, "the two cases of the key undo each other");
    apply_key(&mut view, 'o');
    assert_eq!(view.orientation, Orientation::TrackUp);
    apply_key(&mut view, 'p');
    assert_eq!(view.page, start.page.next());
    apply_key(&mut view, 'w');
    assert_eq!(view.show_weather_underlay, !start.show_weather_underlay);
    apply_key(&mut view, 'a');
    assert_ne!(view.altitude_filter, start.altitude_filter);
    let before = view;
    apply_key(&mut view, 'z');
    assert_eq!(view, before);
    assert_eq!(view.cage, CageState::Idle, "typing cages nothing");
}

#[test]
fn a_card_needs_a_chart() {
    let mut view = ViewState::default();
    assert_eq!(open_inspect_card(None, &mut view, "MMU", NOW), CardOutcome::NoChart);
    assert_eq!(view.inspect, None);
}

#[test]
fn the_report_says_what_is_there() {
    assert_eq!(
        connector_line("HDMI-A-1", true, Some("800x480@60")),
        "  connector   : HDMI-A-1 connected 800x480@60"
    );
    assert_eq!(
        connector_line("DSI-1", false, None),
        "  connector   : DSI-1 disconnected (no modes)"
    );
    assert_eq!(
        map_layer_line(None),
        "  map layer   : WARN no conus.chart found; airports and airspace will not draw"
    );
}

#[test]
fn only_a_font_and_a_display_are_required() {
    assert_eq!(check_result(true, true), Ok(()));
    assert_eq!(
        check_result(false, true),
        Err("1 required check(s) failed: font".to_string())
    );
    assert_eq!(
        check_result(false, false),
        Err("2 required check(s) failed: font, display".to_string())
    );
}

#[test]
fn a_chart_asked_for_by_name_is_the_only_one_tried() {
    let asked = Some("mine.chart".to_string());
    let beside = Some("/opt/avionics/conus.chart".to_string());
    assert_eq!(chart_candidates(asked, beside), vec!["mine.chart".to_string()]);
}

#[test]
fn the_chart_beside_the_program_comes_before_the_one_in_the_tree() {
    let beside = "/opt/avionics/conus.chart".to_string();
    assert_eq!(
        chart_candidates(None, Some(beside.clone())),
        vec![beside, "crates/avionics-ui/data/conus.chart".to_string()]
    );
    assert_eq!(chart_candidates(None, None), vec![CHART_IN_TREE.to_string()]);
}
