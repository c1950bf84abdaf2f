use avionics::nexrad::MosaicStats;
use avionics::pacing::{
    enough_frames, frame_name, is_dumped, offscreen_frames, report, wait_slice, FramePacer,
    RenderTiming, FRAME_SLICE, WARMUP,
};

const THIRTY_HZ: u64 = 1_000_000_000 / 30 / 1_000_000 * 1_000_000;
const NOW: u64 = 10_000_000_000_000;

#[test]
fn an_uncapped_page_never_waits() {
    let mut pacer = FramePacer::default();
    assert_eq!(pacer.next_due(None, NOW), None);
}

#[test]
fn a_cap_holds_a_fixed_cadence_rather_than_drifting() {
    // Each deadline is one interval after the *previous deadline*, not after whenever the frame
    // happened to finish.
    let mut pacer = FramePacer::default();
    let first = pacer.next_due(Some(THIRTY_HZ), NOW).expect("capped");
    let second = pacer.next_due(Some(THIRTY_HZ), NOW + 1_000).expect("capped");
    let third = pacer.next_due(Some(THIRTY_HZ), NOW + 9_000_000).expect("capped");
    assert_eq!(second - first, THIRTY_HZ);
    assert_eq!(third - second, THIRTY_HZ);
}

#[test]
fn falling_behind_resynchronises_instead_of_bursting() {
    let mut pacer = FramePacer::default();
    pacer.next_due(Some(THIRTY_HZ), NOW);
    // Simulate a long overrun by pushing the stored deadline well into the past.
    pacer.next_due = Some(NOW - 5_000_000_000);

    // The deadline must be re-anchored to *now*. Asserting only that it is in the past would pass
    // for the buggy version too: five seconds ago is also in the past.
    let before = NOW;
    let due = pacer.next_due(Some(THIRTY_HZ), NOW).expect("capped");
    assert!(
        due >= before,
        "a five-second-old deadline was carried forward instead of being reset to now"
    );

    // And the debt must not persist: the frame after it is due one interval from now, not still
    // somewhere in the backlog.
    let next = pacer.next_due(Some(THIRTY_HZ), NOW).expect("capped");
    assert!(next > before, "the deadline after a resync is still in the past");
    assert_eq!(next - due, THIRTY_HZ, "cadence resumes from now, not from the debt");
}

#[test]
fn switching_to_an_uncapped_page_forgets_the_old_deadline() {
    let mut pacer = FramePacer::default();
    pacer.next_due(Some(125_000_000), NOW);
    assert_eq!(pacer.next_due(None, NOW), None);
    assert!(pacer.next_due.is_none());

    let due = pacer.next_due(Some(THIRTY_HZ), NOW).expect("capped");
    assert!(due <= NOW, "the first frame back should not wait");
}

#[test]
fn the_budget_is_spent_in_slices() {
    let due = Some(NOW + 20_000_000);
    assert_eq!(wait_slice(due, false, NOW), Some(FRAME_SLICE));
    assert_eq!(wait_slice(due, false, NOW + 16_000_000), Some(4_000_000));
    assert_eq!(wait_slice(due, false, NOW + 20_000_001), None, "it is due");
    assert_eq!(wait_slice(due, true, NOW), None, "something was pressed");
    assert_eq!(wait_slice(None, false, NOW), None, "this page is not paced");
}

#[test]
fn a_run_stops_after_the_frames_it_was_asked_for() {
    assert!(!enough_frames(0, 1_000_000));
    assert!(!enough_frames(10, 9));
    assert!(enough_frames(10, 10));
    assert_eq!(offscreen_frames(0), 300);
    assert_eq!(offscreen_frames(7), 7);
}

#[test]
fn frames_are_written_on_schedule() {
    assert!(is_dumped(0, 300, 30));
    assert!(!is_dumped(29, 300, 30));
    assert!(is_dumped(30, 300, 30));
    assert!(!is_dumped(298, 300, 0));
    assert!(is_dumped(299, 300, 0), "only the last");
    assert_eq!(frame_name(42), "frame-00042.ppm");
    assert_eq!(frame_name(1_234_567), "frame-1234567.ppm");
}

#[test]
fn a_slow_first_frame_is_not_a_recurring_hitch() {
    let mut timing = RenderTiming::default();
    timing.record(90_000_000, None, NOW);
    for i in 1..100u64 {
        timing.record(2_000_000, Some(THIRTY_HZ), NOW + i * 100_000_000);
    }
    assert_eq!(timing.frames, 100);
    assert_eq!(timing.worst, 90_000_000);
    assert_eq!(timing.worst_at, 1);
    assert_eq!(timing.worst_steady, 2_000_000);
    assert!(timing.worst_steady_at > 30);
    assert!((timing.worst_steady_at - 1) * 100_000_000 > WARMUP);
    assert_eq!(timing.mean(), (90_000_000 + 99 * 2_000_000) / 100);
    // Six frames to a window that spans half a second.
    assert_eq!(timing.fps / 1000, 10);
}

#[test]
fn the_report_reads_as_it_should() {
    let mut timing = RenderTiming::default();
    timing.record(1_500_000, Some(125_000_000), NOW);
    let mosaic = MosaicStats {
        composites: 3,
        blocks_composited: 4,
        blocks_skipped_outside: 5,
        bins_painted: 6,
    };
    let lines = report(&timing, &mosaic);
    assert_eq!(
        lines,
        vec![
            "  frames        : 1",
            "  mean draw     : 1.50 ms",
            "  worst draw    : 1.50 ms  (frame 1)",
            "  worst steady  : n/a (run shorter than the warm-up)",
            "  last fps      : 0.0",
            "  frame cap     : 8 fps (last page shown)",
            "  wx composites : 3",
            "  wx blocks     : 4 drawn, 5 outside, 6 bins",
        ]
    );
    timing.record(1_500_000, None, NOW);
    assert_eq!(
        report(&timing, &mosaic)[5],
        "  frame cap     : none \u{2014} paced by the page flip"
    );
}
