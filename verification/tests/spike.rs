use avionics::args::{faulty_word, ArgError};
use avionics::gfx::GlInfo;
use avionics::marks::{Align, Mark};
use avionics::projection::{Turn, UNIT};
use avionics::spike::{
    describe_spike_argument, draw_alpha_wedge, draw_mosaic_frame, draw_range_rings, draw_rotating_symbols, draw_text_block,
    driver_text, mosaic_tile, parse_spike_args, rate_colour, report, symbol_colour, symbol_heading,
    symbol_tag, truncate, FrameClock, SpikeArgs, MOSAIC_PALETTE,
};
use avionics::theme::{Color, CHANNEL_FULL};

const SECOND: u64 = 1_000_000_000;

fn parse(words: &[&str]) -> Result<Option<SpikeArgs>, ArgError> {
    let argv: Vec<String> = words.iter().map(|w| w.to_string()).collect();
    parse_spike_args(&argv)
}

#[test]
fn the_pattern_has_a_command_line_of_its_own() {
    let args = parse(&[]).unwrap().unwrap();
    assert_eq!(args.out, "spike.ppm");
    assert_eq!(args.frame_limit(), 0);
    let args = parse(&["--offscreen", "--size", "1024x600"]).unwrap().unwrap();
    assert_eq!(args.size, (1024, 600));
    assert_eq!(args.frame_limit(), 60);
    let args = parse(&["--offscreen", "--frames", "5"]).unwrap().unwrap();
    assert_eq!(args.frame_limit(), 5);
    assert!(matches!(parse(&["--help"]), Ok(None)));
    assert!(matches!(parse(&["--bogus"]), Err(ArgError::Unrecognised(0))));
    assert!(matches!(parse(&["--frames"]), Err(ArgError::NeedsValue(0))));
}

#[test]
fn a_short_run_still_reports_a_rate() {
    let mut clock = FrameClock::new(SECOND);
    clock.tick(SECOND + SECOND / 50);
    assert_eq!(clock.frame_count, 1);
    assert_eq!(clock.fps, 50_000);
}

#[test]
fn a_long_run_reports_the_rate_of_its_window() {
    let mut clock = FrameClock::new(0);
    for i in 1..=120u64 {
        clock.tick(i * SECOND / 30);
    }
    assert_eq!(clock.frame_count, 120);
    assert!((29_900..=30_100).contains(&clock.fps), "{}", clock.fps);
}

#[test]
fn long_driver_strings_are_cut() {
    assert_eq!(truncate("V3D 4.2", 20), "V3D 4.2");
    assert_eq!(truncate("OpenGL ES 2.0 Mesa", 10), "OpenGL ES\u{2026}");
    assert_eq!(truncate("abc", 0), "\u{2026}");
}

#[test]
fn the_symbols_show_every_tier() {
    assert_eq!(symbol_tag(0), "N100TC +00");
    assert_eq!(symbol_tag(5), "N135TC +15");
    assert_eq!(symbol_colour(0), Color::rgb(255, 80, 60));
    assert_eq!(symbol_colour(4), Color::rgb(255, 200, 40));
    assert_eq!(symbol_colour(5), Color::rgb(220, 235, 245));
    assert_eq!(rate_colour(28_000), Color::rgb(120, 255, 170));
    assert_eq!(rate_colour(27_999), Color::rgb(255, 180, 60));
    assert_eq!(MOSAIC_PALETTE[0].3, 0, "no echo is transparent");
}

fn gl() -> GlInfo {
    GlInfo {
        version: "OpenGL ES 2.0 Mesa 23.2.1-1~bpo12+rpt3".to_string(),
        renderer: "VC4 V3D 2.1".to_string(),
        vendor: "Broadcom".to_string(),
        is_gles2: true,
    }
}

#[test]
fn the_rings_nest_and_carry_a_tick_each_way() {
    let up = Turn { sin: 0, cos: UNIT };
    let right = Turn { sin: UNIT, cos: 0 };
    let marks = draw_range_rings(&[up, right], 800_000, 480_000);
    assert_eq!(marks.len(), 8);
    // 42% of the shorter side, about a point a little below the middle.
    assert!(matches!(marks[0], Mark::Disc { at: (400_000, 264_000), radius: 201_600, .. }));
    assert!(matches!(marks[2], Mark::Disc { radius: 133_056, .. }));
    assert!(matches!(marks[4], Mark::Disc { radius: 66_528, .. }));
    assert!(matches!(marks[5], Mark::Ring { radius: 66_528, width: 1_500, .. }));
    assert!(matches!(
        marks[6],
        Mark::Line { from: (400_000, 74_496), to: (400_000, 62_400), width: 1_000, .. }
    ));
    assert!(matches!(marks[7], Mark::Line { to: (601_600, 264_000), .. }));
}

#[test]
fn the_symbols_go_round_a_sixth_of_a_turn_apart() {
    assert_eq!(symbol_heading(0, 0), 90_000);
    assert_eq!(symbol_heading(5, 0), 30_000);
    assert_eq!(symbol_heading(0, SECOND), 110_053);
    assert_eq!(symbol_heading(0, 18 * SECOND), 90_963);

    let right = Turn { sin: UNIT, cos: 0 };
    let marks = draw_rotating_symbols(&[right], 0, 800_000, 480_000);
    // 72% of the outer ring, to the right.
    assert!(matches!(marks[0], Mark::Turn { at: (545_152, 264_000), mdeg: 90_000, down: 0 }));
    assert!(matches!(&marks[1], Mark::Shape { points, .. } if points[0] == (0, -9_000)));
    assert!(matches!(marks[3], Mark::Unturn));
    assert!(matches!(
        &marks[4],
        Mark::Text { x: 559_152, y: 264_000, text, .. } if text == "N100TC +00"
    ));
    assert!(matches!(&marks[5], Mark::Shape { points, .. } if points[0] == (400_000, 253_000)));
}

#[test]
fn the_ramp_runs_from_clear_to_opaque() {
    let marks = draw_alpha_wedge(800_000, 480_000);
    assert_eq!(marks.len(), 16);
    assert!(matches!(
        &marks[0],
        Mark::Fill { area, colour, .. }
            if (area.x, area.y, area.w, area.h) == (400_000, 462_000, 25_000, 10_000)
                && colour.a == 0
    ));
    assert!(matches!(
        &marks[15],
        Mark::Fill { area, colour, .. } if area.x == 775_000 && colour.a == CHANNEL_FULL
    ));
}

#[test]
fn the_mosaics_stand_side_by_side_under_captions() {
    let second = mosaic_tile(1, 800_000, 480_000);
    assert_eq!((second.x, second.y, second.w, second.h), (232_000, 329_200, 208_000, 124_800));
    let marks = draw_mosaic_frame(0, "POT 64x64", 64, 64, 800_000, 480_000);
    assert!(matches!(&marks[0], Mark::Frame { area, .. } if area.x == 12_000));
    assert!(matches!(
        &marks[1],
        Mark::Text { x: 12_000, y: 457_000, text, .. } if text == "POT 64x64 (64x64)"
    ));
}

#[test]
fn the_text_block_names_the_driver_and_the_rate() {
    let mut clock = FrameClock::new(0);
    clock.tick(SECOND / 50);
    assert_eq!(driver_text(&gl()), "VC4 V3D 2.1  |  OpenGL ES 2.0 Mesa 23.2.1\u{2026}  |  GLES2=true");
    let marks = draw_text_block(&clock, &gl(), 800_000);
    assert_eq!(marks.len(), 9);
    assert!(matches!(
        &marks[3],
        Mark::Text { x: 790_000, y: 6_000, text, style }
            if text == "50.0 fps" && style.align == Align::Right
                && style.colour == Color::rgb(120, 255, 170)
    ));
    assert!(matches!(&marks[4], Mark::Text { text, .. } if text == "frame 1"));
    assert!(matches!(
        &marks[5],
        Mark::Text { y: 56_000, text, .. }
            if text == "   9px  METAR KDEN 291853Z 04012KT 10SM FEW120 28/07 A3002"
    ));
    assert!(matches!(&marks[8], Mark::Text { y: 122_000, text, .. } if text.starts_with("  18px")));
}

#[test]
fn the_result_says_what_ran() {
    let mut clock = FrameClock::new(0);
    clock.tick(SECOND / 50);
    assert_eq!(
        report(&gl(), (800, 480), &clock),
        [
            "  resolution : 800x480",
            "  vendor     : Broadcom",
            "  renderer   : VC4 V3D 2.1",
            "  version    : OpenGL ES 2.0 Mesa 23.2.1-1~bpo12+rpt3",
            "  GLES2 path : true",
            "  frames     : 1",
            "  last fps   : 50.0",
        ]
    );
}

#[test]
fn a_fault_of_the_pattern_names_what_it_found() {
    let said = |words: &[&str]| {
        let argv: Vec<String> = words.iter().map(|w| w.to_string()).collect();
        let error = parse_spike_args(&argv).err().expect("a bad command line");
        let quoted = format!("{:?}", faulty_word(error, &argv));
        describe_spike_argument(error, &argv, &quoted, "USAGE")
    };
    assert_eq!(said(&["--what"]), "unrecognised argument \"--what\"\n\nUSAGE");
    assert_eq!(said(&["--out"]), "--out needs a path");
    assert_eq!(said(&["--frames"]), "--frames needs a number");
    assert_eq!(said(&["--size"]), "--size needs WxH");
    assert_eq!(said(&["--frames", "-1"]), "bad --frames value \"-1\"");
    assert_eq!(said(&["--size", "800"]), "bad --size value \"800\", want e.g. 800x480");
}
