use avionics::args::{
    describe_argument, faulty_word, parse_args, parse_size, parse_unsigned, ArgError, Args, Reading,
    SizeFault,
};
use avionics::projection::Orientation;
use avionics::session::{feed_for, Feed};
use avionics::threat::AltitudeFilter;
use avionics::view::{MapLayers, Page, ViewState};

/// What each argument amounts to as a fraction.
fn readings(argv: &[String]) -> Vec<Reading> {
    argv.iter()
        .map(|a| match a.parse::<f64>() {
            Ok(v) if v.is_finite() => Reading::Fraction {
                positive: v > 0.0,
                thousandths: if v >= 0.0 && (v * 1000.0).fract() == 0.0 && v < 1e6 {
                    Some((v * 1000.0) as u32)
                } else {
                    None
                },
            },
            _ => Reading::Words,
        })
        .collect()
}

fn parse(words: &[&str]) -> Result<Option<Args>, ArgError> {
    let argv: Vec<String> = words.iter().map(|w| w.to_string()).collect();
    let held = readings(&argv);
    parse_args(&argv, &held)
}

fn parsed(words: &[&str]) -> Args {
    parse(words).expect("a good command line").expect("not a request for help")
}

fn fault(words: &[&str]) -> ArgError {
    parse(words).err().expect("a bad command line")
}

#[test]
fn nothing_said_is_the_default() {
    let args = parsed(&[]);
    assert_eq!(args.host, "127.0.0.1");
    assert_eq!(args.port, 80);
    assert_eq!(args.out, "frames");
    assert_eq!(args.size, (800, 480));
    assert!(args.take_vt);
    assert!(!args.offscreen && !args.window && !args.check && !args.repeat);
    assert_eq!(args.speed, None);
    assert_eq!(args.view, ViewState::default());
}

#[test]
fn every_flag_has_its_effect() {
    let args = parsed(&[
        "--host", "10.0.0.5", "--port", "8080", "--replay", "flight.rec", "--speed", "2.5",
        "--repeat", "--offscreen", "--out", "frame.ppm", "--size", "1024x600", "--dump-every", "30",
        "--device", "/dev/dri/card1", "--no-vt", "--frames", "90", "--chart", "us.chart",
    ]);
    assert_eq!(args.host, "10.0.0.5");
    assert_eq!(args.port, 8080);
    assert_eq!(args.replay.as_deref(), Some("flight.rec"));
    assert_eq!(args.speed, Some(7));
    assert!(args.repeat && args.offscreen && !args.take_vt);
    assert_eq!(args.out, "frame.ppm");
    assert_eq!(args.size, (1024, 600));
    assert_eq!(args.dump_every, 30);
    assert_eq!(args.device.as_deref(), Some("/dev/dri/card1"));
    assert_eq!(args.frames, 90);
    assert_eq!(args.chart.as_deref(), Some("us.chart"));
}

#[test]
fn the_view_is_chosen_on_the_command_line() {
    let args = parsed(&[
        "--track-up", "--range", "20", "--map", "airports", "--alt-filter", "above",
        "--no-underlay", "--weather-page",
    ]);
    assert_eq!(args.view.orientation, Orientation::TrackUp);
    assert_eq!(args.view.range_mnm, 20_000);
    assert_eq!(args.view.map_layers, MapLayers::Airports);
    assert_eq!(args.view.altitude_filter, AltitudeFilter::Above);
    assert_eq!(args.view.page, Page::Weather);
    assert!(!args.view.show_weather_underlay);
}

#[test]
fn help_wins_over_what_follows() {
    assert!(matches!(parse(&["--help", "--nonsense"]), Ok(None)));
    assert!(matches!(parse(&["-h"]), Ok(None)));
}

#[test]
fn each_fault_is_told_apart() {
    assert_eq!(fault(&["--nonsense"]), ArgError::Unrecognised(0));
    assert_eq!(fault(&["--host"]), ArgError::NeedsValue(0));
    assert_eq!(fault(&["--port", "http"]), ArgError::BadNumber(1));
    assert_eq!(fault(&["--port", "65536"]), ArgError::BadNumber(1));
    assert_eq!(fault(&["--speed", "fast"]), ArgError::BadNumber(1));
    assert_eq!(fault(&["--speed", "0"]), ArgError::SpeedNotPositive(1));
    assert_eq!(fault(&["--map", "roads"]), ArgError::BadLayers(1));
    assert_eq!(fault(&["--range", "7"]), ArgError::BadRange(1));
    assert_eq!(fault(&["--alt-filter", "high"]), ArgError::BadAltFilter(1));
    assert_eq!(fault(&["--size", "800"]), ArgError::BadSize(1));
    assert_eq!(fault(&["--size", "800xtall"]), ArgError::BadSizeNumber(1));
}

#[test]
fn sizes_and_numbers_are_read_exactly() {
    assert_eq!(parse_size("800x480"), Ok((800, 480)));
    assert_eq!(parse_size("1024 X 600"), Ok((1024, 600)));
    assert_eq!(parse_size("800"), Err(SizeFault::Shape));
    assert_eq!(parse_size("x480"), Err(SizeFault::Number));
    assert_eq!(parse_unsigned("+12", 100), Some(12));
    assert_eq!(parse_unsigned("101", 100), None);
    assert_eq!(parse_unsigned("", 100), None);
    assert_eq!(parse_unsigned("-1", 100), None);
    assert_eq!(parse_unsigned("18446744073709551616", u64::MAX), None);
}

#[test]
fn a_recording_named_is_replayed_in_place_of_the_receiver() {
    let live = feed_for(&parsed(&["--host", "10.0.0.1", "--port", "8080"]));
    assert!(live.is_live());
    assert!(matches!(live, Feed::Receiver { host, port: 8080 } if host == "10.0.0.1"));

    let replay = feed_for(&parsed(&["--replay", "a.jsonl", "--speed", "2.5"]));
    assert!(!replay.is_live());
    assert!(matches!(
        replay,
        Feed::Recording { path, speed: Some(3), repeat: false } if path == "a.jsonl"
    ));
}

#[test]
fn a_fault_names_what_it_found() {
    let said = |words: &[&str]| {
        let argv: Vec<String> = words.iter().map(|w| w.to_string()).collect();
        let error = fault(words);
        let quoted = format!("{:?}", faulty_word(error, &argv));
        describe_argument(error, &argv, &quoted, "USAGE")
    };
    assert_eq!(said(&["--nope"]), "unrecognised argument \"--nope\"\n\nUSAGE");
    assert_eq!(said(&["--repeat", "--host"]), "--host needs a value");
    assert_eq!(said(&["--port", "x"]), "bad --port");
    assert_eq!(said(&["--speed", "0"]), "--speed must be greater than zero");
    assert_eq!(said(&["--map", "Sea"]), "--map must be off, apt or all, not \"sea\"");
    assert_eq!(said(&["--range", "3"]), "--range must be one of [2.0, 5.0, 10.0, 20.0, 40.0]");
    assert_eq!(
        said(&["--alt-filter", "UP"]),
        "--alt-filter must be norm, above, below or all, not \"up\""
    );
    assert_eq!(said(&["--size", "big"]), "bad --size \"big\", want e.g. 800x480");
    assert_eq!(said(&["--size", "axb"]), "bad --size \"axb\": no number");
}
