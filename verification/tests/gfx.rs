use avionics::gfx::{
    choose_config, choose_mode, describe_node, encode_ppm, mode_text, pick_config, select_output,
    Button, Connector, DesktopConfig, DesktopInput, DisplayMode, GlInfo, Harness, KeyName,
    KmsConfig, OffscreenConfig, Output, OutputError, Pump, WindowChange, WindowFormat,
    FOURCC_XRGB8888,
};

fn mode(width: u16, height: u16, preferred: bool) -> DisplayMode {
    DisplayMode { width, height, refresh: 60, preferred }
}

fn connector(connected: bool, modes: Vec<DisplayMode>, possible_crtcs: Vec<u32>) -> Connector {
    Connector { connected, modes, current_crtc: None, possible_crtcs }
}

#[test]
fn an_es_two_driver_is_recognised() {
    let info = GlInfo::new("OpenGL ES 2.0 Mesa".into(), "V3D".into(), "Broadcom".into());
    assert!(info.is_gles2);
    assert_eq!(info.renderer, "V3D");
    assert!(!GlInfo::new("OpenGL ES 3.1 Mesa".into(), "".into(), "".into()).is_gles2);
    assert!(!GlInfo::default().is_gles2);
}

#[test]
fn presenters_default_to_the_panel() {
    let desktop = DesktopConfig::default();
    assert_eq!((desktop.width, desktop.height, desktop.vsync), (800, 480, true));
    assert_eq!(desktop.title, "avionics");
    let kms = KmsConfig::default();
    assert_eq!(kms.device, "/dev/dri/card0");
    assert!(kms.take_vt && kms.acquire_master);
    let off = OffscreenConfig::default();
    assert_eq!((off.width, off.height), (800, 480));
}

#[test]
fn the_preferred_mode_is_used() {
    assert_eq!(choose_mode(&[mode(640, 480, false), mode(800, 480, true)]), Some(1));
    assert_eq!(choose_mode(&[mode(640, 480, false), mode(800, 480, false)]), Some(0));
    assert_eq!(choose_mode(&[]), None);
    assert_eq!(mode_text(&mode(800, 480, true)), "800x480@60");
}

#[test]
fn the_first_connected_display_is_driven() {
    let connectors = [
        connector(false, vec![mode(1920, 1080, true)], vec![3]),
        connector(true, vec![mode(800, 480, true)], vec![7, 8]),
    ];
    assert_eq!(
        select_output(&connectors),
        Ok(Output { connector: 1, mode: 0, crtc: 7 })
    );
    let wired = [Connector { current_crtc: Some(5), ..connector(true, vec![mode(1, 1, false)], vec![]) }];
    assert_eq!(select_output(&wired), Ok(Output { connector: 0, mode: 0, crtc: 5 }));
}

#[test]
fn each_reason_for_no_display_is_told_apart() {
    assert_eq!(select_output(&[]), Err(OutputError::NoDisplay));
    assert_eq!(
        select_output(&[connector(true, vec![], vec![1])]),
        Err(OutputError::NoModes(0))
    );
    assert_eq!(
        select_output(&[connector(true, vec![mode(800, 480, true)], vec![])]),
        Err(OutputError::NoCrtc(0))
    );
}

#[test]
fn a_probe_describes_what_would_be_driven() {
    let connectors = [connector(true, vec![mode(800, 480, true)], vec![7])];
    let names = ["HDMI-A-1".to_string()];
    let probe = describe_node("/dev/dri/card0".to_string(), &names, &connectors, "crtc 7");
    assert_eq!(probe.device, "/dev/dri/card0");
    assert_eq!(
        probe.connectors,
        vec![("HDMI-A-1".to_string(), true, Some("800x480@60".to_string()))]
    );
    assert_eq!(probe.usable_output.as_deref(), Some("HDMI-A-1 800x480@60 on crtc 7"));
}

#[test]
fn a_configuration_that_can_be_scanned_out_is_preferred() {
    assert_eq!(choose_config(&[1, FOURCC_XRGB8888]), Some((1, true)));
    assert_eq!(choose_config(&[1, 2]), Some((0, false)));
    assert_eq!(choose_config(&[]), None);
}

#[test]
fn a_stencil_comes_before_samples() {
    let formats = [
        WindowFormat { stencil: 0, samples: 16 },
        WindowFormat { stencil: 8, samples: 2 },
        WindowFormat { stencil: 8, samples: 4 },
        WindowFormat { stencil: 8, samples: 4 },
    ];
    assert_eq!(pick_config(&formats), Some(2));
    assert_eq!(pick_config(&[]), None);
}

#[test]
fn the_window_gathers_input_until_it_is_asked() {
    let mut h = Harness::new();
    h.window_event(WindowChange::CursorMoved { x: 10_500, y: 20_000 });
    h.window_event(WindowChange::Pressed(Button::Left));
    h.window_event(WindowChange::Pressed(Button::Right));
    h.window_event(WindowChange::Pressed(Button::Other));
    h.window_event(WindowChange::KeyPressed(KeyName::Typed(Some('R'))));
    h.window_event(WindowChange::KeyPressed(KeyName::Space));
    h.window_event(WindowChange::Resized { width: 0, height: 600 });
    assert_eq!(h.take_resize(), Some((1, 600)));
    assert_eq!(h.take_resize(), None);
    assert_eq!(
        h.drain_input(),
        vec![
            DesktopInput::Click { x: 10_500, y: 20_000 },
            DesktopInput::SecondaryClick,
            DesktopInput::Key('R'),
            DesktopInput::Key(' '),
            DesktopInput::Resized { width: 1, height: 600 },
        ]
    );
    assert_eq!(h.drain_input(), vec![]);
    assert_eq!(h.pumped(false), Pump::Continue);
    assert_eq!(h.pumped(true), Pump::Exit);
    h.window_event(WindowChange::KeyPressed(KeyName::Escape));
    assert_eq!(h.pumped(false), Pump::Exit);
}

#[test]
fn an_image_drops_its_opacity() {
    let image = encode_ppm(2, 1, &[1, 2, 3, 255, 4, 5, 6, 0]);
    assert_eq!(image, b"P6\n2 1\n255\n\x01\x02\x03\x04\x05\x06".to_vec());
}
