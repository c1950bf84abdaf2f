//! What the presenters decide: which output, which pixel format, which events count.
//!
//! The panel is driven directly, with no compositor; a window stands in for it on the desk; and a
//! run without either writes its frames to files. What is here is what the three have to choose,
//! on plain descriptions of what the hardware offers.

use vstd::prelude::*;

use crate::text::{chars_of, decimal, digit, is_at, push_decimal, stands_at};

verus! {

/// Result of pumping platform events.
#[derive(Debug, Clone, Copy, PartialEq, Eq, Structural)]
pub enum Pump {
    Continue,
    Exit,
}

// --- what the driver says ------------------------------------------------------------------

/// What the GL driver reports about itself.
#[derive(Debug, Clone)]
pub struct GlInfo {
    pub version: String,
    pub renderer: String,
    pub vendor: String,
    /// Whether the drawing library will take its ES 2.0 path.
    pub is_gles2: bool,
}

/// Whether a version string names OpenGL ES 2.
pub open spec fn names_gles2(version: Seq<char>) -> bool {
    stands_at(version, "OpenGL ES 2."@, 0)
}

impl Default for GlInfo {
    fn default() -> (r: GlInfo)
        ensures
            r.version@ == Seq::<char>::empty(),
            r.renderer@ == Seq::<char>::empty(),
            r.vendor@ == Seq::<char>::empty(),
            !r.is_gles2,
    {
        GlInfo {
            version: String::new(),
            renderer: String::new(),
            vendor: String::new(),
            is_gles2: false,
        }
    }
}

impl GlInfo {
    /// What the driver's three strings say. The test for ES 2 is the one the drawing library makes,
    /// so what is reported is what it will actually decide.
    pub fn new(version: String, renderer: String, vendor: String) -> (r: GlInfo)
        ensures
            r.version == version,
            r.renderer == renderer,
            r.vendor == vendor,
            r.is_gles2 == names_gles2(version@),
    {
        let text: Vec<char> = chars_of(version.as_str());
        let part: Vec<char> = chars_of("OpenGL ES 2.");
        let is_gles2: bool = is_at(text.as_slice(), part.as_slice(), 0);
        GlInfo { version, renderer, vendor, is_gles2 }
    }
}

// --- how to set a presenter up -------------------------------------------------------------

fn owned(s: &str) -> (r: String)
    ensures
        r@ == s@,
{
    let mut out: String = String::new();
    out.append(s);
    assert(out@ =~= s@);
    out
}

/// How to set up the windowed presenter.
#[derive(Debug)]
pub struct DesktopConfig {
    pub title: String,
    /// Initial size in logical pixels. Defaults to the panel's likely native mode, so what is seen
    /// on the desk is laid out the same as what the panel will show.
    pub width: u32,
    pub height: u32,
    /// Wait for vblank. On by default so the window is paced roughly like the panel is.
    pub vsync: bool,
}

impl Default for DesktopConfig {
    fn default() -> (r: DesktopConfig)
        ensures
            r.title@ == "avionics"@,
            r.width == 800,
            r.height == 480,
            r.vsync,
    {
        DesktopConfig { title: owned("avionics"), width: 800, height: 480, vsync: true }
    }
}

/// How to set up the presenter on the panel.
#[derive(Debug)]
pub struct KmsConfig {
    /// DRM node to use.
    pub device: String,
    /// Take the console out of text mode so that it does not draw over the display.
    pub take_vt: bool,
    /// Try to become DRM master explicitly. Harmless when nothing else holds it.
    pub acquire_master: bool,
}

impl Default for KmsConfig {
    fn default() -> (r: KmsConfig)
        ensures
            r.device@ == "/dev/dri/card0"@,
            r.take_vt,
            r.acquire_master,
    {
        KmsConfig { device: owned("/dev/dri/card0"), take_vt: true, acquire_master: true }
    }
}

/// How to set up the presenter that has no display.
#[derive(Debug)]
pub struct OffscreenConfig {
    /// Render node to use.
    pub device: String,
    pub width: u32,
    pub height: u32,
}

impl Default for OffscreenConfig {
    fn default() -> (r: OffscreenConfig)
        ensures
            r.device@ == "/dev/dri/renderD128"@,
            r.width == 800,
            r.height == 480,
    {
        OffscreenConfig { device: owned("/dev/dri/renderD128"), width: 800, height: 480 }
    }
}

// --- choosing an output --------------------------------------------------------------------

/// A mode a display offers.
#[derive(Debug, Clone, Copy, PartialEq, Eq, Structural)]
pub struct DisplayMode {
    pub width: u16,
    pub height: u16,
    pub refresh: u32,
    /// The display's own choice.
    pub preferred: bool,
}

/// A mode, as `800x480@60`.
pub open spec fn mode_of(mode: DisplayMode) -> Seq<char> {
    decimal(mode.width as nat) + "x"@ + decimal(mode.height as nat) + "@"@ + decimal(
        mode.refresh as nat,
    )
}

/// A mode, as `800x480@60`.
pub fn mode_text(mode: &DisplayMode) -> (r: String)
    ensures
        r@ == mode_of(*mode),
{
    let mut out: String = String::new();
    push_decimal(&mut out, mode.width as u64);
    out.append("x");
    push_decimal(&mut out, mode.height as u64);
    out.append("@");
    push_decimal(&mut out, mode.refresh as u64);
    assert(out@ =~= mode_of(*mode));
    out
}

/// Something a display can be plugged into.
#[derive(Debug)]
pub struct Connector {
    pub connected: bool,
    pub modes: Vec<DisplayMode>,
    /// The CRTC it is already wired to.
    pub current_crtc: Option<u32>,
    /// The CRTCs its encoders can use, in the order the encoders are listed.
    pub possible_crtcs: Vec<u32>,
}

/// What to drive: the places of the connector and of its mode, and the CRTC that feeds it.
#[derive(Debug, Clone, Copy, PartialEq, Eq, Structural)]
pub struct Output {
    pub connector: usize,
    pub mode: usize,
    pub crtc: u32,
}

/// Why there is nothing to drive. Where a connector is at fault, its place.
#[derive(Debug, Clone, Copy, PartialEq, Eq, Structural)]
pub enum OutputError {
    NoDisplay,
    NoModes(usize),
    NoCrtc(usize),
}

/// The mode to use: the first preferred one, or the first.
pub open spec fn is_chosen_mode(modes: Seq<DisplayMode>, m: int) -> bool {
    &&& 0 <= m < modes.len()
    &&& if modes[m].preferred {
        forall|k: int| 0 <= k < m ==> !(#[trigger] modes[k]).preferred
    } else {
        m == 0 && forall|k: int| 0 <= k < modes.len() ==> !(#[trigger] modes[k]).preferred
    }
}

/// Choose a mode. The panel's own preferred mode is trusted rather than assuming one: panels of
/// this class ship in more than one size.
pub fn choose_mode(modes: &[DisplayMode]) -> (r: Option<usize>)
    ensures
        match r {
            Some(m) => is_chosen_mode(modes@, m as int),
            None => modes@.len() == 0,
        },
{
    let mut i: usize = 0;
    while i < modes.len()
        invariant
            i <= modes.len(),
            forall|k: int| 0 <= k < i ==> !(#[trigger] modes@[k]).preferred,
        decreases modes.len() - i,
    {
        if modes[i].preferred {
            return Some(i);
        }
        i = i + 1;
    }
    if modes.len() == 0 {
        None
    } else {
        Some(0)
    }
}

/// The CRTC to use: the one the connector is already wired to, or the first it can use.
pub open spec fn chosen_crtc(connector: Connector) -> Option<u32> {
    match connector.current_crtc {
        Some(crtc) => Some(crtc),
        None => if connector.possible_crtcs@.len() > 0 {
            Some(connector.possible_crtcs@[0])
        } else {
            None
        },
    }
}

/// Whether this connector is the first with a display on it.
pub open spec fn is_first_connected(connectors: Seq<Connector>, i: int) -> bool {
    &&& 0 <= i < connectors.len()
    &&& connectors[i].connected
    &&& forall|k: int| 0 <= k < i ==> !(#[trigger] connectors[k]).connected
}

/// Pick a connected connector, its preferred mode, and a CRTC that can drive it.
pub fn select_output(connectors: &[Connector]) -> (r: Result<Output, OutputError>)
    ensures
        match r {
            Ok(output) => {
                &&& is_first_connected(connectors@, output.connector as int)
                &&& is_chosen_mode(
                    connectors@[output.connector as int].modes@,
                    output.mode as int,
                )
                &&& chosen_crtc(connectors@[output.connector as int]) == Some(output.crtc)
            },
            Err(OutputError::NoDisplay) => forall|k: int|
                0 <= k < connectors@.len() ==> !(#[trigger] connectors@[k]).connected,
            Err(OutputError::NoModes(i)) => is_first_connected(connectors@, i as int)
                && connectors@[i as int].modes@.len() == 0,
            Err(OutputError::NoCrtc(i)) => is_first_connected(connectors@, i as int)
                && connectors@[i as int].modes@.len() > 0 && chosen_crtc(connectors@[i as int])
                is None,
        },
{
    let mut i: usize = 0;
    while i < connectors.len()
        invariant
            i <= connectors.len(),
            forall|k: int| 0 <= k < i ==> !(#[trigger] connectors@[k]).connected,
        decreases connectors.len() - i,
    {
        let found: &Connector = &connectors[i];
        if found.connected {
            let mode: usize = match choose_mode(found.modes.as_slice()) {
                Some(mode) => mode,
                None => return Err(OutputError::NoModes(i)),
            };
            return match found.current_crtc {
                Some(crtc) => Ok(Output { connector: i, mode, crtc }),
                None => if found.possible_crtcs.len() > 0 {
                    Ok(Output { connector: i, mode, crtc: found.possible_crtcs[0] })
                } else {
                    Err(OutputError::NoCrtc(i))
                },
            };
        }
        i = i + 1;
    }
    Err(OutputError::NoDisplay)
}

/// What a DRM node looks like, without disturbing it.
#[derive(Debug)]
pub struct Probe {
    pub device: String,
    /// Every connector: its name, whether it is connected, and the mode it would be driven in.
    pub connectors: Vec<(String, bool, Option<String>)>,
    /// The output that could actually be driven, if any.
    pub usable_output: Option<String>,
}

/// What a probe says of a connector.
pub open spec fn is_probed(
    entry: (String, bool, Option<String>),
    name: Seq<char>,
    connector: Connector,
) -> bool {
    &&& entry.0@ == name
    &&& entry.1 == connector.connected
    &&& match entry.2 {
        Some(text) => exists|m: int| #[trigger]
            is_chosen_mode(connector.modes@, m) && text@ == mode_of(connector.modes@[m]),
        None => connector.modes@.len() == 0,
    }
}

/// What a probe says of the output that would be driven.
pub open spec fn usable_of(name: Seq<char>, mode: DisplayMode, crtc: Seq<char>) -> Seq<char> {
    name + " "@ + mode_of(mode) + " on "@ + crtc
}

/// Describe a node from what its connectors offer. The selection is the one that drives the panel,
/// so a probe that finds an output means the real path will work too. `crtc` names the CRTC that
/// would be used.
pub fn describe_node(device: String, names: &[String], connectors: &[Connector], crtc: &str) -> (r:
    Probe)
    requires
        names@.len() == connectors@.len(),
    ensures
        r.device == device,
        r.connectors@.len() == names@.len(),
        forall|i: int|
            0 <= i < names@.len() ==> is_probed(
                #[trigger] r.connectors@[i],
                names@[i]@,
                connectors@[i],
            ),
        match r.usable_output {
            Some(text) => exists|i: int, m: int|
                {
                    &&& #[trigger] is_first_connected(connectors@, i)
                    &&& #[trigger] is_chosen_mode(connectors@[i].modes@, m)
                    &&& chosen_crtc(connectors@[i]) is Some
                    &&& text@ == usable_of(names@[i]@, connectors@[i].modes@[m], crtc@)
                },
            None => forall|i: int| #[trigger]
                is_first_connected(connectors@, i) ==> connectors@[i].modes@.len() == 0
                    || chosen_crtc(connectors@[i]) is None,
        },
{
    let mut list: Vec<(String, bool, Option<String>)> = Vec::new();
    let mut i: usize = 0;
    while i < connectors.len()
        invariant
            i <= connectors.len(),
            names@.len() == connectors@.len(),
            list@.len() == i,
            forall|k: int|
                0 <= k < i ==> is_probed(#[trigger] list@[k], names@[k]@, connectors@[k]),
        decreases connectors.len() - i,
    {
        let found: &Connector = &connectors[i];
        let mode: Option<String> = match choose_mode(found.modes.as_slice()) {
            Some(m) => Some(mode_text(&found.modes[m])),
            None => None,
        };
        list.push((owned(names[i].as_str()), found.connected, mode));
        i = i + 1;
    }
    let usable: Option<String> = match select_output(connectors) {
        Ok(output) => {
            let mut text: String = owned(names[output.connector].as_str());
            let mode: DisplayMode = connectors[output.connector].modes[output.mode];
            text.append(" ");
            text.append(mode_text(&mode).as_str());
            text.append(" on ");
            text.append(crtc);
            assert(text@ =~= usable_of(names@[output.connector as int]@, mode, crtc@));
            Some(text)
        },
        Err(e) => {
            proof {
                assert forall|k: int| #[trigger] is_first_connected(connectors@, k) implies
                    connectors@[k].modes@.len() == 0 || chosen_crtc(connectors@[k]) is None by {
                    match e {
                        OutputError::NoDisplay => {},
                        OutputError::NoModes(j) => {
                            only_one_is_first(connectors@, j as int, k);
                        },
                        OutputError::NoCrtc(j) => {
                            only_one_is_first(connectors@, j as int, k);
                        },
                    }
                }
            }
            None
        },
    };
    Probe { device, connectors: list, usable_output: usable }
}

proof fn only_one_is_first(connectors: Seq<Connector>, i: int, j: int)
    requires
        is_first_connected(connectors, i),
        is_first_connected(connectors, j),
    ensures
        i == j,
{
    if i < j {
        assert(!connectors[i].connected);
    } else if j < i {
        assert(!connectors[j].connected);
    }
}

// --- choosing a pixel format ---------------------------------------------------------------

/// The pixel format the display controller scans out: `XR24`, as a little-endian code.
pub const FOURCC_XRGB8888: u32 = 0x3432_5258;

/// Choose among configurations by the pixel format each has: the first the display controller can
/// scan out, or the first there is. Whether it can be scanned out comes with it.
pub fn choose_config(visuals: &[u32]) -> (r: Option<(usize, bool)>)
    ensures
        match r {
            Some((i, scannable)) => {
                &&& i < visuals@.len()
                &&& scannable == visuals@.contains(FOURCC_XRGB8888)
                &&& if scannable {
                    visuals@[i as int] == FOURCC_XRGB8888 && forall|k: int|
                        0 <= k < i ==> #[trigger] visuals@[k] != FOURCC_XRGB8888
                } else {
                    i == 0
                }
            },
            None => visuals@.len() == 0,
        },
{
    let mut i: usize = 0;
    while i < visuals.len()
        invariant
            i <= visuals.len(),
            forall|k: int| 0 <= k < i ==> #[trigger] visuals@[k] != FOURCC_XRGB8888,
        decreases visuals.len() - i,
    {
        if visuals[i] == FOURCC_XRGB8888 {
            assert(visuals@.contains(visuals@[i as int]));
            return Some((i, true));
        }
        i = i + 1;
    }
    if visuals.len() == 0 {
        None
    } else {
        Some((0, false))
    }
}

/// What a window's configuration offers.
#[derive(Debug, Clone, Copy, PartialEq, Eq, Structural)]
pub struct WindowFormat {
    pub stencil: u8,
    pub samples: u8,
}

impl WindowFormat {
    /// Whether paths can be filled with it. The stencil is not optional: without one nothing is
    /// drawn, silently.
    pub open spec fn fills(self) -> bool {
        self.stencil >= 8
    }

    /// Whether this one is to be had rather than one that came before it.
    pub open spec fn beats(self, other: WindowFormat) -> bool {
        if self.fills() == other.fills() {
            self.samples > other.samples
        } else {
            self.fills()
        }
    }
}

/// Prefer a configuration with a stencil buffer, then the most samples on offer, then the first.
pub fn pick_config(formats: &[WindowFormat]) -> (r: Option<usize>)
    ensures
        match r {
            Some(i) => {
                &&& i < formats@.len()
                &&& forall|k: int|
                    0 <= k < formats@.len() ==> !(#[trigger] formats@[k]).beats(formats@[i as int])
                &&& forall|k: int| 0 <= k < i ==> formats@[i as int].beats(#[trigger] formats@[k])
            },
            None => formats@.len() == 0,
        },
{
    if formats.len() == 0 {
        return None;
    }
    let mut best: usize = 0;
    let mut i: usize = 1;
    while i < formats.len()
        invariant
            best < i <= formats.len(),
            forall|k: int|
                0 <= k < i ==> !(#[trigger] formats@[k]).beats(formats@[best as int]),
            forall|k: int| 0 <= k < best ==> formats@[best as int].beats(#[trigger] formats@[k]),
        decreases formats.len() - i,
    {
        let a: WindowFormat = formats[i];
        let b: WindowFormat = formats[best];
        let better: bool = if (a.stencil >= 8) == (b.stencil >= 8) {
            a.samples > b.samples
        } else {
            a.stencil >= 8
        };
        if better {
            best = i;
        }
        i = i + 1;
    }
    Some(best)
}

// --- the window ----------------------------------------------------------------------------

/// Something done with the mouse or keyboard. Positions are in thousandths of a pixel.
#[derive(Debug, Clone, Copy, PartialEq, Eq, Structural)]
pub enum DesktopInput {
    /// Left click. Stands in for a single-finger tap.
    Click { x: i64, y: i64 },
    /// Right click. Stands in for a two-finger tap.
    SecondaryClick,
    /// A character key was pressed.
    Key(char),
    /// The drawable was resized.
    Resized { width: u32, height: u32 },
}

/// A mouse button.
#[derive(Debug, Clone, Copy, PartialEq, Eq, Structural)]
pub enum Button {
    Left,
    Right,
    Other,
}

/// A key of the keyboard.
#[derive(Debug, Clone, Copy, PartialEq, Eq, Structural)]
pub enum KeyName {
    Escape,
    Space,
    /// The first character the key types, if it types any. Case is preserved: the two cases of a
    /// letter do different things.
    Typed(Option<char>),
    Other,
}

/// What the window system reports.
#[derive(Debug, Clone, Copy, PartialEq, Eq, Structural)]
pub enum WindowChange {
    CloseRequested,
    Resized { width: u32, height: u32 },
    CursorMoved { x: i64, y: i64 },
    Pressed(Button),
    KeyPressed(KeyName),
    Other,
}

/// What a window has been told since it was last asked.
#[derive(Debug)]
pub struct Harness {
    pub pending: Vec<DesktopInput>,
    pub cursor: (i64, i64),
    pub exit: bool,
    pub resized: Option<(u32, u32)>,
}

/// A side that is at least one pixel long.
pub open spec fn visible(side: u32) -> u32 {
    if side == 0 {
        1
    } else {
        side
    }
}

/// The input a report amounts to, if any.
pub open spec fn input_of(change: WindowChange, cursor: (i64, i64)) -> Option<DesktopInput> {
    match change {
        WindowChange::Resized { width, height } => Some(
            DesktopInput::Resized { width: visible(width), height: visible(height) },
        ),
        WindowChange::Pressed(Button::Left) => Some(
            DesktopInput::Click { x: cursor.0, y: cursor.1 },
        ),
        WindowChange::Pressed(Button::Right) => Some(DesktopInput::SecondaryClick),
        WindowChange::KeyPressed(KeyName::Space) => Some(DesktopInput::Key(' ')),
        WindowChange::KeyPressed(KeyName::Typed(Some(c))) => Some(DesktopInput::Key(c)),
        _ => None,
    }
}

fn at_least_one(side: u32) -> (r: u32)
    ensures
        r == visible(side),
{
    if side == 0 {
        1
    } else {
        side
    }
}

fn input_for(change: WindowChange, cursor: (i64, i64)) -> (r: Option<DesktopInput>)
    ensures
        r == input_of(change, cursor),
{
    match change {
        WindowChange::Resized { width, height } => Some(
            DesktopInput::Resized { width: at_least_one(width), height: at_least_one(height) },
        ),
        WindowChange::Pressed(Button::Left) => Some(
            DesktopInput::Click { x: cursor.0, y: cursor.1 },
        ),
        WindowChange::Pressed(Button::Right) => Some(DesktopInput::SecondaryClick),
        WindowChange::KeyPressed(KeyName::Space) => Some(DesktopInput::Key(' ')),
        WindowChange::KeyPressed(KeyName::Typed(Some(c))) => Some(DesktopInput::Key(c)),
        _ => None,
    }
}

impl Harness {
    pub fn new() -> (r: Harness)
        ensures
            r.pending@.len() == 0,
            r.cursor == (0i64, 0i64),
            !r.exit,
            r.resized is None,
    {
        Harness { pending: Vec::new(), cursor: (0, 0), exit: false, resized: None }
    }

    /// Take note of one report.
    pub fn window_event(&mut self, change: WindowChange)
        ensures
            final(self).pending@ == match input_of(change, old(self).cursor) {
                Some(input) => old(self).pending@.push(input),
                None => old(self).pending@,
            },
            final(self).cursor == (if change is CursorMoved {
                (change->CursorMoved_x, change->CursorMoved_y)
            } else {
                old(self).cursor
            }),
            final(self).exit == (old(self).exit || change == WindowChange::CloseRequested || change
                == WindowChange::KeyPressed(KeyName::Escape)),
            final(self).resized == match change {
                WindowChange::Resized { width, height } => Some((visible(width), visible(height))),
                _ => old(self).resized,
            },
    {
        match input_for(change, self.cursor) {
            Some(input) => self.pending.push(input),
            None => {},
        }
        match change {
            WindowChange::CloseRequested => self.exit = true,
            WindowChange::KeyPressed(KeyName::Escape) => self.exit = true,
            WindowChange::CursorMoved { x, y } => self.cursor = (x, y),
            WindowChange::Resized { width, height } => {
                self.resized = Some((at_least_one(width), at_least_one(height)));
            },
            _ => {},
        }
    }

    /// Take everything that has been done since the last call.
    pub fn drain_input(&mut self) -> (r: Vec<DesktopInput>)
        ensures
            r@ == old(self).pending@,
            final(self).pending@.len() == 0,
            final(self).cursor == old(self).cursor,
            final(self).exit == old(self).exit,
            final(self).resized == old(self).resized,
    {
        let mut out: Vec<DesktopInput> = Vec::new();
        std::mem::swap(&mut out, &mut self.pending);
        out
    }

    /// Take the new size, if there is one.
    pub fn take_resize(&mut self) -> (r: Option<(u32, u32)>)
        ensures
            r == old(self).resized,
            final(self).resized is None,
            final(self).pending@ == old(self).pending@,
            final(self).cursor == old(self).cursor,
            final(self).exit == old(self).exit,
    {
        let size: Option<(u32, u32)> = self.resized;
        self.resized = None;
        size
    }

    /// Whether to carry on. `closed` is whether the window system has shut the loop down.
    pub fn pumped(&self, closed: bool) -> (r: Pump)
        ensures
            r == if self.exit || closed {
                Pump::Exit
            } else {
                Pump::Continue
            },
    {
        if self.exit || closed {
            Pump::Exit
        } else {
            Pump::Continue
        }
    }
}

// --- image files ---------------------------------------------------------------------------

/// What starts an image file: its kind, its size, and the most a channel can be.
pub open spec fn ppm_header(width: nat, height: nat) -> Seq<char> {
    "P6\n"@ + decimal(width) + " "@ + decimal(height) + "\n255\n"@
}

/// The colours of an image without its opacity: three bytes of every four.
pub open spec fn opaque_bytes(rgba: Seq<u8>) -> Seq<u8>
    decreases rgba.len(),
{
    if rgba.len() < 4 {
        seq![]
    } else {
        seq![rgba[0], rgba[1], rgba[2]] + opaque_bytes(rgba.skip(4))
    }
}

fn header_text(width: u32, height: u32) -> (r: String)
    ensures
        r@ == ppm_header(width as nat, height as nat),
{
    let mut out: String = String::new();
    out.append("P6\n");
    push_decimal(&mut out, width as u64);
    out.append(" ");
    push_decimal(&mut out, height as u64);
    out.append("\n255\n");
    assert(out@ =~= ppm_header(width as nat, height as nat));
    out
}

/// Whether bytes are the characters of a text, one for one.
pub open spec fn are_characters(bytes: Seq<u8>, text: Seq<char>) -> bool {
    &&& bytes.len() == text.len()
    &&& forall|i: int| 0 <= i < bytes.len() ==> #[trigger] bytes[i] as int == text[i] as int
}

fn byte_of(c: char) -> (r: u8)
    requires
        c <= '~',
    ensures
        r as int == c as int,
{
    c as u8
}

/// Write an image as a binary PPM, from rows of red, green, blue and opacity.
pub fn encode_ppm(width: u32, height: u32, rgba: &[u8]) -> (r: Vec<u8>)
    ensures
        ({
            let header = ppm_header(width as nat, height as nat);
            &&& r@.len() == header.len() + opaque_bytes(rgba@).len()
            &&& are_characters(r@.take(header.len() as int), header)
            &&& r@.skip(header.len() as int) == opaque_bytes(rgba@)
        }),
{
    let header: Vec<char> = chars_of(header_text(width, height).as_str());
    let mut out: Vec<u8> = Vec::new();
    proof {
        header_is_ascii(width as nat, height as nat);
    }
    let mut i: usize = 0;
    while i < header.len()
        invariant
            i <= header.len(),
            out@.len() == i,
            forall|k: int| 0 <= k < header@.len() ==> (#[trigger] header@[k]) <= '~',
            forall|k: int| 0 <= k < i ==> (#[trigger] out@[k]) as int == header@[k] as int,
        decreases header.len() - i,
    {
        out.push(byte_of(header[i]));
        i = i + 1;
    }
    let ghost start = out@;
    let mut p: usize = 0;
    assert(rgba@.skip(0) =~= rgba@);
    assert(out@ =~= start + Seq::<u8>::empty());
    let ghost mut done: Seq<u8> = seq![];
    while rgba.len() - p >= 4
        invariant
            p <= rgba.len(),
            out@ == start + done,
            opaque_bytes(rgba@) == done + opaque_bytes(rgba@.skip(p as int)),
        decreases rgba.len() - p,
    {
        proof {
            let rest = rgba@.skip(p as int);
            assert(rest.skip(4) =~= rgba@.skip(p + 4));
            let pixel = seq![rest[0], rest[1], rest[2]];
            assert(done + (pixel + opaque_bytes(rest.skip(4))) =~= (done + pixel) + opaque_bytes(
                rest.skip(4),
            ));
            done = done + pixel;
        }
        out.push(rgba[p]);
        out.push(rgba[p + 1]);
        out.push(rgba[p + 2]);
        assert(out@ =~= start + done);
        p = p + 4;
    }
    assert(opaque_bytes(rgba@) =~= done);
    assert(out@.take(start.len() as int) =~= start);
    assert(out@.skip(start.len() as int) =~= done);
    out
}

proof fn decimal_is_ascii(n: nat)
    ensures
        forall|k: int| 0 <= k < decimal(n).len() ==> (#[trigger] decimal(n)[k]) <= '~',
    decreases n,
{
    if n >= 10 {
        decimal_is_ascii(n / 10);
        assert forall|k: int| 0 <= k < decimal(n).len() implies (#[trigger] decimal(n)[k]) <= '~' by {
            if k < decimal(n / 10).len() {
                assert(decimal(n)[k] == decimal(n / 10)[k]);
            } else {
                assert(decimal(n)[k] == digit(n % 10));
            }
        }
    } else {
        assert(decimal(n)[0] == digit(n));
    }
}

proof fn header_is_ascii(width: nat, height: nat)
    ensures
        forall|k: int|
            0 <= k < ppm_header(width, height).len() ==> (#[trigger] ppm_header(
                width,
                height,
            )[k]) <= '~',
{
    decimal_is_ascii(width);
    decimal_is_ascii(height);
    reveal_strlit("P6\n");
    reveal_strlit(" ");
    reveal_strlit("\n255\n");
    let (a, b, c, d, e) = ("P6\n"@, decimal(width), " "@, decimal(height), "\n255\n"@);
    let text = ppm_header(width, height);
    assert forall|k: int| 0 <= k < text.len() implies (#[trigger] text[k]) <= '~' by {
        if k < a.len() {
            assert(text[k] == a[k]);
        } else if k < a.len() + b.len() {
            assert(text[k] == b[k - a.len()]);
        } else if k < a.len() + b.len() + c.len() {
            assert(text[k] == c[k - a.len() - b.len()]);
        } else if k < a.len() + b.len() + c.len() + d.len() {
            assert(text[k] == d[k - a.len() - b.len() - c.len()]);
        } else {
            assert(text[k] == e[k - a.len() - b.len() - c.len() - d.len()]);
        }
    }
}

// --- laws ----------------------------------------------------------------------------------

/// An image file keeps three bytes of every pixel.
pub proof fn an_image_has_three_bytes_a_pixel(rgba: Seq<u8>, pixels: nat)
    requires
        rgba.len() == 4 * pixels,
    ensures
        opaque_bytes(rgba).len() == 3 * pixels,
    decreases pixels,
{
    if pixels > 0 {
        an_image_has_three_bytes_a_pixel(rgba.skip(4), (pixels - 1) as nat);
    }
}

/// A configuration that can fill paths is never passed over for one that cannot.
pub proof fn a_stencil_is_never_given_up(
    formats: Seq<WindowFormat>,
    chosen: int,
    k: int,
)
    requires
        0 <= chosen < formats.len(),
        0 <= k < formats.len(),
        !formats[k].beats(formats[chosen]),
        formats[k].fills(),
    ensures
        formats[chosen].fills(),
{
}

/// A dropped opacity leaves the colours as they were: each pixel keeps its red, green and blue, in its
/// own place.
pub proof fn pixels_keep_their_colours(rgba: Seq<u8>, pixels: nat, k: int)
    requires
        rgba.len() == 4 * pixels,
        0 <= k < pixels,
    ensures
        ({
            let out = opaque_bytes(rgba);
            &&& out.len() == 3 * pixels
            &&& out[3 * k] == rgba[4 * k]
            &&& out[3 * k + 1] == rgba[4 * k + 1]
            &&& out[3 * k + 2] == rgba[4 * k + 2]
        }),
    decreases pixels,
{
    an_image_has_three_bytes_a_pixel(rgba, pixels);
    if k > 0 {
        pixels_keep_their_colours(rgba.skip(4), (pixels - 1) as nat, k - 1);
        an_image_has_three_bytes_a_pixel(rgba.skip(4), (pixels - 1) as nat);
    }
}

/// An image says that it is one, its width before its height, and that a channel is a byte. A mode reads
/// the same way, with its rate.
pub proof fn sizes_are_written_width_first(width: nat, height: nat, mode: DisplayMode)
    ensures
        ppm_header(width, height) == "P6\n"@ + decimal(width) + " "@ + decimal(height) + "\n255\n"@,
        mode_of(mode) == decimal(mode.width as nat) + "x"@ + decimal(mode.height as nat) + "@"@
            + decimal(mode.refresh as nat),
{
}

/// The mode a display prefers is taken, the first of them, and the first of all where it prefers none.
pub proof fn the_preferred_mode_is_taken(modes: Seq<DisplayMode>, m: int, k: int)
    requires
        is_chosen_mode(modes, m),
        0 <= k < modes.len(),
    ensures
        modes[k].preferred ==> modes[m].preferred && m <= k,
        !modes[m].preferred ==> m == 0,
{
}

/// What drives a display already goes on driving it; otherwise the first that can is taken.
pub proof fn what_drives_a_display_goes_on(connector: Connector)
    ensures
        connector.current_crtc is Some ==> chosen_crtc(connector) == connector.current_crtc,
        connector.current_crtc is None && connector.possible_crtcs@.len() > 0 ==> chosen_crtc(
            connector,
        ) == Some(connector.possible_crtcs@[0]),
        connector.current_crtc is None && connector.possible_crtcs@.len() == 0 ==> chosen_crtc(
            connector,
        ) is None,
{
}

/// A format with a stencil of eight bits beats one without, and among equals the one with more samples
/// does. None beats itself, and no two beat each other.
pub proof fn a_stencil_beats_samples(a: WindowFormat, b: WindowFormat)
    ensures
        a.stencil >= 8 && b.stencil < 8 ==> a.beats(b) && !b.beats(a),
        a.stencil >= 8 && b.stencil >= 8 ==> (a.beats(b) <==> a.samples > b.samples),
        a.stencil < 8 && b.stencil < 8 ==> (a.beats(b) <==> a.samples > b.samples),
        !a.beats(a),
        a.beats(b) ==> !b.beats(a),
{
}

/// A left click is a tap where the pointer is, a right click a tap with two fingers, and a key what it
/// types. A window is never less than a pixel wide or high.
pub proof fn a_desktop_stands_in_for_the_panel(cursor: (i64, i64), c: char, width: u32, height: u32)
    ensures
        input_of(WindowChange::Pressed(Button::Left), cursor) == Some(
            DesktopInput::Click { x: cursor.0, y: cursor.1 },
        ),
        input_of(WindowChange::Pressed(Button::Right), cursor) == Some(DesktopInput::SecondaryClick),
        input_of(WindowChange::KeyPressed(KeyName::Space), cursor) == Some(DesktopInput::Key(' ')),
        input_of(WindowChange::KeyPressed(KeyName::Typed(Some(c))), cursor) == Some(
            DesktopInput::Key(c),
        ),
        input_of(WindowChange::KeyPressed(KeyName::Typed(None)), cursor) is None,
        width > 0 && height > 0 ==> input_of(WindowChange::Resized { width, height }, cursor) == Some(
            DesktopInput::Resized { width, height },
        ),
        width == 0 && height > 0 ==> input_of(WindowChange::Resized { width, height }, cursor)
            == Some(DesktopInput::Resized { width: 1, height }),
        height == 0 && width > 0 ==> input_of(WindowChange::Resized { width, height }, cursor)
            == Some(DesktopInput::Resized { width, height: 1 }),
{
}

/// A version names the second of its line only where it says so at its very start.
pub proof fn versions_are_named_at_the_start(rest: Seq<char>)
    ensures
        names_gles2("OpenGL ES 2."@ + rest),
{
    let version = "OpenGL ES 2."@ + rest;
    assert(version.subrange(0, "OpenGL ES 2."@.len() as int) =~= "OpenGL ES 2."@);
}

} // verus!
