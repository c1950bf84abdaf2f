//! The command line.
//!
//! Arguments are read left to right, and the last of two that set the same thing holds. Two of them
//! are fractions, which are read elsewhere: what each argument amounts to as one is given beside
//! the arguments themselves, and the rate of a replay is handed back as the place of the argument
//! that gives it.

use vstd::prelude::*;
use vstd::slice::slice_subrange;

use crate::projection::Orientation;
use crate::text::{all_digits, is_digit, is_space, number, separates, value_of_digit};
use crate::text::{chars_of, digits_only, lowercase, lowered, same, uppercase, uppered};
use crate::threat::AltitudeFilter;
use crate::view::{MapLayers, Page, ViewState};

verus! {

// --- numbers -------------------------------------------------------------------------------

/// The digits of a number, which a plus sign may stand before.
pub open spec fn without_plus(s: Seq<char>) -> Seq<char> {
    if s.len() > 0 && s[0] == '+' {
        s.skip(1)
    } else {
        s
    }
}

/// The number a text writes, if it is one and not above `most`.
pub open spec fn unsigned(s: Seq<char>, most: nat) -> Option<nat> {
    let digits = without_plus(s);
    if digits.len() > 0 && all_digits(digits) && number(digits) <= most {
        Some(number(digits))
    } else {
        None
    }
}

/// A run of digits is at least any run it starts with.
proof fn number_grows(s: Seq<char>, k: int)
    requires
        0 <= k <= s.len(),
    ensures
        number(s.take(k)) <= number(s),
    decreases s.len() - k,
{
    if k < s.len() {
        number_grows(s, k + 1);
        assert(s.take(k + 1).drop_last() =~= s.take(k));
    } else {
        assert(s.take(k) =~= s);
    }
}

fn read_unsigned(v: &[char], most: u64) -> (r: Option<u64>)
    ensures
        match (r, unsigned(v@, most as nat)) {
            (Some(n), Some(m)) => n == m,
            (None, None) => true,
            _ => false,
        },
{
    let from: usize = if v.len() > 0 && v[0] == '+' {
        1
    } else {
        0
    };
    let digits: &[char] = slice_subrange(v, from, v.len());
    assert(digits@ =~= without_plus(v@));
    if digits.len() == 0 || !digits_only(digits) {
        return None;
    }
    let mut n: u64 = 0;
    let mut i: usize = 0;
    assert(digits@.take(0) =~= seq![]);
    while i < digits.len()
        invariant
            i <= digits.len(),
            digits@ == without_plus(v@),
            digits@.len() > 0,
            all_digits(digits@),
            n == number(digits@.take(i as int)),
            n <= most,
        decreases digits.len() - i,
    {
        proof {
            assert(digits@.take(i + 1).drop_last() =~= digits@.take(i as int));
            assert(digits@.take(i + 1).last() == digits@[i as int]);
            assert(is_digit(digits@[i as int]));
            number_grows(digits@, i + 1);
        }
        let next: u128 = 10 * (n as u128) + value_of_digit(digits[i]) as u128;
        if next > most as u128 {
            return None;
        }
        n = next as u64;
        i = i + 1;
    }
    assert(digits@.take(i as int) =~= digits@);
    Some(n)
}

/// Read a number that is at most `most`.
pub fn parse_unsigned(s: &str, most: u64) -> (r: Option<u64>)
    ensures
        match (r, unsigned(s@, most as nat)) {
            (Some(n), Some(m)) => n == m,
            (None, None) => true,
            _ => false,
        },
{
    let v: Vec<char> = chars_of(s);
    read_unsigned(v.as_slice(), most)
}

// --- sizes ---------------------------------------------------------------------------------

/// A text without the spaces in front.
pub open spec fn trim_front(s: Seq<char>) -> Seq<char>
    decreases s.len(),
{
    if s.len() > 0 && is_space(s[0]) {
        trim_front(s.skip(1))
    } else {
        s
    }
}

/// A text without the spaces behind.
pub open spec fn trim_back(s: Seq<char>) -> Seq<char>
    decreases s.len(),
{
    if s.len() > 0 && is_space(s.last()) {
        trim_back(s.drop_last())
    } else {
        s
    }
}

/// A text without the spaces around it.
pub open spec fn trimmed(s: Seq<char>) -> Seq<char> {
    trim_back(trim_front(s))
}

fn trim<'a>(v: &'a [char]) -> (r: &'a [char])
    ensures
        r@ == trimmed(v@),
{
    let mut from: usize = 0;
    assert(v@.skip(0) =~= v@);
    while from < v.len() && separates(v[from])
        invariant
            from <= v.len(),
            trim_front(v@) == trim_front(v@.skip(from as int)),
        decreases v.len() - from,
    {
        assert(v@.skip(from as int).skip(1) =~= v@.skip(from + 1));
        from = from + 1;
    }
    let mut to: usize = v.len();
    let ghost front = v@.skip(from as int);
    assert(front == trim_front(v@));
    assert(front.take(to - from) =~= front);
    while to > from && separates(v[to - 1])
        invariant
            from <= to <= v.len(),
            front == v@.skip(from as int),
            trim_back(front) == trim_back(front.take(to - from)),
        decreases to,
    {
        assert(front.take(to - from).drop_last() =~= front.take(to - from - 1));
        to = to - 1;
    }
    assert(v@.subrange(from as int, to as int) =~= front.take(to - from));
    slice_subrange(v, from, to)
}

/// Whether a character stands between a width and a height.
pub open spec fn is_times(c: char) -> bool {
    c == 'x' || c == 'X'
}

/// Where the first such character stands; the length when there is none.
pub open spec fn first_times(s: Seq<char>) -> int
    decreases s.len(),
{
    if s.len() == 0 || is_times(s[0]) {
        0
    } else {
        1 + first_times(s.skip(1))
    }
}

/// Why a size cannot be read.
#[derive(Debug, Clone, Copy, PartialEq, Eq, Structural)]
pub enum SizeFault {
    /// Nothing stands between a width and a height.
    Shape,
    /// One of the two is no number.
    Number,
}

/// The size a text writes, such as `800x480`.
pub open spec fn size_of(s: Seq<char>) -> Result<(nat, nat), SizeFault> {
    let at = first_times(s);
    if at >= s.len() {
        Err(SizeFault::Shape)
    } else {
        match (
            unsigned(trimmed(s.take(at)), u32::MAX as nat),
            unsigned(trimmed(s.skip(at + 1)), u32::MAX as nat),
        ) {
            (Some(w), Some(h)) => Ok((w, h)),
            _ => Err(SizeFault::Number),
        }
    }
}

/// Read a size such as `800x480`.
pub fn parse_size(s: &str) -> (r: Result<(u32, u32), SizeFault>)
    ensures
        match (r, size_of(s@)) {
            (Ok(a), Ok(b)) => a.0 == b.0 && a.1 == b.1,
            (Err(a), Err(b)) => a == b,
            _ => false,
        },
{
    let v: Vec<char> = chars_of(s);
    let mut at: usize = 0;
    assert(v@.skip(0) =~= v@);
    while at < v.len() && v[at] != 'x' && v[at] != 'X'
        invariant
            at <= v.len(),
            v@ == s@,
            first_times(s@) == at + first_times(s@.skip(at as int)),
        decreases v.len() - at,
    {
        assert(s@.skip(at as int).skip(1) =~= s@.skip(at + 1));
        at = at + 1;
    }
    assert(at == first_times(s@));
    if at == v.len() {
        return Err(SizeFault::Shape);
    }
    let left: &[char] = slice_subrange(v.as_slice(), 0, at);
    let right: &[char] = slice_subrange(v.as_slice(), at + 1, v.len());
    assert(left@ =~= s@.take(at as int));
    assert(right@ =~= s@.skip(at + 1));
    match (read_unsigned(trim(left), u32::MAX as u64), read_unsigned(trim(right), u32::MAX as u64)) {
        (Some(w), Some(h)) => Ok((w as u32, h as u32)),
        _ => Err(SizeFault::Number),
    }
}

// --- the arguments -------------------------------------------------------------------------

/// What an argument amounts to as a fraction.
#[derive(Debug, Clone, Copy, PartialEq, Eq, Structural)]
pub enum Reading {
    /// It is none.
    Words,
    Fraction {
        /// Whether it is not zero or below.
        positive: bool,
        /// It in thousandths, if it is a whole number of them.
        thousandths: Option<u32>,
    },
}

/// What an argument asks for.
#[derive(Debug, Clone, Copy, PartialEq, Eq, Structural)]
pub enum Flag {
    Help,
    Host,
    Port,
    Replay,
    Speed,
    Repeat,
    Offscreen,
    Window,
    Out,
    DumpEvery,
    Device,
    NoVt,
    Check,
    Frames,
    TrackUp,
    WeatherPage,
    AhrsPage,
    Decode,
    NoUnderlay,
    Chart,
    Inspect,
    Layers,
    Range,
    AltFilter,
    Size,
    Unknown,
}

/// What an argument asks for.
pub open spec fn flag_of(arg: Seq<char>) -> Flag {
    if arg == "-h"@ || arg == "--help"@ {
        Flag::Help
    } else if arg == "--host"@ {
        Flag::Host
    } else if arg == "--port"@ {
        Flag::Port
    } else if arg == "--replay"@ {
        Flag::Replay
    } else if arg == "--speed"@ {
        Flag::Speed
    } else if arg == "--repeat"@ {
        Flag::Repeat
    } else if arg == "--offscreen"@ {
        Flag::Offscreen
    } else if arg == "--window"@ {
        Flag::Window
    } else if arg == "--out"@ {
        Flag::Out
    } else if arg == "--dump-every"@ {
        Flag::DumpEvery
    } else if arg == "--device"@ {
        Flag::Device
    } else if arg == "--no-vt"@ {
        Flag::NoVt
    } else if arg == "--check"@ {
        Flag::Check
    } else if arg == "--frames"@ {
        Flag::Frames
    } else if arg == "--track-up"@ {
        Flag::TrackUp
    } else if arg == "--weather-page"@ {
        Flag::WeatherPage
    } else if arg == "--ahrs-page"@ {
        Flag::AhrsPage
    } else if arg == "--decode"@ {
        Flag::Decode
    } else if arg == "--no-underlay"@ {
        Flag::NoUnderlay
    } else if arg == "--chart"@ {
        Flag::Chart
    } else if arg == "--inspect"@ {
        Flag::Inspect
    } else if arg == "--map"@ {
        Flag::Layers
    } else if arg == "--range"@ {
        Flag::Range
    } else if arg == "--alt-filter"@ {
        Flag::AltFilter
    } else if arg == "--size"@ {
        Flag::Size
    } else {
        Flag::Unknown
    }
}

fn read_flag(arg: &str) -> (r: Flag)
    ensures
        r == flag_of(arg@),
{
    if same(arg, "-h") || same(arg, "--help") {
        Flag::Help
    } else if same(arg, "--host") {
        Flag::Host
    } else if same(arg, "--port") {
        Flag::Port
    } else if same(arg, "--replay") {
        Flag::Replay
    } else if same(arg, "--speed") {
        Flag::Speed
    } else if same(arg, "--repeat") {
        Flag::Repeat
    } else if same(arg, "--offscreen") {
        Flag::Offscreen
    } else if same(arg, "--window") {
        Flag::Window
    } else if same(arg, "--out") {
        Flag::Out
    } else if same(arg, "--dump-every") {
        Flag::DumpEvery
    } else if same(arg, "--device") {
        Flag::Device
    } else if same(arg, "--no-vt") {
        Flag::NoVt
    } else if same(arg, "--check") {
        Flag::Check
    } else if same(arg, "--frames") {
        Flag::Frames
    } else if same(arg, "--track-up") {
        Flag::TrackUp
    } else if same(arg, "--weather-page") {
        Flag::WeatherPage
    } else if same(arg, "--ahrs-page") {
        Flag::AhrsPage
    } else if same(arg, "--decode") {
        Flag::Decode
    } else if same(arg, "--no-underlay") {
        Flag::NoUnderlay
    } else if same(arg, "--chart") {
        Flag::Chart
    } else if same(arg, "--inspect") {
        Flag::Inspect
    } else if same(arg, "--map") {
        Flag::Layers
    } else if same(arg, "--range") {
        Flag::Range
    } else if same(arg, "--alt-filter") {
        Flag::AltFilter
    } else if same(arg, "--size") {
        Flag::Size
    } else {
        Flag::Unknown
    }
}

impl Flag {
    /// Whether the argument after this one is its value.
    pub open spec fn takes_value(self) -> bool {
        match self {
            Flag::Host
            | Flag::Port
            | Flag::Replay
            | Flag::Speed
            | Flag::Out
            | Flag::DumpEvery
            | Flag::Device
            | Flag::Frames
            | Flag::Chart
            | Flag::Inspect
            | Flag::Layers
            | Flag::Range
            | Flag::AltFilter
            | Flag::Size => true,
            _ => false,
        }
    }

    fn needs_value(self) -> (r: bool)
        ensures
            r == self.takes_value(),
    {
        match self {
            Flag::Host
            | Flag::Port
            | Flag::Replay
            | Flag::Speed
            | Flag::Out
            | Flag::DumpEvery
            | Flag::Device
            | Flag::Frames
            | Flag::Chart
            | Flag::Inspect
            | Flag::Layers
            | Flag::Range
            | Flag::AltFilter
            | Flag::Size => true,
            _ => false,
        }
    }
}

/// What is wrong with a command line. Each names the place of the argument at fault: the one that
/// asks for something, or, where there is one, its value.
#[derive(Debug, Clone, Copy, PartialEq, Eq, Structural)]
pub enum ArgError {
    Unrecognised(usize),
    NeedsValue(usize),
    /// The value is no number, or not one that fits.
    BadNumber(usize),
    SpeedNotPositive(usize),
    BadLayers(usize),
    /// Not one of [`ViewState::RANGES`].
    BadRange(usize),
    BadAltFilter(usize),
    BadSize(usize),
    BadSizeNumber(usize),
}

impl ArgError {
    /// The place of the argument at fault.
    pub open spec fn place(self) -> usize {
        match self {
            ArgError::Unrecognised(at) => at,
            ArgError::NeedsValue(at) => at,
            ArgError::BadNumber(at) => at,
            ArgError::SpeedNotPositive(at) => at,
            ArgError::BadLayers(at) => at,
            ArgError::BadRange(at) => at,
            ArgError::BadAltFilter(at) => at,
            ArgError::BadSize(at) => at,
            ArgError::BadSizeNumber(at) => at,
        }
    }

    /// The place of the argument at fault.
    pub fn at(self) -> (r: usize)
        ensures
            r == self.place(),
    {
        match self {
            ArgError::Unrecognised(at) => at,
            ArgError::NeedsValue(at) => at,
            ArgError::BadNumber(at) => at,
            ArgError::SpeedNotPositive(at) => at,
            ArgError::BadLayers(at) => at,
            ArgError::BadRange(at) => at,
            ArgError::BadAltFilter(at) => at,
            ArgError::BadSize(at) => at,
            ArgError::BadSizeNumber(at) => at,
        }
    }
}

/// The argument at a place; nothing where there is none.
pub open spec fn word_at(argv: Seq<Seq<char>>, i: int) -> Seq<char> {
    if 0 <= i < argv.len() {
        argv[i]
    } else {
        seq![]
    }
}

/// Write the argument at a place.
pub fn push_word(out: &mut String, argv: &[String], i: usize)
    ensures
        final(out)@ == old(out)@ + word_at(arguments(argv@), i as int),
{
    if i < argv.len() {
        out.append(argv[i].as_str());
    }
    assert(out@ =~= old(out)@ + word_at(arguments(argv@), i as int));
}

/// The argument at fault, as it was understood: one of a few words in small letters, or as it is.
pub open spec fn word_at_fault(error: ArgError, argv: Seq<Seq<char>>) -> Seq<char> {
    let word = word_at(argv, error.place() as int);
    match error {
        ArgError::BadLayers(_) => lowered(word),
        ArgError::BadAltFilter(_) => lowered(word),
        _ => word,
    }
}

/// The argument at fault, as it was understood.
pub fn faulty_word(error: ArgError, argv: &[String]) -> (r: String)
    ensures
        r@ == word_at_fault(error, arguments(argv@)),
{
    let mut word: String = String::new();
    push_word(&mut word, argv, error.at());
    assert(word@ =~= word_at(arguments(argv@), error.place() as int));
    match error {
        ArgError::BadLayers(_) | ArgError::BadAltFilter(_) => lowercase(word.as_str()),
        _ => word,
    }
}

/// What is wrong with a command line, in words. `quoted` is the argument at fault, in quotes.
pub open spec fn fault_text(
    error: ArgError,
    argv: Seq<Seq<char>>,
    quoted: Seq<char>,
    usage: Seq<char>,
) -> Seq<char> {
    match error {
        ArgError::Unrecognised(_) => "unrecognised argument "@ + quoted + "\n\n"@ + usage,
        ArgError::NeedsValue(at) => word_at(argv, at as int) + " needs a value"@,
        ArgError::BadNumber(at) => "bad "@ + word_at(argv, at - 1),
        ArgError::SpeedNotPositive(_) => "--speed must be greater than zero"@,
        ArgError::BadLayers(_) => "--map must be off, apt or all, not "@ + quoted,
        ArgError::BadRange(_) => "--range must be one of [2.0, 5.0, 10.0, 20.0, 40.0]"@,
        ArgError::BadAltFilter(_) => "--alt-filter must be norm, above, below or all, not "@
            + quoted,
        ArgError::BadSize(_) => "bad --size "@ + quoted + ", want e.g. 800x480"@,
        ArgError::BadSizeNumber(_) => "bad --size "@ + quoted + ": no number"@,
    }
}

/// What is wrong with a command line, in words.
pub fn describe_argument(error: ArgError, argv: &[String], quoted: &str, usage: &str) -> (r: String)
    ensures
        r@ == fault_text(error, arguments(argv@), quoted@, usage@),
{
    let mut out: String = String::new();
    match error {
        ArgError::Unrecognised(_) => {
            out.append("unrecognised argument ");
            out.append(quoted);
            out.append("\n\n");
            out.append(usage);
        },
        ArgError::NeedsValue(at) => {
            push_word(&mut out, argv, at);
            out.append(" needs a value");
        },
        ArgError::BadNumber(at) => {
            out.append("bad ");
            if at > 0 {
                push_word(&mut out, argv, at - 1);
            }
        },
        ArgError::SpeedNotPositive(_) => out.append("--speed must be greater than zero"),
        ArgError::BadLayers(_) => {
            out.append("--map must be off, apt or all, not ");
            out.append(quoted);
        },
        ArgError::BadRange(_) => {
            out.append("--range must be one of [2.0, 5.0, 10.0, 20.0, 40.0]");
        },
        ArgError::BadAltFilter(_) => {
            out.append("--alt-filter must be norm, above, below or all, not ");
            out.append(quoted);
        },
        ArgError::BadSize(_) => {
            out.append("bad --size ");
            out.append(quoted);
            out.append(", want e.g. 800x480");
        },
        ArgError::BadSizeNumber(_) => {
            out.append("bad --size ");
            out.append(quoted);
            out.append(": no number");
        },
    }
    assert(out@ =~= fault_text(error, arguments(argv@), quoted@, usage@));
    out
}

/// Everything the command line says.
#[derive(Debug)]
pub struct Args {
    pub host: String,
    pub port: u16,
    /// The recording to replay instead of connecting.
    pub replay: Option<String>,
    /// The place of the argument that gives the replay rate; the recording's own rate without one.
    pub speed: Option<usize>,
    pub repeat: bool,
    pub offscreen: bool,
    pub window: bool,
    pub out: String,
    pub size: (u32, u32),
    pub dump_every: u64,
    pub device: Option<String>,
    pub take_vt: bool,
    pub frames: u64,
    pub check: bool,
    pub view: ViewState,
    pub chart: Option<String>,
    pub inspect: Option<String>,
}

/// What a command line says.
#[verifier::ext_equal]
pub ghost struct Choices {
    pub host: Seq<char>,
    pub port: nat,
    pub replay: Option<Seq<char>>,
    pub speed: Option<int>,
    pub repeat: bool,
    pub offscreen: bool,
    pub window: bool,
    pub out: Seq<char>,
    pub size: (nat, nat),
    pub dump_every: nat,
    pub device: Option<Seq<char>>,
    pub take_vt: bool,
    pub frames: nat,
    pub check: bool,
    pub view: ViewState,
    pub chart: Option<Seq<char>>,
    pub inspect: Option<Seq<char>>,
}

/// The contents of a text that may be there.
pub open spec fn contents(text: Option<String>) -> Option<Seq<char>> {
    match text {
        Some(text) => Some(text@),
        None => None,
    }
}

impl View for Args {
    type V = Choices;

    open spec fn view(&self) -> Choices {
        Choices {
            host: self.host@,
            port: self.port as nat,
            replay: contents(self.replay),
            speed: match self.speed {
                Some(at) => Some(at as int),
                None => None,
            },
            repeat: self.repeat,
            offscreen: self.offscreen,
            window: self.window,
            out: self.out@,
            size: (self.size.0 as nat, self.size.1 as nat),
            dump_every: self.dump_every as nat,
            device: contents(self.device),
            take_vt: self.take_vt,
            frames: self.frames as nat,
            check: self.check,
            view: self.view,
            chart: contents(self.chart),
            inspect: contents(self.inspect),
        }
    }
}

fn copied(s: &str) -> (r: String)
    ensures
        r@ == s@,
{
    let mut out: String = String::new();
    out.append(s);
    assert(out@ =~= s@);
    out
}

/// What an empty command line says: the panel, fed by the receiver on this machine.
pub open spec fn unasked() -> Choices {
    Choices {
        host: "127.0.0.1"@,
        port: 80,
        replay: None,
        speed: None,
        repeat: false,
        offscreen: false,
        window: false,
        out: "frames"@,
        size: (800, 480),
        dump_every: 0,
        device: None,
        take_vt: true,
        frames: 0,
        check: false,
        view: ViewState::fresh(),
        chart: None,
        inspect: None,
    }
}

impl Default for Args {
    fn default() -> (r: Args)
        ensures
            r@ == unasked(),
    {
        Args {
            host: copied("127.0.0.1"),
            port: 80,
            replay: None,
            speed: None,
            repeat: false,
            offscreen: false,
            window: false,
            out: copied("frames"),
            size: (800, 480),
            dump_every: 0,
            device: None,
            take_vt: true,
            frames: 0,
            check: false,
            view: ViewState::default(),
            chart: None,
            inspect: None,
        }
    }
}

// --- one argument at a time ----------------------------------------------------------------

/// What an argument without a value changes.
pub open spec fn switched(c: Choices, flag: Flag) -> Choices {
    match flag {
        Flag::Repeat => Choices { repeat: true, ..c },
        Flag::Offscreen => Choices { offscreen: true, ..c },
        Flag::Window => Choices { window: true, ..c },
        Flag::NoVt => Choices { take_vt: false, ..c },
        Flag::Check => Choices { check: true, ..c },
        Flag::TrackUp => Choices {
            view: ViewState { orientation: Orientation::TrackUp, ..c.view },
            ..c
        },
        Flag::WeatherPage => Choices { view: ViewState { page: Page::Weather, ..c.view }, ..c },
        Flag::AhrsPage => Choices { view: ViewState { page: Page::Ahrs, ..c.view }, ..c },
        Flag::Decode => Choices { view: ViewState { weather_decode: true, ..c.view }, ..c },
        Flag::NoUnderlay => Choices {
            view: ViewState { show_weather_underlay: false, ..c.view },
            ..c
        },
        _ => c,
    }
}

fn switch(args: &mut Args, flag: Flag)
    ensures
        final(args)@ == switched(old(args)@, flag),
{
    match flag {
        Flag::Repeat => args.repeat = true,
        Flag::Offscreen => args.offscreen = true,
        Flag::Window => args.window = true,
        Flag::NoVt => args.take_vt = false,
        Flag::Check => args.check = true,
        Flag::TrackUp => args.view.orientation = Orientation::TrackUp,
        Flag::WeatherPage => args.view.page = Page::Weather,
        Flag::AhrsPage => args.view.page = Page::Ahrs,
        Flag::Decode => args.view.weather_decode = true,
        Flag::NoUnderlay => args.view.show_weather_underlay = false,
        _ => {},
    }
}

/// The map layers a word asks for.
pub open spec fn layers_named(word: Seq<char>) -> Option<MapLayers> {
    let w = lowered(word);
    if w == "off"@ {
        Some(MapLayers::Off)
    } else if w == "apt"@ || w == "airports"@ {
        Some(MapLayers::Airports)
    } else if w == "all"@ || w == "full"@ {
        Some(MapLayers::Full)
    } else {
        None
    }
}

fn read_layers(word: &str) -> (r: Option<MapLayers>)
    ensures
        r == layers_named(word@),
{
    let lower: String = lowercase(word);
    let w: &str = lower.as_str();
    if same(w, "off") {
        Some(MapLayers::Off)
    } else if same(w, "apt") || same(w, "airports") {
        Some(MapLayers::Airports)
    } else if same(w, "all") || same(w, "full") {
        Some(MapLayers::Full)
    } else {
        None
    }
}

/// The vertical filter a word asks for.
pub open spec fn filter_named(word: Seq<char>) -> Option<AltitudeFilter> {
    let w = lowered(word);
    if w == "norm"@ || w == "normal"@ {
        Some(AltitudeFilter::Normal)
    } else if w == "above"@ || w == "abv"@ {
        Some(AltitudeFilter::Above)
    } else if w == "below"@ || w == "blw"@ {
        Some(AltitudeFilter::Below)
    } else if w == "all"@ || w == "unrestricted"@ {
        Some(AltitudeFilter::Unrestricted)
    } else {
        None
    }
}

fn read_filter(word: &str) -> (r: Option<AltitudeFilter>)
    ensures
        r == filter_named(word@),
{
    let lower: String = lowercase(word);
    let w: &str = lower.as_str();
    if same(w, "norm") || same(w, "normal") {
        Some(AltitudeFilter::Normal)
    } else if same(w, "above") || same(w, "abv") {
        Some(AltitudeFilter::Above)
    } else if same(w, "below") || same(w, "blw") {
        Some(AltitudeFilter::Below)
    } else if same(w, "all") || same(w, "unrestricted") {
        Some(AltitudeFilter::Unrestricted)
    } else {
        None
    }
}

/// The selectable range a fraction names.
pub open spec fn range_named(reading: Reading) -> Option<u32> {
    match reading {
        Reading::Fraction { thousandths: Some(mnm), .. } => if ViewState::RANGES@.contains(mnm) {
            Some(mnm)
        } else {
            None
        },
        _ => None,
    }
}

fn is_selectable(mnm: u32) -> (r: bool)
    ensures
        r == ViewState::RANGES@.contains(mnm),
{
    let mut i: usize = 0;
    while i < 5
        invariant
            i <= 5,
            forall|k: int| 0 <= k < i ==> ViewState::RANGES@[k] != mnm,
        decreases 5 - i,
    {
        if ViewState::RANGES[i] == mnm {
            assert(ViewState::RANGES@[i as int] == mnm);
            return true;
        }
        i = i + 1;
    }
    false
}

fn read_range(reading: Reading) -> (r: Option<u32>)
    ensures
        r == range_named(reading),
{
    match reading {
        Reading::Fraction { positive: _, thousandths: Some(mnm) } => if is_selectable(mnm) {
            Some(mnm)
        } else {
            None
        },
        _ => None,
    }
}

/// What an argument with a value changes. `at` is the place of the value.
pub open spec fn valued(
    c: Choices,
    flag: Flag,
    value: Seq<char>,
    reading: Reading,
    at: int,
) -> Result<Choices, ArgError> {
    let place = at as usize;
    match flag {
        Flag::Host => Ok(Choices { host: value, ..c }),
        Flag::Port => match unsigned(value, u16::MAX as nat) {
            Some(n) => Ok(Choices { port: n, ..c }),
            None => Err(ArgError::BadNumber(place)),
        },
        Flag::Replay => Ok(Choices { replay: Some(value), ..c }),
        Flag::Speed => match reading {
            Reading::Words => Err(ArgError::BadNumber(place)),
            Reading::Fraction { positive, .. } => if positive {
                Ok(Choices { speed: Some(at), ..c })
            } else {
                Err(ArgError::SpeedNotPositive(place))
            },
        },
        Flag::Out => Ok(Choices { out: value, ..c }),
        Flag::DumpEvery => match unsigned(value, u64::MAX as nat) {
            Some(n) => Ok(Choices { dump_every: n, ..c }),
            None => Err(ArgError::BadNumber(place)),
        },
        Flag::Device => Ok(Choices { device: Some(value), ..c }),
        Flag::Frames => match unsigned(value, u64::MAX as nat) {
            Some(n) => Ok(Choices { frames: n, ..c }),
            None => Err(ArgError::BadNumber(place)),
        },
        Flag::Chart => Ok(Choices { chart: Some(value), ..c }),
        Flag::Inspect => Ok(Choices { inspect: Some(uppered(value)), ..c }),
        Flag::Layers => match layers_named(value) {
            Some(map_layers) => Ok(Choices { view: ViewState { map_layers, ..c.view }, ..c }),
            None => Err(ArgError::BadLayers(place)),
        },
        Flag::Range => match reading {
            Reading::Words => Err(ArgError::BadNumber(place)),
            _ => match range_named(reading) {
                Some(range_mnm) => Ok(Choices { view: ViewState { range_mnm, ..c.view }, ..c }),
                None => Err(ArgError::BadRange(place)),
            },
        },
        Flag::AltFilter => match filter_named(value) {
            Some(altitude_filter) => Ok(
                Choices { view: ViewState { altitude_filter, ..c.view }, ..c },
            ),
            None => Err(ArgError::BadAltFilter(place)),
        },
        Flag::Size => match size_of(value) {
            Ok(size) => Ok(Choices { size, ..c }),
            Err(SizeFault::Shape) => Err(ArgError::BadSize(place)),
            Err(SizeFault::Number) => Err(ArgError::BadSizeNumber(place)),
        },
        _ => Ok(c),
    }
}

/// Whether an argument's value is kept as it is written.
spec fn is_kept(flag: Flag) -> bool {
    match flag {
        Flag::Host | Flag::Replay | Flag::Out | Flag::Device | Flag::Chart | Flag::Inspect => true,
        _ => false,
    }
}

/// Whether an argument's value is a whole number, or two.
spec fn is_counted(flag: Flag) -> bool {
    match flag {
        Flag::Port | Flag::DumpEvery | Flag::Frames | Flag::Size => true,
        _ => false,
    }
}

fn set_text(args: &mut Args, flag: Flag, value: &str, Ghost(reading): Ghost<Reading>, at: usize)
    requires
        is_kept(flag),
    ensures
        valued(old(args)@, flag, value@, reading, at as int) == Ok::<Choices, ArgError>(
            final(args)@,
        ),
{
    match flag {
        Flag::Host => args.host = copied(value),
        Flag::Replay => args.replay = Some(copied(value)),
        Flag::Out => args.out = copied(value),
        Flag::Device => args.device = Some(copied(value)),
        Flag::Chart => args.chart = Some(copied(value)),
        _ => args.inspect = Some(uppercase(value)),
    }
}

/// Whether a setting came out as it should.
spec fn came_out(r: Result<(), ArgError>, now: Choices, want: Result<Choices, ArgError>) -> bool {
    match (r, want) {
        (Ok(_), Ok(c)) => now == c,
        (Err(a), Err(b)) => a == b,
        _ => false,
    }
}

fn set_number(
    args: &mut Args,
    flag: Flag,
    value: &str,
    Ghost(reading): Ghost<Reading>,
    at: usize,
) -> (r: Result<(), ArgError>)
    requires
        is_counted(flag),
    ensures
        came_out(r, final(args)@, valued(old(args)@, flag, value@, reading, at as int)),
{
    match flag {
        Flag::Port => match parse_unsigned(value, u16::MAX as u64) {
            Some(n) => args.port = n as u16,
            None => return Err(ArgError::BadNumber(at)),
        },
        Flag::DumpEvery => match parse_unsigned(value, u64::MAX) {
            Some(n) => args.dump_every = n,
            None => return Err(ArgError::BadNumber(at)),
        },
        Flag::Frames => match parse_unsigned(value, u64::MAX) {
            Some(n) => args.frames = n,
            None => return Err(ArgError::BadNumber(at)),
        },
        _ => match parse_size(value) {
            Ok(size) => args.size = size,
            Err(SizeFault::Shape) => return Err(ArgError::BadSize(at)),
            Err(SizeFault::Number) => return Err(ArgError::BadSizeNumber(at)),
        },
    }
    Ok(())
}

fn set_choice(args: &mut Args, flag: Flag, value: &str, reading: Reading, at: usize) -> (r: Result<
    (),
    ArgError,
>)
    requires
        !is_kept(flag),
        !is_counted(flag),
    ensures
        came_out(r, final(args)@, valued(old(args)@, flag, value@, reading, at as int)),
{
    match flag {
        Flag::Speed => match reading {
            Reading::Words => return Err(ArgError::BadNumber(at)),
            Reading::Fraction { positive, thousandths: _ } => if positive {
                args.speed = Some(at);
            } else {
                return Err(ArgError::SpeedNotPositive(at));
            },
        },
        Flag::Layers => match read_layers(value) {
            Some(layers) => args.view.map_layers = layers,
            None => return Err(ArgError::BadLayers(at)),
        },
        Flag::Range => match reading {
            Reading::Words => return Err(ArgError::BadNumber(at)),
            _ => match read_range(reading) {
                Some(range) => args.view.range_mnm = range,
                None => return Err(ArgError::BadRange(at)),
            },
        },
        Flag::AltFilter => match read_filter(value) {
            Some(filter) => args.view.altitude_filter = filter,
            None => return Err(ArgError::BadAltFilter(at)),
        },
        _ => {},
    }
    Ok(())
}

/// Set what an argument with a value asks for. `at` is the place of the value.
fn set_value(args: &mut Args, flag: Flag, value: &str, reading: Reading, at: usize) -> (r: Result<
    (),
    ArgError,
>)
    ensures
        came_out(r, final(args)@, valued(old(args)@, flag, value@, reading, at as int)),
{
    match flag {
        Flag::Host | Flag::Replay | Flag::Out | Flag::Device | Flag::Chart | Flag::Inspect => {
            set_text(args, flag, value, Ghost(reading), at);
            Ok(())
        },
        Flag::Port | Flag::DumpEvery | Flag::Frames | Flag::Size => {
            set_number(args, flag, value, Ghost(reading), at)
        },
        _ => set_choice(args, flag, value, reading, at),
    }
}

/// The contents of the arguments.
pub open spec fn arguments(argv: Seq<String>) -> Seq<Seq<char>> {
    argv.map_values(|s: String| s@)
}

/// What the arguments from a place on make of what was said before them: nothing when they ask for
/// help, and the first thing that is wrong with them when something is.
pub open spec fn read_from(
    argv: Seq<Seq<char>>,
    readings: Seq<Reading>,
    i: int,
    c: Choices,
) -> Result<Option<Choices>, ArgError>
    decreases argv.len() - i,
{
    if i < 0 || i >= argv.len() {
        Ok(Some(c))
    } else {
        let flag = flag_of(argv[i]);
        if flag == Flag::Help {
            Ok(None)
        } else if flag == Flag::Unknown {
            Err(ArgError::Unrecognised(i as usize))
        } else if !flag.takes_value() {
            read_from(argv, readings, i + 1, switched(c, flag))
        } else if i + 1 >= argv.len() {
            Err(ArgError::NeedsValue(i as usize))
        } else {
            match valued(c, flag, argv[i + 1], readings[i + 1], i + 1) {
                Ok(next) => read_from(argv, readings, i + 2, next),
                Err(e) => Err(e),
            }
        }
    }
}

/// What a command line says, the program's own name left out.
pub open spec fn command_line(argv: Seq<Seq<char>>, readings: Seq<Reading>) -> Result<
    Option<Choices>,
    ArgError,
> {
    read_from(argv, readings, 0, unasked())
}

/// Read the command line, the program's own name left out. `None` asks for help. `readings` says
/// what each argument amounts to as a fraction.
pub fn parse_args(argv: &[String], readings: &[Reading]) -> (r: Result<Option<Args>, ArgError>)
    requires
        readings@.len() == argv@.len(),
    ensures
        match (r, command_line(arguments(argv@), readings@)) {
            (Ok(Some(args)), Ok(Some(c))) => args@ == c,
            (Ok(None), Ok(None)) => true,
            (Err(a), Err(b)) => a == b,
            _ => false,
        },
{
    let mut args: Args = Args::default();
    let mut i: usize = 0;
    let ghost all = arguments(argv@);
    while i < argv.len()
        invariant
            i <= argv.len(),
            readings@.len() == argv@.len(),
            all == arguments(argv@),
            all.len() == argv@.len(),
            command_line(all, readings@) == read_from(all, readings@, i as int, args@),
        decreases argv.len() - i,
    {
        let arg: &str = argv[i].as_str();
        assert(all[i as int] == arg@);
        let flag: Flag = read_flag(arg);
        match flag {
            Flag::Help => return Ok(None),
            Flag::Unknown => return Err(ArgError::Unrecognised(i)),
            _ => {},
        }
        if !flag.needs_value() {
            switch(&mut args, flag);
            i = i + 1;
        } else if argv.len() - i == 1 {
            return Err(ArgError::NeedsValue(i));
        } else {
            let at: usize = i + 1;
            let value: &str = argv[at].as_str();
            assert(all[at as int] == value@);
            match set_value(&mut args, flag, value, readings[at], at) {
                Ok(_) => {},
                Err(e) => return Err(e),
            }
            i = i + 2;
        }
    }
    Ok(Some(args))
}

// --- laws ----------------------------------------------------------------------------------

/// Nothing on the command line is everything at its default.
pub proof fn an_empty_command_line_is_the_default(readings: Seq<Reading>)
    ensures
        command_line(seq![], readings) == Ok::<Option<Choices>, ArgError>(Some(unasked())),
{
}

/// Asking for help at once is answered with help, whatever follows.
pub proof fn help_comes_first(argv: Seq<Seq<char>>, readings: Seq<Reading>)
    requires
        argv.len() > 0,
        flag_of(argv[0]) == Flag::Help,
    ensures
        command_line(argv, readings) == Ok::<Option<Choices>, ArgError>(None),
{
}

/// A range that is accepted is a selectable one, wherever it stands.
pub proof fn a_chosen_range_is_selectable(
    argv: Seq<Seq<char>>,
    readings: Seq<Reading>,
    i: int,
    c: Choices,
)
    requires
        ViewState::RANGES@.contains(c.view.range_mnm),
    ensures
        read_from(argv, readings, i, c) matches Ok(Some(said)) ==> ViewState::RANGES@.contains(
            said.view.range_mnm,
        ),
    decreases argv.len() - i,
{
    if 0 <= i < argv.len() {
        let flag = flag_of(argv[i]);
        if flag != Flag::Help && flag != Flag::Unknown {
            if !flag.takes_value() {
                a_chosen_range_is_selectable(argv, readings, i + 1, switched(c, flag));
            } else if i + 1 < argv.len() {
                match valued(c, flag, argv[i + 1], readings[i + 1], i + 1) {
                    Ok(next) => {
                        a_chosen_range_is_selectable(argv, readings, i + 2, next);
                    },
                    Err(_) => {},
                }
            }
        }
    }
}

/// What is set where nothing is asked for.
pub proof fn what_is_set_unasked()
    ensures
        ({
            let c = unasked();
            &&& c.host == "127.0.0.1"@ && c.port == 80
            &&& c.replay is None && c.speed is None && !c.repeat
            &&& !c.offscreen && !c.window && c.out == "frames"@ && c.size == (800nat, 480nat)
            &&& c.dump_every == 0 && c.device is None && c.take_vt && c.frames == 0 && !c.check
            &&& c.view.range_mnm == 10_000 && c.chart is None && c.inspect is None
        }),
{
}

/// Each switch turns its own thing on, and nothing else.
pub proof fn each_switch_does_its_own(c: Choices)
    ensures
        switched(c, Flag::Repeat) == (Choices { repeat: true, ..c }),
        switched(c, Flag::Offscreen) == (Choices { offscreen: true, ..c }),
        switched(c, Flag::Window) == (Choices { window: true, ..c }),
        switched(c, Flag::NoVt) == (Choices { take_vt: false, ..c }),
        switched(c, Flag::Check) == (Choices { check: true, ..c }),
        switched(c, Flag::TrackUp).view.orientation == Orientation::TrackUp,
        switched(c, Flag::WeatherPage).view.page == Page::Weather,
        switched(c, Flag::AhrsPage).view.page == Page::Ahrs,
        switched(c, Flag::Decode).view.weather_decode,
        !switched(c, Flag::NoUnderlay).view.show_weather_underlay,
        switched(c, Flag::TrackUp).view.page == c.view.page,
        switched(c, Flag::NoUnderlay).view.map_layers == c.view.map_layers,
{
}

/// Each value is set where it is asked for, as it is written.
pub proof fn each_value_is_set(c: Choices, value: Seq<char>, reading: Reading, at: int)
    requires
        0 <= at <= usize::MAX,
    ensures
        valued(c, Flag::Host, value, reading, at) == Ok::<Choices, ArgError>(
            Choices { host: value, ..c },
        ),
        valued(c, Flag::Replay, value, reading, at) == Ok::<Choices, ArgError>(
            Choices { replay: Some(value), ..c },
        ),
        valued(c, Flag::Out, value, reading, at) == Ok::<Choices, ArgError>(
            Choices { out: value, ..c },
        ),
        valued(c, Flag::Device, value, reading, at) == Ok::<Choices, ArgError>(
            Choices { device: Some(value), ..c },
        ),
        valued(c, Flag::Chart, value, reading, at) == Ok::<Choices, ArgError>(
            Choices { chart: Some(value), ..c },
        ),
        valued(c, Flag::Inspect, value, reading, at) == Ok::<Choices, ArgError>(
            Choices { inspect: Some(uppered(value)), ..c },
        ),
        value.len() > 0 && all_digits(value) && number(value) <= 65_535 ==> valued(
            c,
            Flag::Port,
            value,
            reading,
            at,
        ) == Ok::<Choices, ArgError>(Choices { port: number(value), ..c }),
        all_digits(value) && number(value) > 65_535 ==> valued(c, Flag::Port, value, reading, at)
            == Err::<Choices, ArgError>(ArgError::BadNumber(at as usize)),
        value.len() > 0 && all_digits(value) && number(value) <= u64::MAX ==> valued(
            c,
            Flag::Frames,
            value,
            reading,
            at,
        ) == Ok::<Choices, ArgError>(Choices { frames: number(value), ..c }),
        value.len() > 0 && all_digits(value) && number(value) <= u64::MAX ==> valued(
            c,
            Flag::DumpEvery,
            value,
            reading,
            at,
        ) == Ok::<Choices, ArgError>(Choices { dump_every: number(value), ..c }),
{
    if value.len() > 0 && all_digits(value) {
        assert(is_digit(value[0]));
        assert(without_plus(value) == value);
    }
    if value.len() == 0 {
        assert(number(value) == 0);
    }
}

/// A speed has to be a number above nought, a range one of those that can be selected.
pub proof fn speeds_are_positive_and_ranges_selectable(
    c: Choices,
    value: Seq<char>,
    mnm: u32,
    positive: bool,
    at: int,
)
    requires
        0 <= at <= usize::MAX,
    ensures
        ({
            let reading = Reading::Fraction { positive, thousandths: Some(mnm) };
            let ranged = valued(c, Flag::Range, value, reading, at);
            let sped = valued(c, Flag::Speed, value, reading, at);
            let listed = mnm == 2_000 || mnm == 5_000 || mnm == 10_000 || mnm == 20_000 || mnm
                == 40_000;
            &&& listed ==> (ranged is Ok && ranged->Ok_0.view.range_mnm == mnm)
            &&& !listed ==> ranged == Err::<Choices, ArgError>(ArgError::BadRange(at as usize))
            &&& positive ==> sped == Ok::<Choices, ArgError>(Choices { speed: Some(at), ..c })
            &&& !positive ==> sped == Err::<Choices, ArgError>(
                ArgError::SpeedNotPositive(at as usize),
            )
            &&& valued(c, Flag::Range, value, Reading::Words, at) == Err::<Choices, ArgError>(
                ArgError::BadNumber(at as usize),
            )
            &&& valued(c, Flag::Speed, value, Reading::Words, at) == Err::<Choices, ArgError>(
                ArgError::BadNumber(at as usize),
            )
        }),
{
    let ranges = ViewState::RANGES@;
    assert(ranges[0] == 2_000 && ranges[1] == 5_000 && ranges[2] == 10_000 && ranges[3] == 20_000
        && ranges[4] == 40_000);
    assert(ranges.len() == 5);
    if ranges.contains(mnm) {
        let k = choose|k: int| 0 <= k < ranges.len() && ranges[k] == mnm;
        assert(k == 0 || k == 1 || k == 2 || k == 3 || k == 4);
    }
}

/// What the map and the altitude band can be set to, in letters of either case.
pub proof fn words_name_their_settings(word: Seq<char>)
    ensures
        lowered(word) == "off"@ ==> layers_named(word) == Some(MapLayers::Off),
        lowered(word) == "apt"@ || lowered(word) == "airports"@ ==> layers_named(word) == Some(
            MapLayers::Airports,
        ),
        lowered(word) == "all"@ || lowered(word) == "full"@ ==> layers_named(word) == Some(
            MapLayers::Full,
        ),
        layers_named(word) is None <==> lowered(word) != "off"@ && lowered(word) != "apt"@
            && lowered(word) != "airports"@ && lowered(word) != "all"@ && lowered(word) != "full"@,
        lowered(word) == "norm"@ || lowered(word) == "normal"@ ==> filter_named(word) == Some(
            AltitudeFilter::Normal,
        ),
        lowered(word) == "above"@ || lowered(word) == "abv"@ ==> filter_named(word) == Some(
            AltitudeFilter::Above,
        ),
        lowered(word) == "below"@ || lowered(word) == "blw"@ ==> filter_named(word) == Some(
            AltitudeFilter::Below,
        ),
        lowered(word) == "all"@ || lowered(word) == "unrestricted"@ ==> filter_named(word) == Some(
            AltitudeFilter::Unrestricted,
        ),
{
    reveal_strlit("off");
    reveal_strlit("apt");
    reveal_strlit("airports");
    reveal_strlit("all");
    reveal_strlit("full");
    reveal_strlit("norm");
    reveal_strlit("normal");
    reveal_strlit("above");
    reveal_strlit("abv");
    reveal_strlit("below");
    reveal_strlit("blw");
    reveal_strlit("unrestricted");
    assert("off"@[0] != "apt"@[0] && "off"@[0] != "all"@[0] && "off"@[0] != "full"@[0] && "off"@[0]
        != "airports"@[0]);
    assert("apt"@[1] != "all"@[1] && "airports"@.len() != "all"@.len() && "full"@[0] != "apt"@[0]
        && "full"@[0] != "airports"@[0]);
    assert("norm"@[0] != "above"@[0] && "normal"@[0] != "above"@[0] && "norm"@[0] != "abv"@[0]
        && "normal"@[0] != "abv"@[0] && "norm"@[0] != "below"@[0] && "normal"@[0] != "below"@[0]
        && "norm"@[0] != "blw"@[0] && "normal"@[0] != "blw"@[0] && "norm"@[0] != "all"@[0]
        && "normal"@[0] != "all"@[0] && "norm"@[0] != "unrestricted"@[0] && "normal"@[0]
        != "unrestricted"@[0]);
    assert("above"@.len() != "all"@.len() && "abv"@[1] != "all"@[1] && "above"@[0]
        != "unrestricted"@[0] && "abv"@[0] != "unrestricted"@[0]);
    assert("below"@[0] != "above"@[0] && "blw"@[0] != "above"@[0] && "below"@[0] != "abv"@[0]
        && "blw"@[0] != "abv"@[0] && "below"@[0] != "all"@[0] && "blw"@[0] != "all"@[0]
        && "below"@[0] != "unrestricted"@[0] && "blw"@[0] != "unrestricted"@[0]);
}

/// A size is a width, an `x`, and a height, in that order.
pub proof fn sizes_are_width_by_height(width: Seq<char>, height: Seq<char>)
    requires
        width.len() > 0,
        height.len() > 0,
        all_digits(width),
        all_digits(height),
        number(width) <= u32::MAX,
        number(height) <= u32::MAX,
    ensures
        size_of(width + seq!['x'] + height) == Ok::<(nat, nat), SizeFault>(
            (number(width), number(height)),
        ),
        size_of(width) == Err::<(nat, nat), SizeFault>(SizeFault::Shape),
{
    let s = width + seq!['x'] + height;
    let n = width.len() as int;
    times_is_found_behind(width, s, n);
    times_is_found_behind(width, width, n);
    assert(s.take(n) =~= width);
    assert(s.skip(n + 1) =~= height);
    digits_are_not_trimmed(width);
    digits_are_not_trimmed(height);
    assert(is_digit(width[0]) && is_digit(height[0]));
}

proof fn digits_are_not_trimmed(s: Seq<char>)
    requires
        s.len() > 0,
        all_digits(s),
    ensures
        trimmed(s) == s,
{
    assert(is_digit(s[0]) && is_digit(s[s.len() - 1]));
}

proof fn times_is_found_behind(digits: Seq<char>, s: Seq<char>, n: int)
    requires
        all_digits(digits),
        n == digits.len() <= s.len(),
        forall|k: int| 0 <= k < n ==> s[k] == digits[k],
        n == s.len() || is_times(s[n]),
    ensures
        first_times(s) == n,
    decreases n,
{
    if n > 0 {
        assert(is_digit(digits[0]));
        let (rest, after) = (digits.skip(1), s.skip(1));
        assert forall|k: int| 0 <= k < rest.len() implies is_digit(#[trigger] rest[k]) by {
            assert(rest[k] == digits[k + 1]);
        }
        assert forall|k: int| 0 <= k < n - 1 implies after[k] == rest[k] by {
            assert(s[k + 1] == digits[k + 1]);
        }
        times_is_found_behind(rest, after, n - 1);
    }
}

/// Which words are switches, which want a value, and that no other word is either.
pub proof fn which_words_are_asked_for(word: Seq<char>)
    ensures
        flag_of("-h"@) == Flag::Help,
        flag_of("--help"@) == Flag::Help,
        Flag::Host.takes_value() && Flag::Port.takes_value() && Flag::Replay.takes_value()
            && Flag::Speed.takes_value() && Flag::Out.takes_value() && Flag::DumpEvery.takes_value()
            && Flag::Device.takes_value() && Flag::Frames.takes_value() && Flag::Chart.takes_value()
            && Flag::Inspect.takes_value() && Flag::Layers.takes_value() && Flag::Range.takes_value()
            && Flag::AltFilter.takes_value() && Flag::Size.takes_value(),
        !Flag::Help.takes_value() && !Flag::Repeat.takes_value() && !Flag::Offscreen.takes_value()
            && !Flag::Window.takes_value() && !Flag::NoVt.takes_value() && !Flag::Check.takes_value()
            && !Flag::TrackUp.takes_value() && !Flag::WeatherPage.takes_value()
            && !Flag::AhrsPage.takes_value() && !Flag::Decode.takes_value()
            && !Flag::NoUnderlay.takes_value(),
        flag_of(word) == Flag::Host ==> word == "--host"@,
        flag_of(word) == Flag::Port ==> word == "--port"@,
        flag_of(word) == Flag::Replay ==> word == "--replay"@,
        flag_of(word) == Flag::Speed ==> word == "--speed"@,
        flag_of(word) == Flag::Repeat ==> word == "--repeat"@,
        flag_of(word) == Flag::Offscreen ==> word == "--offscreen"@,
        flag_of(word) == Flag::Window ==> word == "--window"@,
        flag_of(word) == Flag::Out ==> word == "--out"@,
        flag_of(word) == Flag::DumpEvery ==> word == "--dump-every"@,
        flag_of(word) == Flag::Device ==> word == "--device"@,
        flag_of(word) == Flag::NoVt ==> word == "--no-vt"@,
        flag_of(word) == Flag::Check ==> word == "--check"@,
        flag_of(word) == Flag::Frames ==> word == "--frames"@,
        flag_of(word) == Flag::TrackUp ==> word == "--track-up"@,
        flag_of(word) == Flag::WeatherPage ==> word == "--weather-page"@,
        flag_of(word) == Flag::AhrsPage ==> word == "--ahrs-page"@,
        flag_of(word) == Flag::Decode ==> word == "--decode"@,
        flag_of(word) == Flag::NoUnderlay ==> word == "--no-underlay"@,
        flag_of(word) == Flag::Chart ==> word == "--chart"@,
        flag_of(word) == Flag::Inspect ==> word == "--inspect"@,
        flag_of(word) == Flag::Layers ==> word == "--map"@,
        flag_of(word) == Flag::Range ==> word == "--range"@,
        flag_of(word) == Flag::AltFilter ==> word == "--alt-filter"@,
        flag_of(word) == Flag::Size ==> word == "--size"@,
        word.len() > 0 && word[0] != '-' ==> flag_of(word) == Flag::Unknown,
{
    reveal_strlit("-h");
    reveal_strlit("--help");
    reveal_strlit("--host");
    reveal_strlit("--port");
    reveal_strlit("--replay");
    reveal_strlit("--speed");
    reveal_strlit("--repeat");
    reveal_strlit("--offscreen");
    reveal_strlit("--window");
    reveal_strlit("--out");
    reveal_strlit("--dump-every");
    reveal_strlit("--device");
    reveal_strlit("--no-vt");
    reveal_strlit("--check");
    reveal_strlit("--frames");
    reveal_strlit("--track-up");
    reveal_strlit("--weather-page");
    reveal_strlit("--ahrs-page");
    reveal_strlit("--decode");
    reveal_strlit("--no-underlay");
    reveal_strlit("--chart");
    reveal_strlit("--inspect");
    reveal_strlit("--map");
    reveal_strlit("--range");
    reveal_strlit("--alt-filter");
    reveal_strlit("--size");
}

/// What is said of an argument that is not accepted.
pub proof fn what_is_said_of_a_bad_argument(
    argv: Seq<Seq<char>>,
    at: usize,
    quoted: Seq<char>,
    usage: Seq<char>,
)
    requires
        0 < at < argv.len(),
    ensures
        fault_text(ArgError::Unrecognised(at), argv, quoted, usage) == "unrecognised argument "@
            + quoted + "\n\n"@ + usage,
        fault_text(ArgError::NeedsValue(at), argv, quoted, usage) == argv[at as int]
            + " needs a value"@,
        fault_text(ArgError::BadNumber(at), argv, quoted, usage) == "bad "@ + argv[at - 1],
        fault_text(ArgError::SpeedNotPositive(at), argv, quoted, usage)
            == "--speed must be greater than zero"@,
        fault_text(ArgError::BadLayers(at), argv, quoted, usage)
            == "--map must be off, apt or all, not "@ + quoted,
        fault_text(ArgError::BadRange(at), argv, quoted, usage)
            == "--range must be one of [2.0, 5.0, 10.0, 20.0, 40.0]"@,
        fault_text(ArgError::BadAltFilter(at), argv, quoted, usage)
            == "--alt-filter must be norm, above, below or all, not "@ + quoted,
        fault_text(ArgError::BadSize(at), argv, quoted, usage) == "bad --size "@ + quoted
            + ", want e.g. 800x480"@,
        word_at_fault(ArgError::Unrecognised(at), argv) == argv[at as int],
        word_at_fault(ArgError::BadSize(at), argv) == argv[at as int],
        word_at_fault(ArgError::BadLayers(at), argv) == lowered(argv[at as int]),
{
}

/// A value stands behind its flag and is not read as a flag itself; without one the flag is at fault, and
/// a later flag overrules an earlier one.
pub proof fn values_stand_behind_their_flags(
    argv: Seq<Seq<char>>,
    readings: Seq<Reading>,
    i: int,
    c: Choices,
)
    requires
        0 <= i < argv.len(),
        argv[i] == "--host"@,
    ensures
        i + 1 < argv.len() ==> read_from(argv, readings, i, c) == read_from(
            argv,
            readings,
            i + 2,
            Choices { host: argv[i + 1], ..c },
        ),
        i + 1 == argv.len() ==> read_from(argv, readings, i, c) == Err::<Option<Choices>, ArgError>(
            ArgError::NeedsValue(i as usize),
        ),
{
    reveal_strlit("-h");
    reveal_strlit("--help");
    reveal_strlit("--host");
    assert("--host"@.len() != "-h"@.len());
    assert("--host"@[3] != "--help"@[3]);
    assert(flag_of("--host"@) == Flag::Host);
}

/// A word that is no flag is at fault where it stands, and everything before it counts for nothing.
pub proof fn an_unknown_word_is_at_fault(
    argv: Seq<Seq<char>>,
    readings: Seq<Reading>,
    i: int,
    c: Choices,
)
    requires
        0 <= i < argv.len(),
        argv[i].len() > 0,
        argv[i][0] != '-',
    ensures
        read_from(argv, readings, i, c) == Err::<Option<Choices>, ArgError>(
            ArgError::Unrecognised(i as usize),
        ),
{
    which_words_are_asked_for(argv[i]);
}

} // verus!
