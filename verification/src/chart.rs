//! Reading the airport and airspace file.
//!
//! The file is fixed-layout little-endian, so loading is a header check and nothing more: records
//! are decoded on demand out of the byte buffer, and a query allocates only the results it returns.
//!
//! ```text
//!   header      96 B   magic, version, counts, section offsets, grid, effective date
//!   buckets      8 B   per 1x1 degree cell: first airport, airport count
//!   airports    40 B   position, label, elevation, runway, kind, tier, flags,
//!                      and ranges into the runway, frequency and string tables
//!   airspace    40 B   bounding box, ring range, class, flags, lower/upper, label
//!   rings        8 B   first vertex, vertex count
//!   vertices     8 B   latitude and longitude, i32 micro-degrees
//!   runways      4 B   heading and length, one per distinct orientation
//!   frequencies  8 B   kHz and kind
//!   strings      -     airport names, UTF-8, addressed by offset and length
//! ```
//!
//! Missing is not broken: an unreadable file is refused as a whole with its reason, and a record
//! that points outside the file reads back empty. Traffic is why the panel exists, and a corrupt
//! chart must not be able to stop it being drawn.

use vstd::prelude::*;

use vstd::arithmetic::div_mod::{lemma_fundamental_div_mod, lemma_fundamental_div_mod_converse};
use vstd::slice::slice_subrange;
use vstd::utf8::{decode_utf8, valid_utf8};

use crate::bytes::{i16_at, i32_at, read_i16, read_i32, read_u16, read_u32, u16_at, u32_at};
use crate::domain::{clamped, nearest_coordinate, LatLon};
use crate::projection::{part, part_grows, part_is_smaller, part_of, shrink_of, UNIT};
use crate::text::{
    decimal, decimals_read_back, digit, is_digit, number, padded, padded_reads_back, place_bounds,
    place_of,
    push_decimal, push_digit, push_padded, ten_to,
};

verus! {

pub const VERSION: u16 = 2;

pub const HEADER_LEN: usize = 96;

pub const BUCKET_LEN: usize = 8;

pub const AIRPORT_LEN: usize = 40;

pub const AIRSPACE_LEN: usize = 40;

pub const RUNWAY_LEN: usize = 4;

pub const FREQUENCY_LEN: usize = 8;

/// Bytes in a label, filled up with zeros.
pub const LABEL_LEN: usize = 8;

/// Edge of a grid cell in micro-degrees.
pub const CELL_E6: i32 = 1_000_000;

// --- the header ----------------------------------------------------------------------------

/// The sections of the file, in the order they lie in it.
#[derive(Debug, Clone, Copy, PartialEq, Eq, Structural)]
pub enum Section {
    Buckets,
    Airports,
    Airspace,
    Rings,
    Vertices,
    Runways,
    Frequencies,
    Strings,
}

/// The section at a place in the order.
pub open spec fn section(k: int) -> Section {
    if k == 0 {
        Section::Buckets
    } else if k == 1 {
        Section::Airports
    } else if k == 2 {
        Section::Airspace
    } else if k == 3 {
        Section::Rings
    } else if k == 4 {
        Section::Vertices
    } else if k == 5 {
        Section::Runways
    } else if k == 6 {
        Section::Frequencies
    } else {
        Section::Strings
    }
}

/// Why a file was refused.
#[derive(Debug, Clone, Copy, PartialEq, Eq, Structural)]
pub enum ChartError {
    /// Shorter than its header.
    TooShort,
    /// The magic is not there.
    NotAChart,
    UnsupportedVersion(u16),
    EmptyGrid,
    /// A section does not start where the one before it ended.
    MisplacedSection { section: Section, stated: u64, expected: u64 },
    /// The sections do not account for the whole file.
    WrongLength { actual: u64, accounted: u64 },
}

impl Section {
    pub open spec fn name(self) -> Seq<char> {
        match self {
            Section::Buckets => "buckets"@,
            Section::Airports => "airports"@,
            Section::Airspace => "airspace"@,
            Section::Rings => "rings"@,
            Section::Vertices => "vertices"@,
            Section::Runways => "runways"@,
            Section::Frequencies => "frequencies"@,
            Section::Strings => "strings"@,
        }
    }

    pub fn label(self) -> (r: &'static str)
        ensures
            r@ == self.name(),
    {
        match self {
            Section::Buckets => "buckets",
            Section::Airports => "airports",
            Section::Airspace => "airspace",
            Section::Rings => "rings",
            Section::Vertices => "vertices",
            Section::Runways => "runways",
            Section::Frequencies => "frequencies",
            Section::Strings => "strings",
        }
    }
}

impl ChartError {
    /// What is wrong, in words.
    pub open spec fn reason(self) -> Seq<char> {
        match self {
            ChartError::TooShort => "shorter than its header"@,
            ChartError::NotAChart => "not a chart file"@,
            ChartError::UnsupportedVersion(version) => "unsupported chart version "@ + decimal(
                version as nat,
            ),
            ChartError::EmptyGrid => "empty grid"@,
            ChartError::MisplacedSection { section, stated, expected } => section.name()
                + " section is at "@ + decimal(stated as nat) + ", expected "@ + decimal(
                expected as nat,
            ),
            ChartError::WrongLength { actual, accounted } => "file is "@ + decimal(actual as nat)
                + " bytes, sections account for "@ + decimal(accounted as nat),
        }
    }

    /// What is wrong, in words.
    pub fn message(self) -> (r: String)
        ensures
            r@ == self.reason(),
    {
        let mut out: String = String::new();
        match self {
            ChartError::TooShort => out.append("shorter than its header"),
            ChartError::NotAChart => out.append("not a chart file"),
            ChartError::UnsupportedVersion(version) => {
                out.append("unsupported chart version ");
                push_decimal(&mut out, version as u64);
            },
            ChartError::EmptyGrid => out.append("empty grid"),
            ChartError::MisplacedSection { section, stated, expected } => {
                out.append(section.label());
                out.append(" section is at ");
                push_decimal(&mut out, stated);
                out.append(", expected ");
                push_decimal(&mut out, expected);
            },
            ChartError::WrongLength { actual, accounted } => {
                out.append("file is ");
                push_decimal(&mut out, actual);
                out.append(" bytes, sections account for ");
                push_decimal(&mut out, accounted);
            },
        }
        assert(out@ =~= self.reason());
        out
    }
}

/// The first eight bytes of every chart: `AVCHART1`.
pub open spec fn has_magic(b: Seq<u8>) -> bool {
    &&& b[0] == 0x41
    &&& b[1] == 0x56
    &&& b[2] == 0x43
    &&& b[3] == 0x48
    &&& b[4] == 0x41
    &&& b[5] == 0x52
    &&& b[6] == 0x54
    &&& b[7] == 0x31
}

pub open spec fn airport_total(b: Seq<u8>) -> int {
    u32_at(b, 16)
}

pub open spec fn airspace_total(b: Seq<u8>) -> int {
    u32_at(b, 20)
}

/// South edge of the grid, in degrees.
pub open spec fn grid_lat0(b: Seq<u8>) -> int {
    i16_at(b, 48)
}

/// West edge of the grid, in degrees.
pub open spec fn grid_lon0(b: Seq<u8>) -> int {
    i16_at(b, 50)
}

pub open spec fn grid_rows(b: Seq<u8>) -> int {
    u16_at(b, 52)
}

pub open spec fn grid_cols(b: Seq<u8>) -> int {
    u16_at(b, 54)
}

/// How many bytes a section takes, by the counts in the header.
pub open spec fn section_len(b: Seq<u8>, k: int) -> int {
    if k == 0 {
        grid_rows(b) * grid_cols(b) * 8
    } else if k == 1 {
        u32_at(b, 16) * 40
    } else if k == 2 {
        u32_at(b, 20) * 40
    } else if k == 3 {
        u32_at(b, 24) * 8
    } else if k == 4 {
        u32_at(b, 28) * 8
    } else if k == 5 {
        u32_at(b, 32) * 4
    } else if k == 6 {
        u32_at(b, 36) * 8
    } else {
        u32_at(b, 40)
    }
}

/// Where a section has to start: right behind the ones before it.
pub open spec fn section_start(b: Seq<u8>, k: int) -> int
    decreases k,
{
    if k <= 0 {
        96
    } else {
        section_start(b, k - 1) + section_len(b, k - 1)
    }
}

/// Where the header says a section starts.
pub open spec fn stated_start(b: Seq<u8>, k: int) -> int {
    u32_at(b, 56 + 4 * k)
}

/// The first section from `k` on that is not where it has to be.
pub open spec fn section_fault(b: Seq<u8>, k: int) -> Option<ChartError>
    decreases 8 - k,
{
    if k >= 8 {
        None
    } else if stated_start(b, k) != section_start(b, k) {
        Some(
            ChartError::MisplacedSection {
                section: section(k),
                stated: stated_start(b, k) as u64,
                expected: section_start(b, k) as u64,
            },
        )
    } else {
        section_fault(b, k + 1)
    }
}

/// What is wrong with a file, if anything is.
pub open spec fn chart_fault(b: Seq<u8>) -> Option<ChartError> {
    if b.len() < 96 {
        Some(ChartError::TooShort)
    } else if !has_magic(b) {
        Some(ChartError::NotAChart)
    } else if u16_at(b, 8) != VERSION {
        Some(ChartError::UnsupportedVersion(u16_at(b, 8) as u16))
    } else if grid_rows(b) == 0 || grid_cols(b) == 0 {
        Some(ChartError::EmptyGrid)
    } else if section_fault(b, 0) is Some {
        section_fault(b, 0)
    } else if b.len() != section_start(b, 8) {
        Some(
            ChartError::WrongLength {
                actual: b.len() as u64,
                accounted: section_start(b, 8) as u64,
            },
        )
    } else {
        None
    }
}

/// Sizes of the sections, all of them far inside 64 bits.
proof fn section_bounds(b: Seq<u8>)
    ensures
        forall|k: int|
            0 <= k < 8 ==> 0 <= #[trigger] section_len(b, k) <= 200_000_000_000,
        96 == section_start(b, 0) <= section_start(b, 1) <= section_start(b, 2) <= section_start(
            b,
            3,
        ) <= section_start(b, 4) <= section_start(b, 5) <= section_start(b, 6) <= section_start(
            b,
            7,
        ) <= section_start(b, 8) <= 2_000_000_000_000,
{
    let rows = grid_rows(b);
    let cols = grid_cols(b);
    assert(0 <= rows * cols <= 65535 * 65535) by (nonlinear_arith)
        requires
            0 <= rows <= 65535,
            0 <= cols <= 65535,
    ;
    reveal_with_fuel(section_start, 9);
    assert(section_len(b, 0) == rows * cols * 8);
    assert(section_len(b, 1) == u32_at(b, 16) * 40);
    assert(section_len(b, 2) == u32_at(b, 20) * 40);
    assert(section_len(b, 3) == u32_at(b, 24) * 8);
    assert(section_len(b, 4) == u32_at(b, 28) * 8);
    assert(section_len(b, 5) == u32_at(b, 32) * 4);
    assert(section_len(b, 6) == u32_at(b, 36) * 8);
    assert(section_len(b, 7) == u32_at(b, 40));
}

/// An accepted file is its header followed by its eight sections, each starting where the one
/// before it ends and the last one ending with the file.
pub proof fn sections_tile_the_file(b: Seq<u8>)
    requires
        chart_fault(b) is None,
    ensures
        section_start(b, 0) == HEADER_LEN,
        forall|k: int|
            0 <= k < 8 ==> #[trigger] stated_start(b, k) == section_start(b, k),
        forall|k: int|
            0 <= k < 8 ==> section_start(b, k + 1) == #[trigger] section_start(b, k) + section_len(
                b,
                k,
            ),
        forall|k: int| 0 <= k < 8 ==> #[trigger] section_len(b, k) >= 0,
        section_start(b, 8) == b.len(),
{
    section_bounds(b);
    reveal_with_fuel(section_fault, 9);
    assert(stated_start(b, 0) == section_start(b, 0));
    assert(stated_start(b, 1) == section_start(b, 1));
    assert(stated_start(b, 2) == section_start(b, 2));
    assert(stated_start(b, 3) == section_start(b, 3));
    assert(stated_start(b, 4) == section_start(b, 4));
    assert(stated_start(b, 5) == section_start(b, 5));
    assert(stated_start(b, 6) == section_start(b, 6));
    assert(stated_start(b, 7) == section_start(b, 7));
}

fn section_at(k: usize) -> (r: Section)
    requires
        k < 8,
    ensures
        r == section(k as int),
{
    match k {
        0 => Section::Buckets,
        1 => Section::Airports,
        2 => Section::Airspace,
        3 => Section::Rings,
        4 => Section::Vertices,
        5 => Section::Runways,
        6 => Section::Frequencies,
        _ => Section::Strings,
    }
}

/// Length of one section, by the header.
fn section_length(b: &[u8], k: usize) -> (r: u64)
    requires
        k < 8,
        b@.len() >= 96,
    ensures
        r == section_len(b@, k as int),
{
    proof {
        section_bounds(b@);
    }
    match k {
        0 => {
            let rows: u64 = read_u16(b, 52) as u64;
            let cols: u64 = read_u16(b, 54) as u64;
            assert(section_len(b@, 0) == rows * cols * 8);
            assert(0 <= rows * cols <= 65535 * 65535) by (nonlinear_arith)
                requires
                    0 <= rows <= 65535,
                    0 <= cols <= 65535,
            ;
            rows * cols * 8
        },
        1 => (read_u32(b, 16) as u64) * 40,
        2 => (read_u32(b, 20) as u64) * 40,
        3 => (read_u32(b, 24) as u64) * 8,
        4 => (read_u32(b, 28) as u64) * 8,
        5 => (read_u32(b, 32) as u64) * 4,
        6 => (read_u32(b, 36) as u64) * 8,
        _ => read_u32(b, 40) as u64,
    }
}

/// Check the magic.
fn magic_matches(b: &[u8]) -> (r: bool)
    requires
        b@.len() >= 96,
    ensures
        r == has_magic(b@),
{
    b[0] == 0x41 && b[1] == 0x56 && b[2] == 0x43 && b[3] == 0x48 && b[4] == 0x41 && b[5] == 0x52
        && b[6] == 0x54 && b[7] == 0x31
}

/// The fixed header, validated before any record is touched: every section must start exactly
/// where the previous one ended, and the last one must end with the file.
fn check_header(b: &[u8]) -> (r: Result<(), ChartError>)
    ensures
        match r {
            Ok(_) => chart_fault(b@) is None,
            Err(e) => chart_fault(b@) == Some(e),
        },
{
    if b.len() < HEADER_LEN {
        return Err(ChartError::TooShort);
    }
    if !magic_matches(b) {
        return Err(ChartError::NotAChart);
    }
    let version: u16 = read_u16(b, 8);
    if version != VERSION {
        return Err(ChartError::UnsupportedVersion(version));
    }
    if read_u16(b, 52) == 0 || read_u16(b, 54) == 0 {
        return Err(ChartError::EmptyGrid);
    }
    proof {
        section_bounds(b@);
    }
    let mut cursor: u64 = 96;
    let mut k: usize = 0;
    while k < 8
        invariant
            k <= 8,
            b@.len() >= 96,
            has_magic(b@),
            u16_at(b@, 8) == VERSION,
            grid_rows(b@) != 0 && grid_cols(b@) != 0,
            cursor == section_start(b@, k as int),
            section_fault(b@, 0) == section_fault(b@, k as int),
            cursor <= 96 + k * 200_000_000_000,
        decreases 8 - k,
    {
        proof {
            section_bounds(b@);
        }
        let stated: u64 = read_u32(b, 56 + 4 * k) as u64;
        if stated != cursor {
            return Err(
                ChartError::MisplacedSection { section: section_at(k), stated, expected: cursor },
            );
        }
        let length: u64 = section_length(b, k);
        cursor = cursor + length;
        k = k + 1;
    }
    if b.len() as u64 != cursor {
        return Err(ChartError::WrongLength { actual: b.len() as u64, accounted: cursor });
    }
    Ok(())
}

// --- what the records describe -------------------------------------------------------------

/// What kind of place an airport record describes.
#[derive(Debug, Clone, Copy, PartialEq, Eq, Structural)]
pub enum Kind {
    Large,
    Medium,
    Small,
    Heliport,
    Seaplane,
}

/// Which range band an airport first appears in.
///
/// Ordered, so a query is "everything at or below this tier". [`Tier::Heliport`] is last and is
/// its own tier rather than merely the least important: heliports outnumber fixed-wing fields many
/// times over a large city. They are carried and never drawn by default.
#[derive(Debug, Clone, Copy, PartialEq, Eq, PartialOrd, Ord, Structural)]
pub enum Tier {
    Major,
    Paved,
    Minor,
    Heliport,
}

impl Tier {
    /// Place in the order, least important last.
    pub open spec fn order(self) -> int {
        match self {
            Tier::Major => 0,
            Tier::Paved => 1,
            Tier::Minor => 2,
            Tier::Heliport => 3,
        }
    }

    /// Place in the order, least important last.
    pub fn rank(self) -> (r: u8)
        ensures
            r == self.order(),
    {
        match self {
            Tier::Major => 0,
            Tier::Paved => 1,
            Tier::Minor => 2,
            Tier::Heliport => 3,
        }
    }
}

#[derive(Debug, Clone, Copy, PartialEq, Eq, Structural)]
pub enum Class {
    B,
    C,
    D,
}

impl Class {
    pub open spec fn name(self) -> Seq<char> {
        match self {
            Class::B => "B"@,
            Class::C => "C"@,
            Class::D => "D"@,
        }
    }

    pub fn label(self) -> (r: &'static str)
        ensures
            r@ == self.name(),
    {
        match self {
            Class::B => "B",
            Class::C => "C",
            Class::D => "D",
        }
    }
}

pub const FLAG_HARD_SURFACE: u8 = 1;

pub const FLAG_LIGHTED: u8 = 2;

pub const FLAG_LOWER_SURFACE: u8 = 1;

/// What a frequency is for. Ordered by how much a pilot wants it on a card with four lines.
#[derive(Debug, Clone, Copy, PartialEq, Eq, PartialOrd, Ord, Structural)]
pub enum FreqKind {
    Ctaf,
    Tower,
    Ground,
    Atis,
    Awos,
    Unicom,
    Approach,
    Departure,
    /// Airport advisory. At many fields the only published number.
    Advisory,
    Clearance,
    /// ARTCC.
    Center,
    /// Something the file does not name. Carried, but not shown on the card: a number with no
    /// label invites tuning a radio to it without knowing who is on the other end.
    Other,
}

impl FreqKind {
    pub open spec fn name(self) -> Seq<char> {
        match self {
            FreqKind::Ctaf => "CTAF"@,
            FreqKind::Tower => "TWR"@,
            FreqKind::Ground => "GND"@,
            FreqKind::Atis => "ATIS"@,
            FreqKind::Awos => "AWOS"@,
            FreqKind::Unicom => "UNI"@,
            FreqKind::Approach => "APP"@,
            FreqKind::Departure => "DEP"@,
            FreqKind::Advisory => "A/D"@,
            FreqKind::Clearance => "CLR"@,
            FreqKind::Center => "CTR"@,
            FreqKind::Other => ""@,
        }
    }

    pub fn label(self) -> (r: &'static str)
        ensures
            r@ == self.name(),
    {
        match self {
            FreqKind::Ctaf => "CTAF",
            FreqKind::Tower => "TWR",
            FreqKind::Ground => "GND",
            FreqKind::Atis => "ATIS",
            FreqKind::Awos => "AWOS",
            FreqKind::Unicom => "UNI",
            FreqKind::Approach => "APP",
            FreqKind::Departure => "DEP",
            FreqKind::Advisory => "A/D",
            FreqKind::Clearance => "CLR",
            FreqKind::Center => "CTR",
            FreqKind::Other => "",
        }
    }
}

#[derive(Debug, Clone, Copy, PartialEq, Eq, Structural)]
pub struct Frequency {
    /// Kilohertz. An integer because 121.975 is a real 25 kHz channel and a rounded number would
    /// read as 121.97 or 121.98 depending on which way it landed.
    pub khz: u32,
    pub kind: FreqKind,
}

/// The decimals of a frequency in megahertz: three digits, trailing zeros dropped down to one.
pub open spec fn mhz_decimals(khz: nat) -> Seq<char> {
    let k = khz % 1000;
    let all = seq![digit(k / 100), digit(k / 10 % 10), digit(k % 10)];
    if k % 100 == 0 {
        all.take(1)
    } else if k % 10 == 0 {
        all.take(2)
    } else {
        all
    }
}

impl Frequency {
    /// How a frequency is written, in megahertz.
    pub open spec fn written(self) -> Seq<char> {
        decimal(self.khz as nat / 1000) + seq!['.'] + mhz_decimals(self.khz as nat)
    }

    /// `"121.975"`, `"118.1"`: trailing zeros trimmed to at least one decimal.
    pub fn mhz_text(&self) -> (r: String)
        ensures
            r@ == self.written(),
    {
        let mut s: String = String::new();
        push_decimal(&mut s, (self.khz / 1000) as u64);
        s.push('.');
        let k: u64 = (self.khz % 1000) as u64;
        push_digit(&mut s, k / 100);
        if k % 100 != 0 {
            push_digit(&mut s, k / 10 % 10);
        }
        if k % 10 != 0 {
            push_digit(&mut s, k % 10);
        }
        assert(s@ =~= decimal(self.khz as nat / 1000) + seq!['.'] + mhz_decimals(self.khz as nat));
        s
    }
}

/// One runway orientation. Parallel and reciprocal runways are already collapsed.
#[derive(Debug, Clone, Copy, PartialEq, Eq, Structural)]
pub struct Runway {
    /// Degrees, from the runway identifier: 10-degree granularity.
    pub heading_deg: u16,
    pub length_ft: u16,
}

/// The number painted on the end a heading points from: tens of degrees, 1 to 35.
pub open spec fn runway_number(heading_deg: nat) -> nat {
    let tens = heading_deg / 10 % 36;
    if tens == 0 {
        1
    } else {
        tens
    }
}

/// The number painted on the far end of a runway.
pub open spec fn opposite_number(n: nat) -> nat {
    if n > 18 {
        (n - 18) as nat
    } else {
        n + 18
    }
}

impl Runway {
    /// The pair of numbers painted on the ends.
    pub open spec fn written(self) -> Seq<char> {
        padded(runway_number(self.heading_deg as nat), 2) + seq!['/'] + padded(
            opposite_number(runway_number(self.heading_deg as nat)),
            2,
        )
    }

    /// `"05/23"`: the pair of numbers painted on the ends.
    pub fn designator(&self) -> (r: String)
        ensures
            r@ == self.written(),
    {
        let tens: u16 = self.heading_deg / 10 % 36;
        let a: u16 = if tens == 0 {
            1
        } else {
            tens
        };
        let b: u16 = if a > 18 {
            a - 18
        } else {
            a + 18
        };
        let mut s: String = String::new();
        push_padded(&mut s, a as u64, 2);
        s.push('/');
        push_padded(&mut s, b as u64, 2);
        assert(s@ =~= padded(a as nat, 2) + seq!['/'] + padded(b as nat, 2));
        s
    }
}

/// The two ends of a runway carry numbers half a circle apart, so the far end of the far end is
/// the end one started from.
pub proof fn runway_ends_are_opposite(heading_deg: nat)
    ensures
        1 <= runway_number(heading_deg) <= 35,
        1 <= opposite_number(runway_number(heading_deg)) <= 36,
        opposite_number(opposite_number(runway_number(heading_deg))) == runway_number(heading_deg),
{
}

// --- text in the file ----------------------------------------------------------------------

/// `std::str::from_utf8`: the text in a run of bytes, or nothing when they are not valid UTF-8.
#[verifier::external_body]
fn utf8_text<'a>(bytes: &'a [u8]) -> (r: Option<&'a str>)
    ensures
        r is Some <==> valid_utf8(bytes@),
        r matches Some(s) ==> s@ == decode_utf8(bytes@),
{
    std::str::from_utf8(bytes).ok()
}

/// The text in a run of bytes; empty when they are not valid UTF-8.
pub open spec fn text_or_empty(bytes: Seq<u8>) -> Seq<char> {
    if valid_utf8(bytes) {
        decode_utf8(bytes)
    } else {
        seq![]
    }
}

fn text_in<'a>(bytes: &'a [u8]) -> (r: &'a str)
    ensures
        r@ == text_or_empty(bytes@),
{
    match utf8_text(bytes) {
        Some(s) => s,
        None => {
            proof {
                reveal_strlit("");
            }
            assert(""@ =~= seq![]);
            ""
        },
    }
}

/// How many bytes of a label are in use: everything up to the first zero.
pub open spec fn label_len(label: Seq<u8>) -> int
    decreases label.len(),
{
    if label.len() == 0 || label[0] == 0 {
        0
    } else {
        1 + label_len(label.skip(1))
    }
}

proof fn label_len_bounds(label: Seq<u8>)
    ensures
        0 <= label_len(label) <= label.len(),
        forall|k: int| 0 <= k < label_len(label) ==> label[k] != 0,
        label_len(label) < label.len() ==> label[label_len(label)] == 0,
    decreases label.len(),
{
    if label.len() != 0 && label[0] != 0 {
        label_len_bounds(label.skip(1));
        assert forall|k: int| 0 <= k < label_len(label) implies label[k] != 0 by {
            if k > 0 {
                assert(label[k] == label.skip(1)[k - 1]);
            }
        }
    }
}

/// The text of a label.
pub open spec fn label_text(label: Seq<u8>) -> Seq<char> {
    text_or_empty(label.take(label_len(label)))
}

fn label_of<'a>(label: &'a [u8; LABEL_LEN]) -> (r: &'a str)
    ensures
        r@ == label_text(label@),
{
    let slice: &'a [u8] = label;
    let mut end: usize = 0;
    proof {
        label_len_bounds(label@);
    }
    while end < LABEL_LEN && label[end] != 0
        invariant
            end <= LABEL_LEN,
            slice@ == label@,
            label@.len() == LABEL_LEN,
            forall|k: int| 0 <= k < end ==> label@[k] != 0,
        decreases LABEL_LEN - end,
    {
        end = end + 1;
    }
    proof {
        label_len_bounds(label@);
        assert(end == label_len(label@));
        assert(slice@.subrange(0, end as int) =~= label@.take(end as int));
    }
    text_in(slice_subrange(slice, 0, end))
}

// --- records -------------------------------------------------------------------------------

#[derive(Debug, Clone, Copy)]
pub struct Airport {
    /// Index into the file's airport table, so a tap can be remembered as a number.
    pub index: u32,
    pub position: LatLon,
    pub label: [u8; LABEL_LEN],
    pub elevation_ft: i16,
    /// Longest hard-surface runway in feet, 0 when there is none.
    pub runway_ft: u16,
    pub kind: Kind,
    pub tier: Tier,
    pub flags: u8,
    pub runway_first: u32,
    pub runway_count: u8,
    pub freq_first: u32,
    pub freq_count: u8,
    pub name_off: u32,
    pub name_len: u8,
}

/// Whether a flag is set: flags are single bits.
pub open spec fn has_flag(flags: u8, flag: u8) -> bool {
    flags & flag != 0
}

impl Airport {
    pub fn label(&self) -> (r: &str)
        ensures
            r@ == label_text(self.label@),
    {
        label_of(&self.label)
    }

    pub fn hard_surface(&self) -> (r: bool)
        ensures
            r == has_flag(self.flags, FLAG_HARD_SURFACE),
    {
        self.flags & FLAG_HARD_SURFACE != 0
    }

    pub fn lighted(&self) -> (r: bool)
        ensures
            r == has_flag(self.flags, FLAG_LIGHTED),
    {
        self.flags & FLAG_LIGHTED != 0
    }

    pub fn runway_count(&self) -> (r: usize)
        ensures
            r == self.runway_count,
    {
        self.runway_count as usize
    }

    pub fn frequency_count(&self) -> (r: usize)
        ensures
            r == self.freq_count,
    {
        self.freq_count as usize
    }
}

/// A latitude/longitude box in micro-degrees.
#[derive(Debug, Clone, Copy, PartialEq, Eq, Structural)]
pub struct Bounds {
    pub lat_min: i32,
    pub lat_max: i32,
    pub lon_min: i32,
    pub lon_max: i32,
}

impl Bounds {
    /// Whether a position lies in the box, its edges included.
    pub open spec fn holds(self, lat_e6: int, lon_e6: int) -> bool {
        &&& self.lat_min <= lat_e6 <= self.lat_max
        &&& self.lon_min <= lon_e6 <= self.lon_max
    }

    /// Whether two boxes have a point in common, edges included.
    /// Whether the box holds a position.
    pub open spec fn holds_position(self, position: LatLon) -> bool {
        &&& self.lat_min * 1000 <= position.lat_e9 <= self.lat_max * 1000
        &&& self.lon_min * 1000 <= position.lon_e9 <= self.lon_max * 1000
    }

    pub open spec fn meets(self, other: Bounds) -> bool {
        &&& self.lat_min <= other.lat_max && other.lat_min <= self.lat_max
        &&& self.lon_min <= other.lon_max && other.lon_min <= self.lon_max
    }

    pub fn overlaps(&self, other: &Bounds) -> (r: bool)
        ensures
            r == self.meets(*other),
    {
        self.lat_min <= other.lat_max && other.lat_min <= self.lat_max && self.lon_min
            <= other.lon_max && other.lon_min <= self.lon_max
    }

    /// Whether a position lies in the box.
    pub fn contains(&self, position: LatLon) -> (r: bool)
        ensures
            r == self.holds_position(position),
    {
        let (lat, lon): (i64, i64) = (position.lat_e9, position.lon_e9);
        self.lat_min as i64 * 1000 <= lat && lat <= self.lat_max as i64 * 1000 && self.lon_min as i64
            * 1000 <= lon && lon <= self.lon_max as i64 * 1000
    }
}

/// Two boxes that are boxes at all overlap exactly when some position is in both.
pub proof fn overlapping_boxes_share_a_position(a: Bounds, b: Bounds)
    requires
        a.lat_min <= a.lat_max && a.lon_min <= a.lon_max,
        b.lat_min <= b.lat_max && b.lon_min <= b.lon_max,
    ensures
        a.meets(b) <==> exists|lat: int, lon: int| #[trigger]
            a.holds(lat, lon) && #[trigger] b.holds(lat, lon),
        a.meets(b) == b.meets(a),
{
    if a.meets(b) {
        let lat = if a.lat_min >= b.lat_min {
            a.lat_min as int
        } else {
            b.lat_min as int
        };
        let lon = if a.lon_min >= b.lon_min {
            a.lon_min as int
        } else {
            b.lon_min as int
        };
        assert(a.holds(lat, lon) && b.holds(lat, lon));
    }
}

/// One airspace volume. The geometry stays in the file; [`Chart::ring`] walks it.
#[derive(Debug, Clone, Copy)]
pub struct Airspace {
    pub class: Class,
    pub label: [u8; LABEL_LEN],
    /// Lower limit in feet MSL. Meaningless when [`Airspace::lower_is_surface`] is set.
    pub lower_ft: i32,
    pub upper_ft: i32,
    pub flags: u8,
    pub ring_first: u32,
    pub ring_count: u16,
    pub bounds: Bounds,
}

impl Airspace {
    pub fn label(&self) -> (r: &str)
        ensures
            r@ == label_text(self.label@),
    {
        label_of(&self.label)
    }

    pub fn lower_is_surface(&self) -> (r: bool)
        ensures
            r == has_flag(self.flags, FLAG_LOWER_SURFACE),
    {
        self.flags & FLAG_LOWER_SURFACE != 0
    }

    pub fn ring_count(&self) -> (r: usize)
        ensures
            r == self.ring_count,
    {
        self.ring_count as usize
    }
}

pub open spec fn kind_of(code: u8) -> Kind {
    if code == 0 {
        Kind::Large
    } else if code == 1 {
        Kind::Medium
    } else if code == 2 {
        Kind::Small
    } else if code == 3 {
        Kind::Heliport
    } else {
        Kind::Seaplane
    }
}

pub open spec fn tier_of(code: u8) -> Tier {
    if code == 0 {
        Tier::Major
    } else if code == 1 {
        Tier::Paved
    } else if code == 2 {
        Tier::Minor
    } else {
        Tier::Heliport
    }
}

pub open spec fn class_of(code: u8) -> Class {
    if code == 0 {
        Class::B
    } else if code == 1 {
        Class::C
    } else {
        Class::D
    }
}

pub open spec fn freq_kind_of(code: u8) -> FreqKind {
    if code == 0 {
        FreqKind::Ctaf
    } else if code == 1 {
        FreqKind::Tower
    } else if code == 2 {
        FreqKind::Ground
    } else if code == 3 {
        FreqKind::Atis
    } else if code == 4 {
        FreqKind::Awos
    } else if code == 5 {
        FreqKind::Unicom
    } else if code == 6 {
        FreqKind::Approach
    } else if code == 7 {
        FreqKind::Departure
    } else if code == 8 {
        FreqKind::Advisory
    } else if code == 9 {
        FreqKind::Clearance
    } else if code == 10 {
        FreqKind::Center
    } else {
        FreqKind::Other
    }
}

/// Where an airport record starts.
pub open spec fn airport_start(b: Seq<u8>, i: int) -> int {
    section_start(b, 1) + i * 40
}

/// Where an airspace record starts.
pub open spec fn airspace_start(b: Seq<u8>, i: int) -> int {
    section_start(b, 2) + i * 40
}

/// Latitude of an airport in the file.
pub open spec fn airport_lat(b: Seq<u8>, i: int) -> int {
    i32_at(b, airport_start(b, i))
}

/// Longitude of an airport in the file.
pub open spec fn airport_lon(b: Seq<u8>, i: int) -> int {
    i32_at(b, airport_start(b, i) + 4)
}

/// Where an airport in the file is.
pub open spec fn airport_position(b: Seq<u8>, i: int) -> LatLon {
    LatLon::at_millionths(airport_lat(b, i), airport_lon(b, i))
}

/// Tier of an airport in the file.
pub open spec fn airport_tier(b: Seq<u8>, i: int) -> Tier {
    tier_of(b[airport_start(b, i) + 21])
}

/// Whether an airport is the one recorded at index `i`.
pub open spec fn airport_is(a: Airport, b: Seq<u8>, i: int) -> bool {
    let o = airport_start(b, i);
    &&& a.index == i
    &&& a.position == airport_position(b, i)
    &&& a.label@ == b.subrange(o + 8, o + 16)
    &&& a.elevation_ft == i16_at(b, o + 16)
    &&& a.runway_ft == u16_at(b, o + 18)
    &&& a.kind == kind_of(b[o + 20])
    &&& a.tier == airport_tier(b, i)
    &&& a.flags == b[o + 22]
    &&& a.runway_count == b[o + 23]
    &&& a.runway_first == u32_at(b, o + 24)
    &&& a.freq_first == u32_at(b, o + 28)
    &&& a.name_off == u32_at(b, o + 32)
    &&& a.name_len == b[o + 36]
    &&& a.freq_count == b[o + 37]
}

/// The bounding box of an airspace volume in the file.
pub open spec fn airspace_bounds(b: Seq<u8>, i: int) -> Bounds {
    let o = airspace_start(b, i);
    Bounds {
        lat_min: i32_at(b, o) as i32,
        lat_max: i32_at(b, o + 4) as i32,
        lon_min: i32_at(b, o + 8) as i32,
        lon_max: i32_at(b, o + 12) as i32,
    }
}

/// Whether an airspace volume is the one recorded at index `i`.
pub open spec fn airspace_is(a: Airspace, b: Seq<u8>, i: int) -> bool {
    let o = airspace_start(b, i);
    &&& a.bounds == airspace_bounds(b, i)
    &&& a.ring_first == u32_at(b, o + 16)
    &&& a.ring_count == u16_at(b, o + 20)
    &&& a.class == class_of(b[o + 22])
    &&& a.flags == b[o + 23]
    &&& a.lower_ft == i32_at(b, o + 24)
    &&& a.upper_ft == i32_at(b, o + 28)
    &&& a.label@ == b.subrange(o + 32, o + 40)
}

/// Eight bytes out of the buffer.
fn eight_bytes(b: &[u8], o: usize) -> (r: [u8; LABEL_LEN])
    requires
        o + 8 <= b.len(),
    ensures
        r@ == b@.subrange(o as int, o + 8),
{
    let r: [u8; LABEL_LEN] = [
        b[o],
        b[o + 1],
        b[o + 2],
        b[o + 3],
        b[o + 4],
        b[o + 5],
        b[o + 6],
        b[o + 7],
    ];
    assert(r@ =~= b@.subrange(o as int, o + 8));
    r
}

/// Floor division, which `/` is not for negative numbers, and every CONUS longitude is negative.
pub open spec fn floor_div(a: int, b: int) -> int {
    if b > 0 {
        a / b
    } else {
        (-a) / (-b)
    }
}

/// Floor division.
pub fn div_floor(a: i32, b: i32) -> (r: i32)
    requires
        b != 0,
        !(a == i32::MIN && b == -1),
    ensures
        r == floor_div(a as int, b as int),
{
    let (n, d): (i64, i64) = if b > 0 {
        (a as i64, b as i64)
    } else {
        (-(a as i64), -(b as i64))
    };
    if n >= 0 {
        let q: i64 = n / d;
        proof {
            lemma_fundamental_div_mod(n as int, d as int);
            assert(q <= n) by (nonlinear_arith)
                requires
                    n == d * q + n as int % d as int,
                    0 <= n as int % d as int,
                    d >= 1,
                    q >= 0,
            ;
            assert(b < 0 && b != -1 ==> q <= n / 2) by {
                if b < 0 && b != -1 {
                    assert(2 * q <= n) by (nonlinear_arith)
                        requires
                            n == d * q + n as int % d as int,
                            0 <= n as int % d as int,
                            d >= 2,
                            q >= 0,
                    ;
                }
            }
        }
        q as i32
    } else {
        let m: i64 = -n;
        let q: i64 = (m + (d - 1)) / d;
        proof {
            let t = m + (d - 1);
            lemma_fundamental_div_mod(t as int, d as int);
            let rem = t as int % d as int;
            assert(n == (-q) * d + (d - 1 - rem)) by (nonlinear_arith)
                requires
                    t == d * q + rem,
                    t == m + (d - 1),
                    m == -n,
            ;
            lemma_fundamental_div_mod_converse(n as int, d as int, -q as int, d - 1 - rem);
            assert(q <= m) by (nonlinear_arith)
                requires
                    t == d * q + rem,
                    t == m + (d - 1),
                    rem >= 0,
                    d >= 1,
                    m >= 1,
            ;
            assert(q >= 0);
        }
        (-q) as i32
    }
}

// --- queries -------------------------------------------------------------------------------

/// Row of the grid a latitude falls in, unclamped, so that "off the grid" differs from "edge".
pub open spec fn grid_row(b: Seq<u8>, lat_e6: int) -> int {
    lat_e6 / 1_000_000 - grid_lat0(b)
}

/// Column of the grid a longitude falls in, unclamped.
pub open spec fn grid_col(b: Seq<u8>, lon_e6: int) -> int {
    lon_e6 / 1_000_000 - grid_lon0(b)
}

/// Where the bucket of a cell lies.
pub open spec fn bucket_start(b: Seq<u8>, row: int, col: int) -> int {
    section_start(b, 0) + (row * grid_cols(b) + col) * 8
}

/// First airport of a cell.
pub open spec fn bucket_first(b: Seq<u8>, row: int, col: int) -> int {
    u32_at(b, bucket_start(b, row, col))
}

/// How many airports a cell has.
pub open spec fn bucket_count(b: Seq<u8>, row: int, col: int) -> int {
    u32_at(b, bucket_start(b, row, col) + 4)
}

/// Whether a query asks for the airport at an index: it exists, it is important enough and it is
/// in the box.
pub open spec fn wanted(b: Seq<u8>, i: int, bounds: Bounds, max_tier: Tier) -> bool {
    &&& 0 <= i < airport_total(b)
    &&& airport_tier(b, i).order() <= max_tier.order()
    &&& bounds.holds(airport_lat(b, i), airport_lon(b, i))
}

/// The wanted airports of a run of indices, in order.
pub open spec fn run_hits(
    b: Seq<u8>,
    bounds: Bounds,
    max_tier: Tier,
    first: int,
    end: int,
) -> Seq<int>
    decreases end - first,
{
    if end <= first {
        seq![]
    } else {
        let before = run_hits(b, bounds, max_tier, first, end - 1);
        if wanted(b, end - 1, bounds, max_tier) {
            before.push(end - 1)
        } else {
            before
        }
    }
}

/// The wanted airports of one cell.
pub open spec fn cell_hits(
    b: Seq<u8>,
    bounds: Bounds,
    max_tier: Tier,
    row: int,
    col: int,
) -> Seq<int> {
    run_hits(
        b,
        bounds,
        max_tier,
        bucket_first(b, row, col),
        bucket_first(b, row, col) + bucket_count(b, row, col),
    )
}

/// The wanted airports of the cells `col0..col_end` of a row, west to east.
pub open spec fn row_hits(
    b: Seq<u8>,
    bounds: Bounds,
    max_tier: Tier,
    row: int,
    col0: int,
    col_end: int,
) -> Seq<int>
    decreases col_end - col0,
{
    if col_end <= col0 {
        seq![]
    } else {
        row_hits(b, bounds, max_tier, row, col0, col_end - 1) + cell_hits(
            b,
            bounds,
            max_tier,
            row,
            col_end - 1,
        )
    }
}

/// The wanted airports of the rows `row0..row_end`, south to north.
pub open spec fn grid_hits(
    b: Seq<u8>,
    bounds: Bounds,
    max_tier: Tier,
    row0: int,
    row_end: int,
    col0: int,
    col_end: int,
) -> Seq<int>
    decreases row_end - row0,
{
    if row_end <= row0 {
        seq![]
    } else {
        grid_hits(b, bounds, max_tier, row0, row_end - 1, col0, col_end) + row_hits(
            b,
            bounds,
            max_tier,
            row_end - 1,
            col0,
            col_end,
        )
    }
}

pub open spec fn not_below(n: int, least: int) -> int {
    if n < least {
        least
    } else {
        n
    }
}

pub open spec fn not_above(n: int, most: int) -> int {
    if n > most {
        most
    } else {
        n
    }
}

/// First row a box touches.
pub open spec fn first_row(b: Seq<u8>, bounds: Bounds) -> int {
    not_below(grid_row(b, bounds.lat_min as int), 0)
}

/// One past the last row a box touches.
pub open spec fn end_row(b: Seq<u8>, bounds: Bounds) -> int {
    not_above(grid_row(b, bounds.lat_max as int), grid_rows(b) - 1) + 1
}

/// First column a box touches.
pub open spec fn first_col(b: Seq<u8>, bounds: Bounds) -> int {
    not_below(grid_col(b, bounds.lon_min as int), 0)
}

/// One past the last column a box touches.
pub open spec fn end_col(b: Seq<u8>, bounds: Bounds) -> int {
    not_above(grid_col(b, bounds.lon_max as int), grid_cols(b) - 1) + 1
}

/// The indices of the airports a query finds: the wanted ones of every cell the box touches, cell
/// by cell.
pub open spec fn airports_found(b: Seq<u8>, bounds: Bounds, max_tier: Tier) -> Seq<int> {
    grid_hits(
        b,
        bounds,
        max_tier,
        first_row(b, bounds),
        end_row(b, bounds),
        first_col(b, bounds),
        end_col(b, bounds),
    )
}

/// Whether a list holds the airports at the given indices, in that order.
pub open spec fn airports_are(list: Seq<Airport>, b: Seq<u8>, indices: Seq<int>) -> bool {
    &&& list.len() == indices.len()
    &&& forall|k: int| 0 <= k < list.len() ==> airport_is(#[trigger] list[k], b, indices[k])
}

/// The volumes before `end` whose box overlaps, in file order.
pub open spec fn airspace_found(b: Seq<u8>, bounds: Bounds, end: int) -> Seq<int>
    decreases end,
{
    if end <= 0 {
        seq![]
    } else {
        let before = airspace_found(b, bounds, end - 1);
        if airspace_bounds(b, end - 1).meets(bounds) {
            before.push(end - 1)
        } else {
            before
        }
    }
}

/// Nothing past the end of the table is ever found.
proof fn run_hits_stop(b: Seq<u8>, bounds: Bounds, max_tier: Tier, first: int, end: int, stop: int)
    requires
        airport_total(b) <= stop <= end || (stop <= first && airport_total(b) <= first),
    ensures
        run_hits(b, bounds, max_tier, first, end) == run_hits(b, bounds, max_tier, first, stop),
    decreases end - first,
{
    if end > first && end > stop {
        if stop <= first {
            run_hits_stop(b, bounds, max_tier, first, end - 1, stop);
        } else {
            run_hits_stop(b, bounds, max_tier, first, end - 1, stop);
        }
    }
}

/// An accepted chart.
pub struct Chart {
    bytes: Vec<u8>,
    effective_days: u32,
    airport_count: u32,
    airspace_count: u32,
    lat0: i16,
    lon0: i16,
    rows: u16,
    cols: u16,
    bucket_off: usize,
    airport_off: usize,
    airspace_off: usize,
    ring_off: usize,
    vertex_off: usize,
    runway_off: usize,
    freq_off: usize,
    string_off: usize,
    string_len: usize,
}

impl View for Chart {
    type V = Seq<u8>;

    closed spec fn view(&self) -> Seq<u8> {
        self.bytes@
    }
}

impl Chart {
    #[verifier::type_invariant]
    closed spec fn wf(self) -> bool {
        let b = self.bytes@;
        &&& chart_fault(b) is None
        &&& self.effective_days == u32_at(b, 12)
        &&& self.airport_count == airport_total(b)
        &&& self.airspace_count == airspace_total(b)
        &&& self.lat0 == grid_lat0(b)
        &&& self.lon0 == grid_lon0(b)
        &&& self.rows == grid_rows(b)
        &&& self.cols == grid_cols(b)
        &&& self.bucket_off == section_start(b, 0)
        &&& self.airport_off == section_start(b, 1)
        &&& self.airspace_off == section_start(b, 2)
        &&& self.ring_off == section_start(b, 3)
        &&& self.vertex_off == section_start(b, 4)
        &&& self.runway_off == section_start(b, 5)
        &&& self.freq_off == section_start(b, 6)
        &&& self.string_off == section_start(b, 7)
        &&& self.string_len == u32_at(b, 40)
    }

    /// Validate the header and every section boundary, then take ownership of the bytes.
    ///
    /// A file whose counts and offsets disagree would otherwise read one record into the next, and
    /// the first sign of that is an airport drawn in the sea, a long way from the cause.
    pub fn from_bytes(bytes: Vec<u8>) -> (r: Result<Chart, ChartError>)
        ensures
            match r {
                Ok(chart) => chart@ == bytes@ && chart_fault(bytes@) is None,
                Err(e) => chart_fault(bytes@) == Some(e),
            },
    {
        match check_header(bytes.as_slice()) {
            Err(e) => Err(e),
            Ok(_) => {
                let b: &[u8] = bytes.as_slice();
                proof {
                    section_bounds(b@);
                    sections_tile_the_file(b@);
                }
                let effective_days: u32 = read_u32(b, 12);
                let airport_count: u32 = read_u32(b, 16);
                let airspace_count: u32 = read_u32(b, 20);
                let string_len: usize = read_u32(b, 40) as usize;
                let lat0: i16 = read_i16(b, 48);
                let lon0: i16 = read_i16(b, 50);
                let rows: u16 = read_u16(b, 52);
                let cols: u16 = read_u16(b, 54);
                proof {
                    assert(stated_start(b@, 0) == section_start(b@, 0));
                    assert(stated_start(b@, 1) == section_start(b@, 1));
                    assert(stated_start(b@, 2) == section_start(b@, 2));
                    assert(stated_start(b@, 3) == section_start(b@, 3));
                    assert(stated_start(b@, 4) == section_start(b@, 4));
                    assert(stated_start(b@, 5) == section_start(b@, 5));
                    assert(stated_start(b@, 6) == section_start(b@, 6));
                    assert(stated_start(b@, 7) == section_start(b@, 7));
                }
                let bucket_off: usize = read_u32(b, 56) as usize;
                let airport_off: usize = read_u32(b, 60) as usize;
                let airspace_off: usize = read_u32(b, 64) as usize;
                let ring_off: usize = read_u32(b, 68) as usize;
                let vertex_off: usize = read_u32(b, 72) as usize;
                let runway_off: usize = read_u32(b, 76) as usize;
                let freq_off: usize = read_u32(b, 80) as usize;
                let string_off: usize = read_u32(b, 84) as usize;
                Ok(
                    Chart {
                        bytes,
                        effective_days,
                        airport_count,
                        airspace_count,
                        lat0,
                        lon0,
                        rows,
                        cols,
                        bucket_off,
                        airport_off,
                        airspace_off,
                        ring_off,
                        vertex_off,
                        runway_off,
                        freq_off,
                        string_off,
                        string_len,
                    },
                )
            },
        }
    }

    /// Days since the Unix epoch of the airspace layer's own last edit: the currency of the
    /// airspace, not of the download.
    pub fn effective_days(&self) -> (r: u32)
        ensures
            r == u32_at(self@, 12),
    {
        proof {
            use_type_invariant(self);
        }
        self.effective_days
    }

    pub fn airport_count(&self) -> (r: usize)
        ensures
            r == airport_total(self@),
    {
        proof {
            use_type_invariant(self);
        }
        self.airport_count as usize
    }

    pub fn airspace_count(&self) -> (r: usize)
        ensures
            r == airspace_total(self@),
    {
        proof {
            use_type_invariant(self);
        }
        self.airspace_count as usize
    }

    /// Decode one airport record. Cheap enough to do per query result rather than per file.
    pub fn airport_at(&self, index: usize) -> (r: Option<Airport>)
        ensures
            match r {
                Some(a) => index < airport_total(self@) && airport_is(a, self@, index as int),
                None => index >= airport_total(self@),
            },
    {
        proof {
            use_type_invariant(self);
            section_bounds(self.bytes@);
            sections_tile_the_file(self.bytes@);
        }
        if index >= self.airport_count as usize {
            return None;
        }
        assert(section_start(self@, 1) + section_len(self@, 1) == section_start(self@, 2));
        assert(section_len(self@, 1) == airport_total(self@) * 40);
        let b: &[u8] = self.bytes.as_slice();
        let o: usize = self.airport_off + index * AIRPORT_LEN;
        let position: LatLon = LatLon::from_millionths(read_i32(b, o), read_i32(b, o + 4));
        Some(
            Airport {
                index: index as u32,
                position,
                label: eight_bytes(b, o + 8),
                elevation_ft: read_i16(b, o + 16),
                runway_ft: read_u16(b, o + 18),
                kind: match b[o + 20] {
                    0 => Kind::Large,
                    1 => Kind::Medium,
                    2 => Kind::Small,
                    3 => Kind::Heliport,
                    _ => Kind::Seaplane,
                },
                tier: match b[o + 21] {
                    0 => Tier::Major,
                    1 => Tier::Paved,
                    2 => Tier::Minor,
                    _ => Tier::Heliport,
                },
                flags: b[o + 22],
                runway_count: b[o + 23],
                runway_first: read_u32(b, o + 24),
                freq_first: read_u32(b, o + 28),
                name_off: read_u32(b, o + 32),
                name_len: b[o + 36],
                freq_count: b[o + 37],
            },
        )
    }

    /// The airport's full name, e.g. `"Morristown Municipal Airport"`.
    ///
    /// Borrowed straight out of the file. Returns empty rather than failing when the span is out
    /// of range: a card with a missing name is a great deal better than no picture at all.
    pub fn name(&self, airport: &Airport) -> (r: &str)
        ensures
            r@ == name_text(self@, airport.name_off as int, airport.name_len as int),
    {
        proof {
            use_type_invariant(self);
            section_bounds(self.bytes@);
            sections_tile_the_file(self.bytes@);
            assert(section_start(self@, 7) + section_len(self@, 7) == section_start(self@, 8));
            assert(self@.len() == self.bytes.len());
        }
        let length: u64 = airport.name_len as u64;
        let offset: u64 = airport.name_off as u64;
        if offset + length > self.string_len as u64 {
            proof {
                reveal_strlit("");
            }
            assert(""@ =~= seq![]);
            return "";
        }
        let start: usize = self.string_off + airport.name_off as usize;
        let end: usize = start + airport.name_len as usize;
        text_in(slice_subrange(self.bytes.as_slice(), start, end))
    }

    /// Runway orientations, longest first. Parallel and reciprocal runways are already collapsed.
    pub fn runways(&self, airport: &Airport) -> (r: Vec<Runway>)
        ensures
            r@ == runways_of(self@, *airport),
    {
        proof {
            use_type_invariant(self);
            section_bounds(self.bytes@);
            sections_tile_the_file(self.bytes@);
            assert(section_start(self@, 5) + section_len(self@, 5) == section_start(self@, 6));
        }
        let mut out: Vec<Runway> = Vec::new();
        let total: u64 = ((self.freq_off - self.runway_off) / RUNWAY_LEN) as u64;
        let first: u64 = airport.runway_first as u64;
        let count: u64 = airport.runway_count as u64;
        let mut k: u64 = 0;
        while k < count && first + k < total
            invariant
                self.wf(),
                first == airport.runway_first,
                count == airport.runway_count,
                total == runway_total(self@),
                0 <= k <= attached(first as int, count as int, total as int),
                out@ == runways_of(self@, *airport).take(k as int),
                section_start(self@, 5) + total * 4 == section_start(self@, 6),
                96 <= section_start(self@, 5),
                section_start(self@, 6) <= self@.len(),
            decreases count - k,
        {
            let b: &[u8] = self.bytes.as_slice();
            let o: usize = self.runway_off + (first + k) as usize * RUNWAY_LEN;
            out.push(Runway { heading_deg: read_u16(b, o), length_ft: read_u16(b, o + 2) });
            k = k + 1;
            assert(out@ =~= runways_of(self@, *airport).take(k as int));
        }
        assert(runways_of(self@, *airport).take(k as int) =~= runways_of(self@, *airport));
        out
    }

    /// Communication frequencies, most useful first. Empty for the many fields that have none.
    pub fn frequencies(&self, airport: &Airport) -> (r: Vec<Frequency>)
        ensures
            r@ == frequencies_of(self@, *airport),
    {
        proof {
            use_type_invariant(self);
            section_bounds(self.bytes@);
            sections_tile_the_file(self.bytes@);
            assert(section_start(self@, 6) + section_len(self@, 6) == section_start(self@, 7));
        }
        let mut out: Vec<Frequency> = Vec::new();
        let total: u64 = ((self.string_off - self.freq_off) / FREQUENCY_LEN) as u64;
        let first: u64 = airport.freq_first as u64;
        let count: u64 = airport.freq_count as u64;
        let mut k: u64 = 0;
        while k < count && first + k < total
            invariant
                self.wf(),
                first == airport.freq_first,
                count == airport.freq_count,
                total == freq_total(self@),
                0 <= k <= attached(first as int, count as int, total as int),
                out@ == frequencies_of(self@, *airport).take(k as int),
                section_start(self@, 6) + total * 8 == section_start(self@, 7),
                96 <= section_start(self@, 6),
                section_start(self@, 7) <= self@.len(),
            decreases count - k,
        {
            let b: &[u8] = self.bytes.as_slice();
            let o: usize = self.freq_off + (first + k) as usize * FREQUENCY_LEN;
            let kind: FreqKind = match b[o + 4] {
                0 => FreqKind::Ctaf,
                1 => FreqKind::Tower,
                2 => FreqKind::Ground,
                3 => FreqKind::Atis,
                4 => FreqKind::Awos,
                5 => FreqKind::Unicom,
                6 => FreqKind::Approach,
                7 => FreqKind::Departure,
                8 => FreqKind::Advisory,
                9 => FreqKind::Clearance,
                10 => FreqKind::Center,
                _ => FreqKind::Other,
            };
            out.push(Frequency { khz: read_u32(b, o), kind });
            k = k + 1;
            assert(out@ =~= frequencies_of(self@, *airport).take(k as int));
        }
        assert(frequencies_of(self@, *airport).take(k as int) =~= frequencies_of(self@, *airport));
        out
    }

    /// Decode one airspace record.
    fn airspace_record(&self, index: usize) -> (r: Airspace)
        requires
            index < airspace_total(self@),
        ensures
            airspace_is(r, self@, index as int),
    {
        proof {
            use_type_invariant(self);
            section_bounds(self.bytes@);
            sections_tile_the_file(self.bytes@);
            assert(section_start(self@, 2) + section_len(self@, 2) == section_start(self@, 3));
            assert(section_len(self@, 2) == airspace_total(self@) * 40);
        }
        let b: &[u8] = self.bytes.as_slice();
        let o: usize = self.airspace_off + index * AIRSPACE_LEN;
        Airspace {
            bounds: Bounds {
                lat_min: read_i32(b, o),
                lat_max: read_i32(b, o + 4),
                lon_min: read_i32(b, o + 8),
                lon_max: read_i32(b, o + 12),
            },
            ring_first: read_u32(b, o + 16),
            ring_count: read_u16(b, o + 20),
            class: match b[o + 22] {
                0 => Class::B,
                1 => Class::C,
                _ => Class::D,
            },
            flags: b[o + 23],
            lower_ft: read_i32(b, o + 24),
            upper_ft: read_i32(b, o + 28),
            label: eight_bytes(b, o + 32),
        }
    }

    /// The wanted airports of one cell, onto the end of `out`.
    fn airports_of_cell(
        &self,
        bounds: &Bounds,
        max_tier: Tier,
        row: i32,
        col: i32,
        out: &mut Vec<Airport>,
        Ghost(found): Ghost<Seq<int>>,
    )
        requires
            0 <= row < grid_rows(self@),
            0 <= col < grid_cols(self@),
            airports_are(old(out)@, self@, found),
        ensures
            airports_are(
                final(out)@,
                self@,
                found + cell_hits(self@, *bounds, max_tier, row as int, col as int),
            ),
    {
        let ghost b = self@;
        proof {
            use_type_invariant(self);
            section_bounds(b);
            sections_tile_the_file(b);
            assert(section_start(b, 0) + section_len(b, 0) == section_start(b, 1));
            cell_in_grid(row as int, col as int, grid_rows(b), grid_cols(b));
        }
        let cell: usize = row as usize * self.cols as usize + col as usize;
        let o: usize = self.bucket_off + cell * BUCKET_LEN;
        let first: u64 = read_u32(self.bytes.as_slice(), o) as u64;
        let count: u64 = read_u32(self.bytes.as_slice(), o + 4) as u64;
        let end: u64 = first + count;
        // Indices past the table hold nothing, so the walk stops with it.
        let total: u64 = self.airport_count as u64;
        let stop: u64 = if end > total {
            if total > first {
                total
            } else {
                first
            }
        } else {
            end
        };
        proof {
            if stop != end {
                run_hits_stop(b, *bounds, max_tier, first as int, end as int, stop as int);
            }
            assert(run_hits(b, *bounds, max_tier, first as int, first as int) =~= seq![]);
            assert(found + run_hits(b, *bounds, max_tier, first as int, first as int) =~= found);
        }
        let mut index: u64 = first;
        while index < stop
            invariant
                b == self@,
                first <= index <= stop,
                stop <= airport_total(b) || stop == first,
                airport_total(b) <= u32::MAX,
                airports_are(
                    out@,
                    b,
                    found + run_hits(b, *bounds, max_tier, first as int, index as int),
                ),
            decreases stop - index,
        {
            let ghost before = run_hits(b, *bounds, max_tier, first as int, index as int);
            let ghost after = run_hits(b, *bounds, max_tier, first as int, index + 1);
            match self.airport_at(index as usize) {
                None => {},
                Some(airport) => {
                    if airport.tier.rank() <= max_tier.rank() && bounds.contains(airport.position) {
                        assert(wanted(b, index as int, *bounds, max_tier));
                        out.push(airport);
                        assert(after =~= before.push(index as int));
                        assert(found + after =~= (found + before).push(index as int));
                    } else {
                        assert(after =~= before);
                    }
                },
            }
            index = index + 1;
        }
    }

    /// Airports inside `bounds` at or below `max_tier`.
    ///
    /// Walks only the grid cells the box touches: scanning every record is several hundred
    /// thousand tests a second at 30 Hz, the same order as the rest of a frame.
    pub fn airports_in(&self, bounds: &Bounds, max_tier: Tier) -> (r: Vec<Airport>)
        ensures
            airports_are(r@, self@, airports_found(self@, *bounds, max_tier)),
    {
        let ghost b = self@;
        proof {
            use_type_invariant(self);
        }
        let south: i32 = div_floor(bounds.lat_min, CELL_E6) - self.lat0 as i32;
        let north: i32 = div_floor(bounds.lat_max, CELL_E6) - self.lat0 as i32;
        let west: i32 = div_floor(bounds.lon_min, CELL_E6) - self.lon0 as i32;
        let east: i32 = div_floor(bounds.lon_max, CELL_E6) - self.lon0 as i32;
        let row0: i32 = if south < 0 {
            0
        } else {
            south
        };
        let col0: i32 = if west < 0 {
            0
        } else {
            west
        };
        let row_end: i32 = if north > self.rows as i32 - 1 {
            self.rows as i32
        } else {
            north + 1
        };
        let col_end: i32 = if east > self.cols as i32 - 1 {
            self.cols as i32
        } else {
            east + 1
        };
        let mut out: Vec<Airport> = Vec::new();
        let mut row: i32 = row0;
        while row < row_end
            invariant
                b == self@,
                row0 >= 0,
                col0 >= 0,
                row0 <= row,
                row <= row_end || row == row0,
                row_end <= grid_rows(b),
                col_end <= grid_cols(b),
                airports_are(
                    out@,
                    b,
                    grid_hits(
                        b,
                        *bounds,
                        max_tier,
                        row0 as int,
                        row as int,
                        col0 as int,
                        col_end as int,
                    ),
                ),
            decreases row_end - row,
        {
            let ghost done = grid_hits(
                b,
                *bounds,
                max_tier,
                row0 as int,
                row as int,
                col0 as int,
                col_end as int,
            );
            let mut col: i32 = col0;
            assert(done + row_hits(b, *bounds, max_tier, row as int, col0 as int, col as int)
                =~= done);
            while col < col_end
                invariant
                    b == self@,
                    row0 >= 0,
                    col0 >= 0,
                    row0 <= row < row_end,
                    row_end <= grid_rows(b),
                    col_end <= grid_cols(b),
                    col0 <= col,
                    col <= col_end || col == col0,
                    airports_are(
                        out@,
                        b,
                        done + row_hits(
                            b,
                            *bounds,
                            max_tier,
                            row as int,
                            col0 as int,
                            col as int,
                        ),
                    ),
                decreases col_end - col,
            {
                let ghost so_far = row_hits(
                    b,
                    *bounds,
                    max_tier,
                    row as int,
                    col0 as int,
                    col as int,
                );
                self.airports_of_cell(
                    bounds,
                    max_tier,
                    row,
                    col,
                    &mut out,
                    Ghost(done + so_far),
                );
                assert(done + so_far + cell_hits(b, *bounds, max_tier, row as int, col as int)
                    =~= done + row_hits(
                    b,
                    *bounds,
                    max_tier,
                    row as int,
                    col0 as int,
                    col + 1,
                ));
                col = col + 1;
            }
            proof {
                if col_end < col0 {
                    assert(row_hits(
                        b,
                        *bounds,
                        max_tier,
                        row as int,
                        col0 as int,
                        col_end as int,
                    ) =~= row_hits(b, *bounds, max_tier, row as int, col0 as int, col as int));
                }
            }
            row = row + 1;
        }
        proof {
            if row_end < row0 {
                assert(airports_found(b, *bounds, max_tier) =~= seq![]);
            }
        }
        out
    }

    /// Airspace whose bounding box overlaps `bounds`, in file order: Class B first, so a caller
    /// drawing in order puts the largest volumes underneath.
    ///
    /// Deliberately a linear scan. There are a thousand-odd records with their boxes already in
    /// them, which is a few microseconds a frame.
    pub fn airspace_in(&self, bounds: &Bounds) -> (r: Vec<Airspace>)
        ensures
            airspace_are(r@, self@, airspace_found(self@, *bounds, airspace_total(self@))),
    {
        let ghost b = self@;
        let count: usize = self.airspace_count();
        let mut out: Vec<Airspace> = Vec::new();
        let mut i: usize = 0;
        while i < count
            invariant
                b == self@,
                i <= count,
                count == airspace_total(b),
                airspace_are(out@, b, airspace_found(b, *bounds, i as int)),
            decreases count - i,
        {
            let space: Airspace = self.airspace_record(i);
            if space.bounds.overlaps(bounds) {
                out.push(space);
            }
            i = i + 1;
        }
        out
    }

    /// Vertices of one ring of an airspace volume.
    ///
    /// The ring is **open**: the closing point was dropped when the file was built, because a
    /// renderer closes the path itself. Iterating allocates nothing.
    pub fn ring(&self, space: &Airspace, ring: usize) -> (r: RingIter<'_>)
        ensures
            r.left() == ring_vertices(self@, *space, ring as int),
            r.stated() == ring_stated(self@, *space, ring as int),
    {
        proof {
            use_type_invariant(self);
            section_bounds(self.bytes@);
            sections_tile_the_file(self.bytes@);
        }
        if ring >= space.ring_count as usize {
            return RingIter { chart: self, next: 0, end: 0 };
        }
        let o: u64 = self.ring_off as u64 + (space.ring_first as u64 + ring as u64) * 8;
        if o + 8 > self.bytes.len() as u64 {
            return RingIter { chart: self, next: 0, end: 0 };
        }
        let first: u64 = read_u32(self.bytes.as_slice(), o as usize) as u64;
        let count: u64 = read_u32(self.bytes.as_slice(), o as usize + 4) as u64;
        RingIter { chart: self, next: first, end: first + count }
    }
}

/// Whether a list holds the volumes at the given indices, in that order.
pub open spec fn airspace_are(list: Seq<Airspace>, b: Seq<u8>, indices: Seq<int>) -> bool {
    &&& list.len() == indices.len()
    &&& forall|k: int| 0 <= k < list.len() ==> airspace_is(#[trigger] list[k], b, indices[k])
}

proof fn cell_in_grid(row: int, col: int, rows: int, cols: int)
    requires
        0 <= row < rows <= 65535,
        0 <= col < cols <= 65535,
    ensures
        0 <= row * cols <= 65535 * 65535,
        0 <= row * cols + col < rows * cols,
        rows * cols <= 65535 * 65535,
{
    assert(row * cols + col < rows * cols && 0 <= row * cols <= 65535 * 65535 && rows * cols
        <= 65535 * 65535) by (nonlinear_arith)
        requires
            0 <= row < rows <= 65535,
            0 <= col < cols <= 65535,
    ;
}

/// An airport's name in the string table; empty when the span is not inside the table.
pub open spec fn name_text(b: Seq<u8>, offset: int, length: int) -> Seq<char> {
    if offset + length > u32_at(b, 40) {
        seq![]
    } else {
        let start = section_start(b, 7) + offset;
        text_or_empty(b.subrange(start, start + length))
    }
}

/// How many of `count` entries starting at `first` are inside a table of `total`.
pub open spec fn attached(first: int, count: int, total: int) -> int {
    if first >= total {
        0
    } else {
        not_above(count, total - first)
    }
}

pub open spec fn runway_total(b: Seq<u8>) -> int {
    u32_at(b, 32)
}

pub open spec fn freq_total(b: Seq<u8>) -> int {
    u32_at(b, 36)
}

/// The runway orientation at an index of its table.
pub open spec fn runway_at(b: Seq<u8>, i: int) -> Runway {
    let o = section_start(b, 5) + i * 4;
    Runway { heading_deg: u16_at(b, o) as u16, length_ft: u16_at(b, o + 2) as u16 }
}

/// The frequency at an index of its table.
pub open spec fn frequency_at(b: Seq<u8>, i: int) -> Frequency {
    let o = section_start(b, 6) + i * 8;
    Frequency { khz: u32_at(b, o) as u32, kind: freq_kind_of(b[o + 4]) }
}

/// The runway orientations attached to an airport, as far as they are inside their table.
pub open spec fn runways_of(b: Seq<u8>, a: Airport) -> Seq<Runway> {
    Seq::new(
        attached(a.runway_first as int, a.runway_count as int, runway_total(b)) as nat,
        |k: int| runway_at(b, a.runway_first + k),
    )
}

/// The frequencies attached to an airport, as far as they are inside their table.
pub open spec fn frequencies_of(b: Seq<u8>, a: Airport) -> Seq<Frequency> {
    Seq::new(
        attached(a.freq_first as int, a.freq_count as int, freq_total(b)) as nat,
        |k: int| frequency_at(b, a.freq_first + k),
    )
}

/// Whether a position is one that a vertex can be at.
pub open spec fn is_vertex(p: LatLon) -> bool {
    &&& i32::MIN * 1000 <= p.lat_e9 <= i32::MAX * 1000
    &&& i32::MIN * 1000 <= p.lon_e9 <= i32::MAX * 1000
}

/// The vertex at an index of its table.
pub open spec fn vertex_at(b: Seq<u8>, i: int) -> LatLon {
    let o = section_start(b, 4) + i * 8;
    LatLon::at_millionths(i32_at(b, o), i32_at(b, o + 4))
}

/// The vertices `next..end`, up to the end of the file.
pub open spec fn vertices(b: Seq<u8>, next: int, end: int) -> Seq<LatLon>
    decreases end - next,
{
    if next >= end || section_start(b, 4) + next * 8 + 8 > b.len() {
        seq![]
    } else {
        seq![vertex_at(b, next)] + vertices(b, next + 1, end)
    }
}

/// The vertices of one ring of a volume: none for a ring it does not have, nor for one whose
/// record is not in the file.
pub open spec fn ring_vertices(b: Seq<u8>, space: Airspace, ring: int) -> Seq<LatLon> {
    let o = section_start(b, 3) + (space.ring_first + ring) * 8;
    if ring >= space.ring_count || o + 8 > b.len() {
        seq![]
    } else {
        vertices(b, u32_at(b, o), u32_at(b, o) + u32_at(b, o + 4))
    }
}

proof fn vertices_are_stated(b: Seq<u8>, next: int, end: int)
    ensures
        vertices(b, next, end).len() <= if end > next {
            end - next
        } else {
            0
        },
    decreases end - next,
{
    if next < end {
        vertices_are_stated(b, next + 1, end);
    }
}

/// How many vertices the record of a ring states.
pub open spec fn ring_stated(b: Seq<u8>, space: Airspace, ring: int) -> int {
    let o = section_start(b, 3) + (space.ring_first + ring) * 8;
    if ring >= space.ring_count || o + 8 > b.len() {
        0
    } else {
        u32_at(b, o + 4)
    }
}

/// A walk along one ring.
pub struct RingIter<'a> {
    chart: &'a Chart,
    next: u64,
    end: u64,
}

impl<'a> RingIter<'a> {
    /// The vertices still to come.
    pub closed spec fn left(self) -> Seq<LatLon> {
        vertices(self.chart@, self.next as int, self.end as int)
    }

    /// How many vertices the ring's record says are still to come. A record that points outside the
    /// file says more than there are.
    pub closed spec fn stated(self) -> nat {
        if self.end > self.next {
            (self.end - self.next) as nat
        } else {
            0
        }
    }

    /// How many vertices are still to come, by the ring's record.
    pub fn len(&self) -> (r: u64)
        ensures
            r == self.stated(),
            self.left().len() <= r,
    {
        proof {
            vertices_are_stated(self.chart@, self.next as int, self.end as int);
        }
        if self.end > self.next {
            self.end - self.next
        } else {
            0
        }
    }

    /// Take the next vertex.
    pub fn next(&mut self) -> (r: Option<LatLon>)
        ensures
            match r {
                Some(p) => {
                    &&& old(self).left().len() > 0
                    &&& p == old(self).left()[0]
                    &&& is_vertex(p)
                    &&& final(self).left() == old(self).left().skip(1)
                    &&& final(self).stated() + 1 == old(self).stated()
                },
                None => {
                    &&& old(self).left().len() == 0
                    &&& final(self).left() == old(self).left()
                    &&& final(self).stated() == old(self).stated()
                },
            },
    {
        let chart: &'a Chart = self.chart;
        proof {
            use_type_invariant(chart);
            section_bounds(chart.bytes@);
            sections_tile_the_file(chart.bytes@);
        }
        if self.next >= self.end {
            return None;
        }
        if self.next > 0xffff_ffff_ffff {
            return None;
        }
        let o: u64 = chart.vertex_off as u64 + self.next * 8;
        if o + 8 > chart.bytes.len() as u64 {
            return None;
        }
        let b: &[u8] = chart.bytes.as_slice();
        let p: LatLon = LatLon::from_millionths(
            read_i32(b, o as usize),
            read_i32(b, o as usize + 4),
        );
        self.next = self.next + 1;
        assert(self.left() =~= old(self).left().skip(1));
        Some(p)
    }
}

/// A box as far from a position as a radius reaches, on each side. Longitude degrees shrink with
/// latitude: `cos_lat` is the cosine of the latitude, in billionths, whichever side of a pole it is.
pub open spec fn around(centre: LatLon, radius_mnm: int, cos_lat: int) -> Bounds {
    let shrunk = shrink_of(
        if cos_lat < 0 {
            -cos_lat
        } else {
            cos_lat
        },
    );
    let (lat, lon) = (centre.lat_e9 * 60, centre.lon_e9 * (60 * shrunk));
    let d_lat = radius_mnm * 1_000_000;
    let d_lon = radius_mnm * 1_000_000 * UNIT;
    Bounds {
        lat_min: nearest_coordinate(part(lat - d_lat, 60_000)),
        lat_max: nearest_coordinate(part(lat + d_lat, 60_000)),
        lon_min: nearest_coordinate(part(lon - d_lon, 60_000 * shrunk)),
        lon_max: nearest_coordinate(part(lon + d_lon, 60_000 * shrunk)),
    }
}

/// A box around a position, big enough to cover a circular range.
///
/// Without the cosine the box would be too narrow east-west, at 40 degrees north by about a
/// quarter, which would quietly clip airports off the left and right of the screen while keeping
/// the ones above and below.
pub fn bounds_around(centre: LatLon, radius_mnm: u64, cos_lat: i64) -> (r: Bounds)
    requires
        -UNIT <= cos_lat <= UNIT,
    ensures
        r == around(centre, radius_mnm as int, cos_lat as int),
{
    let size: i64 = if cos_lat < 0 {
        -cos_lat
    } else {
        cos_lat
    };
    let shrunk: i64 = if size < 1_000 {
        1_000
    } else {
        size
    };
    let by: i128 = 60 * shrunk as i128;
    let d_lat: i128 = radius_mnm as i128 * 1_000_000;
    let d_lon: i128 = radius_mnm as i128 * 1_000_000 * UNIT as i128;
    proof {
        let (l, b) = (centre.lon_e9 as int, by as int);
        assert(-0x8000_0000_0000_0000 * 60_000_000_000 <= l * b <= 0x8000_0000_0000_0000
            * 60_000_000_000) by (nonlinear_arith)
            requires
                -0x8000_0000_0000_0000 <= l <= 0x8000_0000_0000_0000,
                0 <= b <= 60_000_000_000,
        ;
    }
    let (lat, lon): (i128, i128) = (centre.lat_e9 as i128 * 60, centre.lon_e9 as i128 * by);
    Bounds {
        lat_min: clamped(part_of(lat - d_lat, 60_000)),
        lat_max: clamped(part_of(lat + d_lat, 60_000)),
        lon_min: clamped(part_of(lon - d_lon, 1000 * by)),
        lon_max: clamped(part_of(lon + d_lon, 1000 * by)),
    }
}

/// The most detailed tier worth drawing at a range, in thousandths of a nautical mile.
pub open spec fn tier_for(range_mnm: int) -> Tier {
    if range_mnm <= 5_000 {
        Tier::Minor
    } else if range_mnm <= 20_000 {
        Tier::Paved
    } else {
        Tier::Major
    }
}

/// The most detailed tier worth drawing at a given range.
pub fn max_tier_for_range(range_mnm: u32) -> (r: Tier)
    ensures
        r == tier_for(range_mnm as int),
{
    if range_mnm <= 5_000 {
        Tier::Minor
    } else if range_mnm <= 20_000 {
        Tier::Paved
    } else {
        Tier::Major
    }
}

// --- laws ----------------------------------------------------------------------------------

/// A box holds the position it is around, to the millionth of a degree, and one that is not cut off
/// is as wide as it is tall or wider, but for what rounding its edges takes.
pub proof fn the_box_is_widened_for_latitude(centre: LatLon, radius_mnm: int, cos_lat: int)
    requires
        0 <= radius_mnm <= u32::MAX,
        -UNIT <= cos_lat <= UNIT,
        i32::MIN <= centre.lat_e6() <= i32::MAX,
        i32::MIN < around(centre, radius_mnm, cos_lat).lon_min,
        around(centre, radius_mnm, cos_lat).lon_max < i32::MAX,
    ensures
        ({
            let b = around(centre, radius_mnm, cos_lat);
            &&& b.lat_max - b.lat_min <= b.lon_max - b.lon_min + 2
            &&& b.holds(centre.lat_e6(), centre.lon_e6())
        }),
{
    let shrunk = shrink_of(
        if cos_lat < 0 {
            -cos_lat
        } else {
            cos_lat
        },
    );
    let (n, r) = (radius_mnm * 1_000_000 * UNIT, radius_mnm * 1_000_000);
    let (by, d) = (60 * shrunk, 60_000 * shrunk);
    let (lat, lon) = (centre.lat_e9 as int, centre.lon_e9 as int);
    edges_are_near(lat * 60, r, 60_000);
    edges_are_near(lon * by, n, d);
    same_part(lat, 60);
    same_part(lon, by);
    let tall = part(lat * 60 + r, 60_000) - part(lat * 60 - r, 60_000);
    let wide = part(lon * by + n, d) - part(lon * by - n, d);
    assert(d * (wide + 2) == d * wide + 2 * d) by (nonlinear_arith);
    assert(60_000 * (wide + 2) > 2 * r) by (nonlinear_arith)
        requires
            d * (wide + 2) > 2 * n,
            n == r * 1_000_000_000,
            60_000 <= d <= 60_000_000_000_000,
            wide >= 0,
    ;
}

proof fn same_part(v: int, by: int)
    requires
        by >= 1,
    ensures
        part(v * by, 1000 * by) == part(v, 1000),
{
    let size = if v >= 0 {
        v
    } else {
        -v
    };
    vstd::arithmetic::div_mod::lemma_div_multiples_vanish_quotient(by, size, 1000);
    assert(by * size == size * by && by * 1000 == 1000 * by) by (nonlinear_arith);
    assert(v >= 0 ==> v * by >= 0) by (nonlinear_arith)
        requires
            by >= 1,
    ;
    assert(v < 0 ==> v * by < 0 && -(v * by) == (-v) * by) by (nonlinear_arith)
        requires
            by >= 1,
    ;
}

/// Where two edges are, `r` either side of `n`, rounded to whole numbers of `d`.
proof fn edges_are_near(n: int, r: int, d: int)
    requires
        d >= 1,
        r >= 0,
    ensures
        part(n - r, d) <= part(n, d) <= part(n + r, d),
        2 * r - 2 * d < d * (part(n + r, d) - part(n - r, d)) < 2 * r + d,
{
    part_grows(n - r, n, d);
    part_grows(n, n + r, d);
    part_is_smaller(n - r, d);
    part_is_smaller(n + r, d);
    let (low, high) = (part(n - r, d), part(n + r, d));
    assert(d * (high - low) == d * high - d * low) by (nonlinear_arith);
}

/// The kilohertz of a frequency written in megahertz.
pub open spec fn khz_written(text: Seq<char>) -> nat {
    let point = place_of(text, '.', 0);
    let decimals = text.skip(point + 1);
    number(text.take(point)) * 1000 + number(decimals) * ten_to((3 - decimals.len()) as nat)
}

proof fn scaled_by(n: nat, scale: nat, a: nat, b: nat, k: nat)
    requires
        n == a,
        scale == b,
        a * b == k,
    ensures
        n * scale == k,
{
}

/// A frequency reads back from its text: nothing is rounded away.
#[verifier::spinoff_prover]
pub proof fn frequencies_read_back(frequency: Frequency)
    ensures
        khz_written(frequency.written()) == frequency.khz,
{
    let khz = frequency.khz as nat;
    let text = frequency.written();
    let whole = decimal(khz / 1000);
    let decimals = mhz_decimals(khz);
    let k = khz % 1000;
    let n = whole.len() as int;
    decimals_read_back(khz / 1000);
    place_bounds(text, '.', 0);
    assert forall|i: int| 0 <= i < n implies #[trigger] text[i] != '.' by {
        assert(text[i] == whole[i]);
        assert(is_digit(whole[i]));
    }
    assert(text[n] == '.');
    assert(place_of(text, '.', 0) == n);
    assert(text.take(n) =~= whole);
    assert(text.skip(n + 1) =~= decimals);
    reveal_with_fuel(number, 4);
    reveal_with_fuel(ten_to, 3);
    let (d, e, f) = (k / 100, k / 10 % 10, k % 10);
    let scale = ten_to((3 - decimals.len()) as nat);
    let none: Seq<char> = seq![];
    assert(number(none) == 0);
    if k % 100 == 0 {
        assert(decimals =~= none.push(digit(d)));
        assert(none.push(digit(d)).drop_last() =~= none);
        assert(d * 100 == k);
        scaled_by(number(decimals), scale, d, 100, k);
    } else if k % 10 == 0 {
        let one = none.push(digit(d));
        assert(decimals =~= one.push(digit(e)));
        assert(one.drop_last() =~= none && one.push(digit(e)).drop_last() =~= one);
        assert(number(one) == d);
        assert((10 * d + e) * 10 == k);
        scaled_by(number(decimals), scale, 10 * d + e, 10, k);
    } else {
        let one = none.push(digit(d));
        let two = one.push(digit(e));
        assert(decimals =~= two.push(digit(f)));
        assert(one.drop_last() =~= none && two.drop_last() =~= one);
        assert(two.push(digit(f)).drop_last() =~= two);
        assert(number(one) == d && number(two) == 10 * d + e);
        assert((100 * d + 10 * e + f) * 1 == k);
        scaled_by(number(decimals), scale, 100 * d + 10 * e + f, 1, k);
    }
    assert(number(decimals) * scale == k);
}

/// Different frequencies have different texts.
pub proof fn frequencies_are_told_apart(one: Frequency, other: Frequency)
    requires
        one.khz != other.khz,
    ensures
        one.written() != other.written(),
{
    frequencies_read_back(one);
    frequencies_read_back(other);
}

proof fn sections_agree(b: Seq<u8>, c: Seq<u8>, k: int)
    requires
        b.len() >= 96,
        c.len() >= 96,
        forall|o: int| 16 <= o < 56 ==> b[o] == c[o],
        0 <= k <= 8,
    ensures
        section_start(c, k) == section_start(b, k),
    decreases k,
{
    if k > 0 {
        sections_agree(b, c, k - 1);
        assert(section_len(c, k - 1) == section_len(b, k - 1));
    }
}

proof fn sections_agree_from(b: Seq<u8>, k: int)
    requires
        section_fault(b, 0) is None,
        0 <= k < 8,
    ensures
        stated_start(b, k) == section_start(b, k),
        section_fault(b, k) is None,
    decreases k,
{
    if k > 0 {
        sections_agree_from(b, k - 1);
    }
}

proof fn faults_are_reached(c: Seq<u8>, k: int, from: int)
    requires
        0 <= from <= k < 8,
        forall|j: int| from <= j < k ==> stated_start(c, j) == #[trigger] section_start(c, j),
        stated_start(c, k) != section_start(c, k),
    ensures
        section_fault(c, from) == Some(
            ChartError::MisplacedSection {
                section: section(k),
                stated: stated_start(c, k) as u64,
                expected: section_start(c, k) as u64,
            },
        ),
    decreases k - from,
{
    if from < k {
        assert(stated_start(c, from) == section_start(c, from));
        faults_are_reached(c, k, from + 1);
    }
}

/// A count in the header of a chart, with a byte of it changed, no longer says how long its section
/// is, and that is noticed: the section after it is not where it has to be, or the file is not as
/// long.
proof fn counts_are_noticed(b: Seq<u8>, c: Seq<u8>, k: int)
    requires
        chart_fault(b) is None,
        c.len() >= 96,
        1 <= k < 8,
        forall|j: int| 0 <= j < k ==> section_len(c, j) == #[trigger] section_len(b, j),
        section_len(c, k) != section_len(b, k),
        forall|o: int| 56 <= o < 88 ==> c[o] == #[trigger] b[o],
    ensures
        section_fault(c, 0) is Some || section_start(c, 8) != section_start(b, 8),
{
    starts_agree(b, c, k);
    assert(section_start(c, k + 1) != section_start(b, k + 1));
    if section_fault(c, 0) is None && k < 7 {
        sections_agree_from(b, k + 1);
        sections_agree_from(c, k + 1);
    }
}

proof fn starts_agree(b: Seq<u8>, c: Seq<u8>, k: int)
    requires
        0 <= k,
        forall|j: int| 0 <= j < k ==> section_len(c, j) == #[trigger] section_len(b, j),
    ensures
        section_start(c, k) == section_start(b, k),
    decreases k,
{
    if k > 0 {
        starts_agree(b, c, k - 1);
        assert(section_len(c, k - 1) == section_len(b, k - 1));
    }
}

/// A chart one of whose counts of records has been changed is refused.
pub proof fn changed_counts_are_refused(b: Seq<u8>, at: int, byte: u8)
    requires
        chart_fault(b) is None,
        16 <= at < 44,
        byte != b[at],
    ensures
        chart_fault(b.update(at, byte)) is Some,
{
    let c = b.update(at, byte);
    let k = (at - 16) / 4 + 1;
    assert(forall|o: int| 0 <= o < b.len() && o != at ==> c[o] == b[o]);
    assert forall|j: int| 0 <= j < k implies section_len(c, j) == #[trigger] section_len(b, j) by {}
    assert(u32_at(c, 12 + 4 * k) != u32_at(b, 12 + 4 * k));
    assert(section_len(c, k) != section_len(b, k));
    counts_are_noticed(b, c, k);
}

/// A chart that has been cut short, or has anything after its last section, is refused.
pub proof fn changed_lengths_are_refused(b: Seq<u8>, c: Seq<u8>)
    requires
        chart_fault(b) is None,
        c.len() != b.len(),
        c.len() >= 96 ==> c.take(96) == b.take(96),
    ensures
        chart_fault(c) is Some,
{
    if c.len() >= 96 {
        assert forall|o: int| 0 <= o < 96 implies #[trigger] c[o] == b[o] by {
            assert(c.take(96)[o] == b.take(96)[o]);
        }
        sections_agree(b, c, 8);
    }
}

/// A chart with a byte of its magic, its version or its offsets changed is refused, and told what
/// for.
pub proof fn damaged_headers_are_refused(b: Seq<u8>, at: int, byte: u8)
    requires
        chart_fault(b) is None,
        0 <= at < 10 || 56 <= at < 88,
        byte != b[at],
    ensures
        at < 8 ==> chart_fault(b.update(at, byte)) == Some(ChartError::NotAChart),
        8 <= at < 10 ==> chart_fault(b.update(at, byte)) matches Some(
            ChartError::UnsupportedVersion(_),
        ),
        56 <= at ==> (chart_fault(b.update(at, byte)) matches Some(
            ChartError::MisplacedSection { section: named, .. },
        ) && named == section((at - 56) / 4)),
{
    let c = b.update(at, byte);
    assert(forall|o: int| 0 <= o < b.len() && o != at ==> c[o] == b[o]);
    if at >= 56 {
        let k = (at - 56) / 4;
        assert forall|j: int| 0 <= j < k implies stated_start(c, j) == #[trigger] section_start(c, j) by {
            sections_agree_from(b, j);
            sections_agree(b, c, j);
        }
        sections_agree_from(b, k);
        sections_agree(b, c, k);
        assert(stated_start(c, k) != stated_start(b, k));
        faults_are_reached(c, k, 0);
    }
}

/// No range draws heliports, and a longer range never draws a less important tier.
pub proof fn longer_ranges_draw_less(near_mnm: int, far_mnm: int)
    requires
        near_mnm <= far_mnm,
    ensures
        tier_for(near_mnm) != Tier::Heliport,
        tier_for(far_mnm).order() <= tier_for(near_mnm).order(),
{
}

proof fn run_hits_wanted(b: Seq<u8>, q: Bounds, t: Tier, first: int, end: int)
    ensures
        forall|k: int|
            0 <= k < run_hits(b, q, t, first, end).len() ==> wanted(
                b,
                #[trigger] run_hits(b, q, t, first, end)[k],
                q,
                t,
            ),
        forall|i: int|
            first <= i < end && wanted(b, i, q, t) ==> #[trigger] run_hits(
                b,
                q,
                t,
                first,
                end,
            ).contains(i),
    decreases end - first,
{
    if end > first {
        run_hits_wanted(b, q, t, first, end - 1);
        let before = run_hits(b, q, t, first, end - 1);
        let all = run_hits(b, q, t, first, end);
        assert forall|i: int| first <= i < end && wanted(b, i, q, t) implies #[trigger] all.contains(
            i,
        ) by {
            if i == end - 1 {
                assert(all[all.len() - 1] == i);
            } else {
                assert(before.contains(i));
                let k = choose|k: int| 0 <= k < before.len() && before[k] == i;
                assert(all[k] == i);
            }
        }
    }
}

proof fn row_hits_wanted(b: Seq<u8>, q: Bounds, t: Tier, row: int, col0: int, col_end: int)
    ensures
        forall|k: int|
            0 <= k < row_hits(b, q, t, row, col0, col_end).len() ==> wanted(
                b,
                #[trigger] row_hits(b, q, t, row, col0, col_end)[k],
                q,
                t,
            ),
        forall|col: int, i: int|
            col0 <= col < col_end && #[trigger] cell_hits(b, q, t, row, col).contains(i)
                ==> row_hits(b, q, t, row, col0, col_end).contains(i),
    decreases col_end - col0,
{
    if col_end > col0 {
        row_hits_wanted(b, q, t, row, col0, col_end - 1);
        let first = bucket_first(b, row, col_end - 1);
        run_hits_wanted(b, q, t, first, first + bucket_count(b, row, col_end - 1));
        let before = row_hits(b, q, t, row, col0, col_end - 1);
        let cell = cell_hits(b, q, t, row, col_end - 1);
        let all = row_hits(b, q, t, row, col0, col_end);
        assert(all == before + cell);
        assert forall|k: int| 0 <= k < all.len() implies wanted(b, #[trigger] all[k], q, t) by {
            if k < before.len() {
                assert(all[k] == before[k]);
            } else {
                assert(all[k] == cell[k - before.len()]);
            }
        }
        assert forall|col: int, i: int|
            col0 <= col < col_end && #[trigger] cell_hits(b, q, t, row, col).contains(
                i,
            ) implies all.contains(i) by {
            if col == col_end - 1 {
                let k = choose|k: int| 0 <= k < cell.len() && cell[k] == i;
                assert(all[before.len() + k] == i);
            } else {
                assert(before.contains(i));
                let k = choose|k: int| 0 <= k < before.len() && before[k] == i;
                assert(all[k] == i);
            }
        }
    }
}

proof fn grid_hits_wanted(
    b: Seq<u8>,
    q: Bounds,
    t: Tier,
    row0: int,
    row_end: int,
    col0: int,
    col_end: int,
)
    ensures
        forall|k: int|
            0 <= k < grid_hits(b, q, t, row0, row_end, col0, col_end).len() ==> wanted(
                b,
                #[trigger] grid_hits(b, q, t, row0, row_end, col0, col_end)[k],
                q,
                t,
            ),
        forall|row: int, i: int|
            row0 <= row < row_end && #[trigger] row_hits(b, q, t, row, col0, col_end).contains(i)
                ==> grid_hits(b, q, t, row0, row_end, col0, col_end).contains(i),
    decreases row_end - row0,
{
    if row_end > row0 {
        grid_hits_wanted(b, q, t, row0, row_end - 1, col0, col_end);
        row_hits_wanted(b, q, t, row_end - 1, col0, col_end);
        let before = grid_hits(b, q, t, row0, row_end - 1, col0, col_end);
        let row_part = row_hits(b, q, t, row_end - 1, col0, col_end);
        let all = grid_hits(b, q, t, row0, row_end, col0, col_end);
        assert(all == before + row_part);
        assert forall|k: int| 0 <= k < all.len() implies wanted(b, #[trigger] all[k], q, t) by {
            if k < before.len() {
                assert(all[k] == before[k]);
            } else {
                assert(all[k] == row_part[k - before.len()]);
            }
        }
        assert forall|row: int, i: int|
            row0 <= row < row_end && #[trigger] row_hits(b, q, t, row, col0, col_end).contains(
                i,
            ) implies all.contains(i) by {
            if row == row_end - 1 {
                let k = choose|k: int| 0 <= k < row_part.len() && row_part[k] == i;
                assert(all[before.len() + k] == i);
            } else {
                assert(before.contains(i));
                let k = choose|k: int| 0 <= k < before.len() && before[k] == i;
                assert(all[k] == i);
            }
        }
    }
}

/// A query returns only what is inside its box and at or below its tier. The grid cell is a whole
/// degree, so most of what a cell holds is outside a small box.
pub proof fn queries_return_only_what_is_asked_for(b: Seq<u8>, bounds: Bounds, max_tier: Tier)
    ensures
        forall|k: int|
            0 <= k < airports_found(b, bounds, max_tier).len() ==> wanted(
                b,
                #[trigger] airports_found(b, bounds, max_tier)[k],
                bounds,
                max_tier,
            ),
{
    grid_hits_wanted(
        b,
        bounds,
        max_tier,
        first_row(b, bounds),
        end_row(b, bounds),
        first_col(b, bounds),
        end_col(b, bounds),
    );
}

/// Whether the index of a file covers an airport: the bucket of the cell it lies in counts it.
pub open spec fn indexed(b: Seq<u8>, i: int) -> bool {
    let row = grid_row(b, airport_lat(b, i));
    let col = grid_col(b, airport_lon(b, i));
    &&& 0 <= row < grid_rows(b)
    &&& 0 <= col < grid_cols(b)
    &&& bucket_first(b, row, col) <= i < bucket_first(b, row, col) + bucket_count(b, row, col)
}

/// A query misses nothing the index covers: every airport in the box and at or below the tier is
/// found, whichever cells the box cuts through.
pub proof fn queries_miss_nothing_indexed(b: Seq<u8>, bounds: Bounds, max_tier: Tier, i: int)
    requires
        indexed(b, i),
        wanted(b, i, bounds, max_tier),
    ensures
        airports_found(b, bounds, max_tier).contains(i),
{
    let row = grid_row(b, airport_lat(b, i));
    let col = grid_col(b, airport_lon(b, i));
    let first = bucket_first(b, row, col);
    run_hits_wanted(b, bounds, max_tier, first, first + bucket_count(b, row, col));
    assert(cell_hits(b, bounds, max_tier, row, col).contains(i));
    row_hits_wanted(b, bounds, max_tier, row, first_col(b, bounds), end_col(b, bounds));
    assert(row_hits(
        b,
        bounds,
        max_tier,
        row,
        first_col(b, bounds),
        end_col(b, bounds),
    ).contains(i));
    grid_hits_wanted(
        b,
        bounds,
        max_tier,
        first_row(b, bounds),
        end_row(b, bounds),
        first_col(b, bounds),
        end_col(b, bounds),
    );
}

/// Those of a list of airports that are at or below a tier.
pub open spec fn up_to_tier(b: Seq<u8>, list: Seq<int>, max_tier: Tier) -> Seq<int>
    decreases list.len(),
{
    if list.len() == 0 {
        seq![]
    } else {
        let before = up_to_tier(b, list.drop_last(), max_tier);
        if airport_tier(b, list.last()).order() <= max_tier.order() {
            before.push(list.last())
        } else {
            before
        }
    }
}

proof fn up_to_tier_splits(b: Seq<u8>, x: Seq<int>, y: Seq<int>, t: Tier)
    ensures
        up_to_tier(b, x + y, t) == up_to_tier(b, x, t) + up_to_tier(b, y, t),
        up_to_tier(b, x, t).len() <= x.len(),
    decreases x.len() + y.len(),
{
    if y.len() == 0 {
        assert(x + y =~= x);
        assert(up_to_tier(b, x, t) + up_to_tier(b, y, t) =~= up_to_tier(b, x, t));
        if x.len() > 0 {
            up_to_tier_splits(b, x.drop_last(), y, t);
        }
    } else {
        assert((x + y).drop_last() =~= x + y.drop_last());
        assert((x + y).last() == y.last());
        up_to_tier_splits(b, x, y.drop_last(), t);
        assert(up_to_tier(b, x + y, t) =~= up_to_tier(b, x, t) + up_to_tier(b, y, t));
    }
}

proof fn run_hits_by_tier(b: Seq<u8>, q: Bounds, fewer: Tier, more: Tier, first: int, end: int)
    requires
        fewer.order() <= more.order(),
    ensures
        run_hits(b, q, fewer, first, end) == up_to_tier(b, run_hits(b, q, more, first, end), fewer),
    decreases end - first,
{
    if end > first {
        run_hits_by_tier(b, q, fewer, more, first, end - 1);
        let before = run_hits(b, q, more, first, end - 1);
        assert(before.push(end - 1).drop_last() =~= before);
    }
}

proof fn row_hits_by_tier(
    b: Seq<u8>,
    q: Bounds,
    fewer: Tier,
    more: Tier,
    row: int,
    col0: int,
    col_end: int,
)
    requires
        fewer.order() <= more.order(),
    ensures
        row_hits(b, q, fewer, row, col0, col_end) == up_to_tier(
            b,
            row_hits(b, q, more, row, col0, col_end),
            fewer,
        ),
    decreases col_end - col0,
{
    if col_end > col0 {
        row_hits_by_tier(b, q, fewer, more, row, col0, col_end - 1);
        let first = bucket_first(b, row, col_end - 1);
        run_hits_by_tier(b, q, fewer, more, first, first + bucket_count(b, row, col_end - 1));
        up_to_tier_splits(
            b,
            row_hits(b, q, more, row, col0, col_end - 1),
            cell_hits(b, q, more, row, col_end - 1),
            fewer,
        );
    }
}

proof fn grid_hits_by_tier(
    b: Seq<u8>,
    q: Bounds,
    fewer: Tier,
    more: Tier,
    row0: int,
    row_end: int,
    col0: int,
    col_end: int,
)
    requires
        fewer.order() <= more.order(),
    ensures
        grid_hits(b, q, fewer, row0, row_end, col0, col_end) == up_to_tier(
            b,
            grid_hits(b, q, more, row0, row_end, col0, col_end),
            fewer,
        ),
    decreases row_end - row0,
{
    if row_end > row0 {
        grid_hits_by_tier(b, q, fewer, more, row0, row_end - 1, col0, col_end);
        row_hits_by_tier(b, q, fewer, more, row_end - 1, col0, col_end);
        up_to_tier_splits(
            b,
            grid_hits(b, q, more, row0, row_end - 1, col0, col_end),
            row_hits(b, q, more, row_end - 1, col0, col_end),
            fewer,
        );
    }
}

/// The tier filter only ever removes: asking for fewer tiers gives the same airports in the same
/// order, less those of the tiers left out.
pub proof fn the_tier_filter_only_removes(b: Seq<u8>, bounds: Bounds, fewer: Tier, more: Tier)
    requires
        fewer.order() <= more.order(),
    ensures
        airports_found(b, bounds, fewer) == up_to_tier(
            b,
            airports_found(b, bounds, more),
            fewer,
        ),
        airports_found(b, bounds, fewer).len() <= airports_found(b, bounds, more).len(),
{
    grid_hits_by_tier(
        b,
        bounds,
        fewer,
        more,
        first_row(b, bounds),
        end_row(b, bounds),
        first_col(b, bounds),
        end_col(b, bounds),
    );
    up_to_tier_splits(b, airports_found(b, bounds, more), seq![], fewer);
}

/// An airspace query finds exactly the volumes whose box overlaps, each once and in file order.
pub proof fn airspace_queries_are_exact(b: Seq<u8>, bounds: Bounds, end: int)
    requires
        0 <= end,
    ensures
        forall|k: int|
            0 <= k < airspace_found(b, bounds, end).len() ==> 0 <= #[trigger] airspace_found(
                b,
                bounds,
                end,
            )[k] < end && airspace_bounds(b, airspace_found(b, bounds, end)[k]).meets(bounds),
        forall|i: int|
            0 <= i < end && airspace_bounds(b, i).meets(bounds) ==> #[trigger] airspace_found(
                b,
                bounds,
                end,
            ).contains(i),
        forall|j: int, k: int|
            0 <= j < k < airspace_found(b, bounds, end).len() ==> airspace_found(b, bounds, end)[j]
                < airspace_found(b, bounds, end)[k],
    decreases end,
{
    if end > 0 {
        airspace_queries_are_exact(b, bounds, end - 1);
        let before = airspace_found(b, bounds, end - 1);
        let all = airspace_found(b, bounds, end);
        assert forall|i: int|
            0 <= i < end && airspace_bounds(b, i).meets(bounds) implies #[trigger] all.contains(
            i,
        ) by {
            if i == end - 1 {
                assert(all[all.len() - 1] == i);
            } else {
                assert(before.contains(i));
                let k = choose|k: int| 0 <= k < before.len() && before[k] == i;
                assert(all[k] == i);
            }
        }
        assert forall|j: int, k: int| 0 <= j < k < all.len() implies all[j] < all[k] by {
            assert(all[j] == before[j]);
            if k < before.len() {
                assert(all[k] == before[k]);
            }
        }
    }
}

/// A box around the whole world finds every volume in the file.
pub proof fn the_whole_world_holds_every_volume(b: Seq<u8>, world: Bounds, i: int)
    requires
        world.lat_min == i32::MIN && world.lat_max == i32::MAX,
        world.lon_min == i32::MIN && world.lon_max == i32::MAX,
        0 <= i < airspace_total(b),
    ensures
        airspace_found(b, world, airspace_total(b)).contains(i),
{
    airspace_queries_are_exact(b, world, airspace_total(b));
    assert(airspace_bounds(b, i).meets(world));
}

/// A ring index past the end yields nothing rather than another volume's geometry.
pub proof fn rings_past_the_end_are_empty(b: Seq<u8>, space: Airspace, ring: int)
    requires
        ring >= space.ring_count,
    ensures
        ring_vertices(b, space, ring) == Seq::<LatLon>::empty(),
{
}

/// A field with nothing attached reads back empty rather than borrowing a neighbour's data, and
/// no field reads back more than its record counts.
pub proof fn attached_tables_stay_apart(b: Seq<u8>, a: Airport)
    ensures
        runways_of(b, a).len() <= a.runway_count,
        frequencies_of(b, a).len() <= a.freq_count,
        a.runway_count == 0 ==> runways_of(b, a) == Seq::<Runway>::empty(),
        a.freq_count == 0 ==> frequencies_of(b, a) == Seq::<Frequency>::empty(),
        a.runway_first + a.runway_count <= runway_total(b) ==> runways_of(b, a).len()
            == a.runway_count,
        a.freq_first + a.freq_count <= freq_total(b) ==> frequencies_of(b, a).len() == a.freq_count,
{
    assert(a.runway_count == 0 ==> runways_of(b, a) =~= Seq::<Runway>::empty());
    assert(a.freq_count == 0 ==> frequencies_of(b, a) =~= Seq::<Frequency>::empty());
}

/// What a chart file is: eight bytes that name it, its version, a grid that is not empty, and its sections
/// one after another behind a header of ninety-six bytes, with nothing left over. Each error says which
/// of these first failed.
pub proof fn what_a_chart_file_is(b: Seq<u8>)
    requires
        b.len() <= u64::MAX,
    ensures
        chart_fault(b) == Some(ChartError::TooShort) <==> b.len() < 96,
        b.len() >= 96 ==> (chart_fault(b) == Some(ChartError::NotAChart) <==> !(b[0] == 'A' as u8
            && b[1] == 'V' as u8 && b[2] == 'C' as u8 && b[3] == 'H' as u8 && b[4] == 'A' as u8 && b[5]
            == 'R' as u8 && b[6] == 'T' as u8 && b[7] == '1' as u8)),
        chart_fault(b) matches Some(ChartError::UnsupportedVersion(v)) ==> v == b[8] + 256 * b[9],
        chart_fault(b) is None ==> b[8] + 256 * b[9] == 2,
        chart_fault(b) == Some(ChartError::EmptyGrid) ==> u16_at(b, 52) == 0 || u16_at(b, 54) == 0,
        chart_fault(b) is None ==> u16_at(b, 52) > 0 && u16_at(b, 54) > 0,
        chart_fault(b) is None ==> b.len() == 96 + u16_at(b, 52) * u16_at(b, 54) * 8 + u32_at(b, 16)
            * 40 + u32_at(b, 20) * 40 + u32_at(b, 24) * 8 + u32_at(b, 28) * 8 + u32_at(b, 32) * 4
            + u32_at(b, 36) * 8 + u32_at(b, 40),
        chart_fault(b) matches Some(ChartError::WrongLength { actual, accounted }) ==> actual
            == b.len(),
{
    reveal_with_fuel(section_start, 9);
    reveal_with_fuel(section_fault, 9);
}

/// Where a section starts is where the header says it does, and each starts where the one before it
/// ends: grid, airports, airspace, rings, vertices, runways, frequencies, names.
pub proof fn sections_stand_where_the_header_says(b: Seq<u8>)
    requires
        chart_fault(b) is None,
    ensures
        section_start(b, 0) == 96,
        u32_at(b, 56) == 96,
        u32_at(b, 60) == section_start(b, 1),
        u32_at(b, 64) == section_start(b, 2),
        u32_at(b, 68) == section_start(b, 3),
        u32_at(b, 72) == section_start(b, 4),
        u32_at(b, 76) == section_start(b, 5),
        u32_at(b, 80) == section_start(b, 6),
        u32_at(b, 84) == section_start(b, 7),
        section_start(b, 1) == 96 + u16_at(b, 52) * u16_at(b, 54) * 8,
        section_start(b, 2) == section_start(b, 1) + 40 * u32_at(b, 16),
        section_start(b, 3) == section_start(b, 2) + 40 * u32_at(b, 20),
        section_start(b, 4) == section_start(b, 3) + 8 * u32_at(b, 24),
        section_start(b, 5) == section_start(b, 4) + 8 * u32_at(b, 28),
        section_start(b, 6) == section_start(b, 5) + 4 * u32_at(b, 32),
        section_start(b, 7) == section_start(b, 6) + 8 * u32_at(b, 36),
{
    reveal_with_fuel(section_start, 9);
    reveal_with_fuel(section_fault, 9);
}

/// An airport is forty bytes: position, label, elevation, longest runway, kind, tier, flags, and where its
/// runways, frequencies and name are.
pub proof fn airports_are_read_as_written(a: Airport, b: Seq<u8>, i: int)
    requires
        airport_is(a, b, i),
    ensures
        ({
            let o = section_start(b, 1) + 40 * i;
            &&& a.index == i
            &&& a.position.lat_e9 == (1000 * i32_at(b, o)) as i64
            &&& a.position.lon_e9 == (1000 * i32_at(b, o + 4)) as i64
            &&& a.label@ == b.subrange(o + 8, o + 16)
            &&& a.elevation_ft == i16_at(b, o + 16)
            &&& a.runway_ft == u16_at(b, o + 18)
            &&& b[o + 20] == 3 ==> a.kind == Kind::Heliport
            &&& b[o + 20] == 0 ==> a.kind == Kind::Large
            &&& b[o + 21] == 0 ==> a.tier == Tier::Major
            &&& b[o + 21] == 1 ==> a.tier == Tier::Paved
            &&& b[o + 21] == 2 ==> a.tier == Tier::Minor
            &&& b[o + 21] > 2 ==> a.tier == Tier::Heliport
            &&& a.flags == b[o + 22] && a.runway_count == b[o + 23]
            &&& a.runway_first == u32_at(b, o + 24) && a.freq_first == u32_at(b, o + 28)
            &&& a.name_off == u32_at(b, o + 32) && a.name_len == b[o + 36]
            &&& a.freq_count == b[o + 37]
        }),
{
}

/// A volume is forty bytes: its box, its rings, class, flags, floor, ceiling and label. What is no class B
/// and no class C is class D.
pub proof fn volumes_are_read_as_written(a: Airspace, b: Seq<u8>, i: int)
    requires
        airspace_is(a, b, i),
    ensures
        ({
            let o = section_start(b, 2) + 40 * i;
            &&& a.bounds.lat_min == i32_at(b, o) && a.bounds.lat_max == i32_at(b, o + 4)
            &&& a.bounds.lon_min == i32_at(b, o + 8) && a.bounds.lon_max == i32_at(b, o + 12)
            &&& a.ring_first == u32_at(b, o + 16) && a.ring_count == u16_at(b, o + 20)
            &&& b[o + 22] == 0 <==> a.class == Class::B
            &&& b[o + 22] == 1 <==> a.class == Class::C
            &&& b[o + 22] > 1 <==> a.class == Class::D
            &&& a.flags == b[o + 23]
            &&& a.lower_ft == i32_at(b, o + 24) && a.upper_ft == i32_at(b, o + 28)
            &&& a.label@ == b.subrange(o + 32, o + 40)
        }),
{
}

/// What each code stands for.
pub proof fn codes_stand_for_what_they_say(code: u8)
    ensures
        kind_of(0) == Kind::Large,
        kind_of(1) == Kind::Medium,
        kind_of(2) == Kind::Small,
        kind_of(3) == Kind::Heliport,
        code > 3 ==> kind_of(code) == Kind::Seaplane,
        freq_kind_of(0).name() == "CTAF"@,
        freq_kind_of(1).name() == "TWR"@,
        freq_kind_of(2).name() == "GND"@,
        freq_kind_of(3).name() == "ATIS"@,
        freq_kind_of(4).name() == "AWOS"@,
        freq_kind_of(5).name() == "UNI"@,
        freq_kind_of(6).name() == "APP"@,
        freq_kind_of(7).name() == "DEP"@,
        freq_kind_of(8).name() == "A/D"@,
        freq_kind_of(9).name() == "CLR"@,
        freq_kind_of(10).name() == "CTR"@,
        code > 10 ==> freq_kind_of(code) == FreqKind::Other,
        freq_kind_of(0) == FreqKind::Ctaf,
        freq_kind_of(1) == FreqKind::Tower,
        freq_kind_of(2) == FreqKind::Ground,
        freq_kind_of(9) == FreqKind::Clearance,
        freq_kind_of(10) == FreqKind::Center,
{
}

/// Out to five miles every field but heliports is shown, out to twenty the paved ones, and beyond that
/// only the major ones.
pub proof fn tiers_by_range(range_mnm: int)
    ensures
        range_mnm <= 5_000 ==> tier_for(range_mnm) == Tier::Minor,
        5_000 < range_mnm <= 20_000 ==> tier_for(range_mnm) == Tier::Paved,
        20_000 < range_mnm ==> tier_for(range_mnm) == Tier::Major,
        Tier::Major.order() < Tier::Paved.order() < Tier::Minor.order() < Tier::Heliport.order(),
{
}

/// A runway's number is its heading in tens of degrees, and its other end reads eighteen more or less.
pub proof fn runway_numbers_are_headings(heading_deg: nat)
    requires
        10 <= heading_deg < 360,
    ensures
        ({
            let n = runway_number(heading_deg);
            let far = opposite_number(n);
            let text = Runway { heading_deg: heading_deg as u16, length_ft: 0 }.written();
            &&& 10 * n <= heading_deg < 10 * n + 10
            &&& far == n + 18 || n == far + 18
            &&& text.len() == 5
            &&& number(text.take(2)) == n
            &&& text[2] == '/'
            &&& number(text.skip(3)) == far
        }),
{
    let n = runway_number(heading_deg);
    let far = opposite_number(n);
    reveal_with_fuel(ten_to, 3);
    padded_reads_back(n, 2);
    padded_reads_back(far, 2);
    let text = Runway { heading_deg: heading_deg as u16, length_ft: 0 }.written();
    assert(text.take(2) =~= padded(n, 2));
    assert(text.skip(3) =~= padded(far, 2));
}

/// The runways and frequencies of a field are those the chart attaches to it, from the first on, as many
/// as it says and the tables hold.
pub proof fn attached_tables_are_read_in_order(b: Seq<u8>, a: Airport, k: int)
    requires
        0 <= k,
    ensures
        k < a.runway_count && a.runway_first + k < u32_at(b, 32) <==> k < runways_of(b, a).len(),
        k < a.freq_count && a.freq_first + k < u32_at(b, 36) <==> k < frequencies_of(b, a).len(),
        k < runways_of(b, a).len() ==> ({
            let o = section_start(b, 5) + 4 * (a.runway_first + k);
            &&& runways_of(b, a)[k].heading_deg == u16_at(b, o)
            &&& runways_of(b, a)[k].length_ft == u16_at(b, o + 2)
        }),
        k < frequencies_of(b, a).len() ==> ({
            let o = section_start(b, 6) + 8 * (a.freq_first + k);
            &&& frequencies_of(b, a)[k].khz == u32_at(b, o)
            &&& frequencies_of(b, a)[k].kind == freq_kind_of(b[o + 4])
        }),
{
}

/// The vertices of a ring are read one after another, latitude before longitude, from the first one of
/// the ring on and as many as it says.
pub proof fn vertices_are_read_in_order(b: Seq<u8>, next: int, end: int, k: int)
    requires
        0 <= next,
        0 <= k < end - next,
        section_start(b, 4) + 8 * end <= b.len(),
    ensures
        vertices(b, next, end).len() == end - next,
        ({
            let o = section_start(b, 4) + 8 * (next + k);
            &&& vertices(b, next, end)[k].lat_e9 == (1000 * i32_at(b, o)) as i64
            &&& vertices(b, next, end)[k].lon_e9 == (1000 * i32_at(b, o + 4)) as i64
        }),
    decreases end - next,
{
    if k > 0 {
        vertices_are_read_in_order(b, next + 1, end, k - 1);
    } else if end - next > 1 {
        vertices_are_read_in_order(b, next + 1, end, 0);
    } else {
        assert(vertices(b, next + 1, end).len() == 0);
    }
}

/// A box about a position reaches as far as it is asked to: north and south by its radius at sixty miles
/// to the degree, to the millionth of a degree.
pub proof fn a_box_reaches_its_radius(centre: LatLon, radius_mnm: int, cos_lat: int)
    requires
        0 <= radius_mnm <= 10_000_000,
        -180_000_000_000 <= centre.lat_e9 <= 180_000_000_000,
    ensures
        ({
            let b = around(centre, radius_mnm, cos_lat);
            &&& -60_000 < 60_000 * b.lat_max - (60 * centre.lat_e9 + 1_000_000 * radius_mnm)
                < 60_000
            &&& -60_000 < 60_000 * b.lat_min - (60 * centre.lat_e9 - 1_000_000 * radius_mnm)
                < 60_000
        }),
{
    part_is_smaller(centre.lat_e9 * 60 - radius_mnm * 1_000_000, 60_000);
    part_is_smaller(centre.lat_e9 * 60 + radius_mnm * 1_000_000, 60_000);
}

/// A cell of the grid is a degree on a side, counted from the south-west corner of the grid.
pub proof fn cells_are_a_degree(b: Seq<u8>, lat_e6: int, lon_e6: int)
    ensures
        0 <= lat_e6 - 1_000_000 * (grid_lat0(b) + grid_row(b, lat_e6)) < 1_000_000,
        0 <= lon_e6 - 1_000_000 * (grid_lon0(b) + grid_col(b, lon_e6)) < 1_000_000,
        grid_lat0(b) == i16_at(b, 48),
        grid_lon0(b) == i16_at(b, 50),
{
}

/// A label ends at its first empty byte, and a name that the table does not hold is empty.
pub proof fn labels_end_at_an_empty_byte(label: Seq<u8>, b: Seq<u8>, offset: int, length: int)
    ensures
        0 <= label_len(label) <= label.len(),
        label_len(label) < label.len() ==> label[label_len(label)] == 0,
        forall|k: int| 0 <= k < label_len(label) ==> #[trigger] label[k] != 0,
        offset + length > u32_at(b, 40) ==> name_text(b, offset, length).len() == 0,
    decreases label.len(),
{
    if label.len() > 0 && label[0] != 0 {
        let rest = label.skip(1);
        labels_end_at_an_empty_byte(rest, b, offset, length);
        assert forall|k: int| 0 <= k < label_len(label) implies #[trigger] label[k] != 0 by {
            if k > 0 {
                assert(rest[k - 1] == label[k]);
            }
        }
        if label_len(label) < label.len() {
            assert(rest[label_len(rest)] == label[label_len(label)]);
        }
    }
}

} // verus!
