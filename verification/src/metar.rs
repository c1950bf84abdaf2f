//! Partial METAR reading: flight category, and which tokens deserve attention.
//!
//! # This deliberately does not decode METARs
//!
//! The weather page shows raw text. What happens here is narrower and safer: recognise the few
//! tokens that carry a *hazard* or drive the *flight category*, and leave everything else exactly
//! as transmitted. An unrecognised token is simply not highlighted. The failure mode is "we did
//! not draw attention to something", never "we said something false".
//!
//! # Token grammar, not substring search
//!
//! Weather phenomena are matched against the actual grammar, an optional qualifier and then
//! two-letter groups from the published sets, rather than by searching for `"TS"` in the line. A
//! substring search finds `TS` inside the station identifier `KTSM` and paints a thunderstorm
//! warning on a clear day.

use vstd::prelude::*;
use vstd::slice::slice_subrange;

use crate::single::{doublings, nearest_single, single_of, two_to, Single};
use crate::text::{
    a_run_is_one_word, all_digits, chars_of, digits_only, is_digit, is_listed, is_space, listed, lowered, number, padded,
    padded_reads_back, place_of, push_padded, read_number, same, split_words, ten_to, ten_to_grows,
    text_of, texts, to_lower, white_space_parts_words, words,
};
use crate::theme::{Color, Theme};

verus! {

/// How much attention a token deserves. Ordered: `Warning` outranks `Caution`.
#[derive(Debug, Clone, Copy, PartialEq, Eq, PartialOrd, Ord, Structural)]
pub enum Hazard {
    Routine,
    Caution,
    Warning,
}

impl Hazard {
    /// Place in the order, worst last.
    pub open spec fn order(self) -> int {
        match self {
            Hazard::Routine => 0,
            Hazard::Caution => 1,
            Hazard::Warning => 2,
        }
    }

    /// The worse of two ratings.
    pub open spec fn or_worse(self, other: Hazard) -> Hazard {
        if self.order() >= other.order() {
            self
        } else {
            other
        }
    }

    /// The worse of two ratings.
    pub fn worse(self, other: Hazard) -> (r: Hazard)
        ensures
            r == self.or_worse(other),
    {
        match (self, other) {
            (Hazard::Warning, _) => Hazard::Warning,
            (_, Hazard::Warning) => Hazard::Warning,
            (Hazard::Caution, _) => Hazard::Caution,
            (_, Hazard::Caution) => Hazard::Caution,
            _ => Hazard::Routine,
        }
    }
}

/// Flight category, from ceiling and visibility. Ordered worst-last.
#[derive(Debug, Clone, Copy, PartialEq, Eq, PartialOrd, Ord, Structural)]
pub enum FlightCategory {
    Vfr,
    Mvfr,
    Ifr,
    Lifr,
}

impl FlightCategory {
    /// Place in the order, worst last.
    pub open spec fn order(self) -> int {
        match self {
            FlightCategory::Vfr => 0,
            FlightCategory::Mvfr => 1,
            FlightCategory::Ifr => 2,
            FlightCategory::Lifr => 3,
        }
    }

    /// The worse of two categories.
    pub open spec fn or_worse(self, other: FlightCategory) -> FlightCategory {
        if self.order() >= other.order() {
            self
        } else {
            other
        }
    }

    /// The worse of two categories.
    pub fn worse(self, other: FlightCategory) -> (r: FlightCategory)
        ensures
            r == self.or_worse(other),
    {
        match (self, other) {
            (FlightCategory::Lifr, _) => FlightCategory::Lifr,
            (_, FlightCategory::Lifr) => FlightCategory::Lifr,
            (FlightCategory::Ifr, _) => FlightCategory::Ifr,
            (_, FlightCategory::Ifr) => FlightCategory::Ifr,
            (FlightCategory::Mvfr, _) => FlightCategory::Mvfr,
            (_, FlightCategory::Mvfr) => FlightCategory::Mvfr,
            _ => FlightCategory::Vfr,
        }
    }

    pub open spec fn name(self) -> Seq<char> {
        match self {
            FlightCategory::Vfr => "VFR"@,
            FlightCategory::Mvfr => "MVFR"@,
            FlightCategory::Ifr => "IFR"@,
            FlightCategory::Lifr => "LIFR"@,
        }
    }

    pub fn label(self) -> (r: &'static str)
        ensures
            r@ == self.name(),
    {
        match self {
            FlightCategory::Vfr => "VFR",
            FlightCategory::Mvfr => "MVFR",
            FlightCategory::Ifr => "IFR",
            FlightCategory::Lifr => "LIFR",
        }
    }

    /// The colour it is shown in.
    pub open spec fn tint(self, theme: Theme) -> Color {
        match self {
            FlightCategory::Vfr => theme.good,
            FlightCategory::Mvfr => theme.caution,
            FlightCategory::Ifr => theme.warning,
            FlightCategory::Lifr => theme.warning,
        }
    }

    /// Colour for a badge or a readout.
    ///
    /// Green is deliberate for VFR: it is the one state that needs no action, and colouring it
    /// like everything else would waste the strongest signal on screen. Lives here rather than on
    /// a page because both the weather list and the airport card show it.
    pub fn colour(self, theme: &Theme) -> (r: Color)
        ensures
            r == self.tint(*theme),
    {
        match self {
            FlightCategory::Vfr => theme.good,
            FlightCategory::Mvfr => theme.caution,
            FlightCategory::Ifr | FlightCategory::Lifr => theme.warning,
        }
    }

    /// Ceiling alone, in feet AGL. FAA thresholds.
    pub open spec fn of_ceiling(ft: int) -> FlightCategory {
        if ft < 500 {
            FlightCategory::Lifr
        } else if ft < 1000 {
            FlightCategory::Ifr
        } else if ft <= 3000 {
            FlightCategory::Mvfr
        } else {
            FlightCategory::Vfr
        }
    }

    /// Ceiling alone, in feet AGL.
    pub fn from_ceiling(ft: u32) -> (r: FlightCategory)
        ensures
            r == FlightCategory::of_ceiling(ft as int),
    {
        if ft < 500 {
            FlightCategory::Lifr
        } else if ft < 1000 {
            FlightCategory::Ifr
        } else if ft <= 3000 {
            FlightCategory::Mvfr
        } else {
            FlightCategory::Vfr
        }
    }

    /// Visibility alone. FAA thresholds of one, three and five statute miles.
    pub open spec fn of_visibility(v: Single) -> FlightCategory {
        if v.is_below(1) {
            FlightCategory::Lifr
        } else if v.is_below(3) {
            FlightCategory::Ifr
        } else if v.is_up_to(5) {
            FlightCategory::Mvfr
        } else {
            FlightCategory::Vfr
        }
    }

    /// Visibility alone.
    pub fn from_visibility(v: Single) -> (r: FlightCategory)
        ensures
            r == FlightCategory::of_visibility(v),
    {
        if v.below(1) {
            FlightCategory::Lifr
        } else if v.below(3) {
            FlightCategory::Ifr
        } else if v.up_to(5) {
            FlightCategory::Mvfr
        } else {
            FlightCategory::Vfr
        }
    }
}

/// Wind over the ground, from a group such as `15014G21KT`.
#[derive(Debug, Clone, Copy, PartialEq, Eq, Structural)]
pub struct Wind {
    pub direction_deg: u16,
    pub speed_kt: u16,
    pub gust_kt: Option<u16>,
}

/// What could be read out of a report without decoding it.
#[derive(Debug, Clone, Copy, PartialEq, Eq, Structural)]
pub struct Summary {
    /// `None` when neither ceiling nor visibility could be read: never a guess.
    pub category: Option<FlightCategory>,
    /// Lowest broken/overcast layer, or vertical visibility, in feet AGL.
    pub ceiling_ft: Option<u32>,
    /// In statute miles.
    pub visibility_sm: Option<Single>,
    pub wind: Option<Wind>,
}

// --- weather groups ------------------------------------------------------------------------

/// FMH-1 weather groups: descriptors, precipitation, obscurations and the rest.
pub const GROUPS: [&'static str; 30] = [
    "MI", "BC", "PR", "DR", "BL", "SH", "TS", "FZ", "DZ", "RA", "SN", "SG", "IC", "PL", "GR",
    "GS", "UP", "BR", "FG", "FU", "VA", "DU", "SA", "HZ", "PY", "PO", "SQ", "FC", "SS", "DS",
];

/// Convective and icing hazards, at any intensity and including "in the vicinity": a thunderstorm
/// eight miles away is still a reason to look up.
pub const WARNING_GROUPS: [&'static str; 11] = [
    "TS", "FZ", "FC", "SQ", "DS", "SS", "VA", "GR", "GS", "PL", "IC",
];

/// The obscurations that actually cost visibility. Mist and haze are deliberately absent: they
/// appear in a large share of routine reports, and a highlight that fires most of the time trains
/// the eye to ignore it.
pub const CAUTION_GROUPS: [&'static str; 4] = ["FG", "FU", "SA", "DU"];

/// The intensity or proximity qualifier a token starts with, if any.
pub open spec fn qualifier_of(token: Seq<char>) -> Seq<char> {
    if token.len() >= 1 && token[0] == '-' {
        "-"@
    } else if token.len() >= 1 && token[0] == '+' {
        "+"@
    } else if token.len() >= 2 && token[0] == 'V' && token[1] == 'C' {
        "VC"@
    } else {
        ""@
    }
}

/// How many characters the qualifier of a token takes.
pub open spec fn qualifier_len(token: Seq<char>) -> int {
    if token.len() >= 1 && (token[0] == '-' || token[0] == '+') {
        1
    } else if token.len() >= 2 && token[0] == 'V' && token[1] == 'C' {
        2
    } else {
        0
    }
}

/// The two-letter groups of a run of characters.
pub open spec fn pairs(rest: Seq<char>) -> Seq<Seq<char>> {
    Seq::new(rest.len() / 2, |k: int| rest.subrange(2 * k, 2 * k + 2))
}

/// A weather token as its qualifier and its groups: an optional qualifier, then one to four
/// two-letter groups out of the published sets and nothing else. `None` for any other token.
pub open spec fn weather_of(token: Seq<char>) -> Option<(Seq<char>, Seq<Seq<char>>)> {
    let rest = token.skip(qualifier_len(token));
    if 2 <= rest.len() <= 8 && rest.len() % 2 == 0 && (forall|k: int|
        0 <= k < rest.len() / 2 ==> listed(#[trigger] pairs(rest)[k], GROUPS@)) {
        Some((qualifier_of(token), pairs(rest)))
    } else {
        None
    }
}

/// Split a weather token into its qualifier and two-letter groups, or `None` if it is not a
/// weather token at all.
///
/// This is the guard against false positives. `KTSM` and `TSNO` both contain "TS"; neither parses
/// as a weather group, so neither is highlighted.
pub fn parse_weather<'a>(token: &'a str) -> (r: Option<(&'static str, Vec<&'a str>)>)
    ensures
        match r {
            Some((qualifier, groups)) => weather_of(token@) == Some((qualifier@, texts(groups@))),
            None => weather_of(token@) is None,
        },
{
    let chars: Vec<char> = chars_of(token);
    let n: usize = chars.len();
    let (qualifier, start): (&'static str, usize) = if n >= 1 && chars[0] == '-' {
        ("-", 1)
    } else if n >= 1 && chars[0] == '+' {
        ("+", 1)
    } else if n >= 2 && chars[0] == 'V' && chars[1] == 'C' {
        ("VC", 2)
    } else {
        ("", 0)
    };
    let ghost rest = token@.skip(start as int);
    assert(start == qualifier_len(token@));
    assert(qualifier@ == qualifier_of(token@));
    if n == start || (n - start) % 2 != 0 || n - start > 8 {
        return None;
    }
    let mut groups: Vec<&'a str> = Vec::new();
    let mut i: usize = start;
    while i < n
        invariant
            chars@ == token@,
            n == chars.len(),
            rest == token@.skip(start as int),
            start == qualifier_len(token@),
            start <= i <= n,
            2 <= rest.len() <= 8,
            rest.len() % 2 == 0,
            groups@.len() * 2 == i - start,
            texts(groups@) == pairs(rest).take(groups@.len() as int),
            forall|k: int| 0 <= k < groups@.len() ==> listed(#[trigger] pairs(rest)[k], GROUPS@),
        decreases n - i,
    {
        let pair: &'a str = token.substring_char(i, i + 2);
        let ghost k = groups@.len() as int;
        assert(pair@ =~= pairs(rest)[k]);
        if !is_listed(pair, &GROUPS) {
            return None;
        }
        groups.push(pair);
        i = i + 2;
        assert(texts(groups@) =~= pairs(rest).take(groups@.len() as int));
    }
    assert(texts(groups@) =~= pairs(rest));
    Some((qualifier, groups))
}

/// Whether any of a token's groups is on a list.
pub open spec fn any_listed(groups: Seq<Seq<char>>, list: Seq<&str>) -> bool {
    exists|k: int| 0 <= k < groups.len() && listed(#[trigger] groups[k], list)
}

/// Hazard rating for one token, judged on its own.
pub open spec fn hazard_of(token: Seq<char>) -> Hazard {
    match weather_of(token) {
        None => Hazard::Routine,
        Some((qualifier, groups)) => if any_listed(groups, WARNING_GROUPS@) {
            Hazard::Warning
        } else if qualifier == "+"@ || any_listed(groups, CAUTION_GROUPS@) {
            Hazard::Caution
        } else {
            Hazard::Routine
        },
    }
}

fn any_on_list(groups: &Vec<&str>, list: &[&str]) -> (r: bool)
    ensures
        r == any_listed(texts(groups@), list@),
{
    let mut i: usize = 0;
    while i < groups.len()
        invariant
            i <= groups.len(),
            forall|k: int| 0 <= k < i ==> !listed(#[trigger] texts(groups@)[k], list@),
        decreases groups.len() - i,
    {
        assert(texts(groups@)[i as int] == groups@[i as int]@);
        if is_listed(groups[i], list) {
            return true;
        }
        i = i + 1;
    }
    false
}

/// Hazard rating for one token, judged on its own.
///
/// Ceiling and visibility are rated separately by [`summarise`], because their severity depends
/// on a threshold rather than on the token's identity.
pub fn token_hazard(token: &str) -> (r: Hazard)
    ensures
        r == hazard_of(token@),
{
    match parse_weather(token) {
        None => Hazard::Routine,
        Some((qualifier, groups)) => if any_on_list(&groups, &WARNING_GROUPS) {
            Hazard::Warning
        } else if same(qualifier, "+") || any_on_list(&groups, &CAUTION_GROUPS) {
            Hazard::Caution
        } else {
            Hazard::Routine
        },
    }
}

// --- sky condition -------------------------------------------------------------------------

/// How much of the sky a layer covers, where it says so in three letters.
pub const COVERS: [&'static str; 4] = ["FEW", "SCT", "BKN", "OVC"];

/// How many characters name the cover: two for vertical visibility, three otherwise.
pub open spec fn cover_len(token: Seq<char>) -> int {
    if token.len() >= 2 && token[0] == 'V' && token[1] == 'V' {
        2
    } else {
        3
    }
}

/// A sky-condition group, `BKN035`, `OVC004CB`, `VV002`, as its height in feet and whether it
/// counts as a ceiling: a cover, three digits of height, and at most a cloud type.
///
/// Only broken, overcast and vertical visibility are ceilings: few and scattered are not, which is
/// the single most common mistake in home-grown METAR code.
pub open spec fn sky_of(token: Seq<char>) -> Option<(int, bool)> {
    let c = cover_len(token);
    let cover = token.take(c);
    let height = token.subrange(c, c + 3);
    let suffix = token.skip(c + 3);
    if token.len() >= c + 3 && (c == 2 || listed(cover, COVERS@)) && all_digits(height) && (suffix
        == ""@ || suffix == "CB"@ || suffix == "TCU"@) {
        Some((100 * number(height) as int, c == 2 || cover == "BKN"@ || cover == "OVC"@))
    } else {
        None
    }
}

fn sky_layer(token: &str) -> (r: Option<(u32, bool)>)
    ensures
        match r {
            Some((height, ceiling)) => sky_of(token@) == Some((height as int, ceiling)),
            None => sky_of(token@) is None,
        },
{
    let chars: Vec<char> = chars_of(token);
    let n: usize = chars.len();
    let c: usize = if n >= 2 && chars[0] == 'V' && chars[1] == 'V' {
        2
    } else {
        3
    };
    assert(c == cover_len(token@));
    if n < c + 3 {
        return None;
    }
    let cover: &str = token.substring_char(0, c);
    let suffix: &str = token.substring_char(c + 3, n);
    proof {
        assert(cover@ =~= token@.take(c as int));
        assert(suffix@ =~= token@.skip(c + 3));
    }
    if c == 3 && !is_listed(cover, &COVERS) {
        return None;
    }
    let height: &[char] = slice_subrange(chars.as_slice(), c, c + 3);
    if !digits_only(height) {
        return None;
    }
    if !(same(suffix, "") || same(suffix, "CB") || same(suffix, "TCU")) {
        return None;
    }
    let hundreds: u64 = read_number(height);
    proof {
        reveal_with_fuel(ten_to, 4);
    }
    let ceiling: bool = c == 2 || same(cover, "BKN") || same(cover, "OVC");
    Some((hundreds as u32 * 100, ceiling))
}

// --- visibility ----------------------------------------------------------------------------

fn find(v: &[char], c: char) -> (r: usize)
    ensures
        r == place_of(v@, c, 0),
        r <= v@.len(),
{
    let mut i: usize = 0;
    while i < v.len() && v[i] != c
        invariant
            i <= v.len(),
            place_of(v@, c, 0) == place_of(v@, c, i as int),
        decreases v.len() - i,
    {
        i = i + 1;
    }
    i
}

/// How many noughts stand before anything else, from `i` on.
pub open spec fn noughts(s: Seq<char>, i: int) -> int
    decreases s.len() - i,
{
    if i < 0 || i >= s.len() || s[i] != '0' {
        i
    } else {
        noughts(s, i + 1)
    }
}

/// The digits of a number that count: all but the noughts in front.
pub open spec fn significant(s: Seq<char>) -> Seq<char> {
    s.skip(noughts(s, 0))
}

/// The number that digits write, times a power of ten, as near as single precision holds it. A
/// number of forty digits or more before the point is past the largest there is, and one whose first
/// forty-six decimals are noughts is nearer to nothing than to the smallest.
pub open spec fn scaled(negative: bool, written: Seq<char>, power: int) -> Single {
    let counted = significant(written).len();
    if counted > 0 && counted + power > 39 {
        Single::Infinite { negative }
    } else if counted == 0 || counted + power < -45 {
        Single::nought(negative)
    } else if power < 0 {
        nearest_single(negative, number(written), ten_to((-power) as nat))
    } else {
        nearest_single(negative, number(written) * ten_to(power as nat), 1)
    }
}

/// Whether a sign stands in front.
pub open spec fn has_sign(s: Seq<char>) -> bool {
    s.len() >= 1 && (s[0] == '-' || s[0] == '+')
}

/// What follows a sign, if there is one.
pub open spec fn unsigned_part(s: Seq<char>) -> Seq<char> {
    if has_sign(s) {
        s.skip(1)
    } else {
        s
    }
}

/// The power of ten behind an `e`: a sign or none, and digits. One of more than nine digits counts
/// as the first number that long.
pub open spec fn exponent_of(s: Seq<char>) -> Option<int> {
    let body = unsigned_part(s);
    if body.len() >= 1 && all_digits(body) {
        let size = if significant(body).len() > 9 {
            1_000_000_000
        } else {
            number(significant(body)) as int
        };
        Some(
            if s[0] == '-' {
                -size
            } else {
                size
            },
        )
    } else {
        None
    }
}

/// Digits with at most one point among them, at least one of them, and a power of ten.
pub open spec fn decimal_of(negative: bool, s: Seq<char>, power: int) -> Option<Single> {
    let point = place_of(s, '.', 0);
    let whole = s.take(point);
    let decimals = s.skip(point + 1);
    if point >= s.len() {
        if s.len() >= 1 && all_digits(s) {
            Some(scaled(negative, s, power))
        } else {
            None
        }
    } else if s.len() >= 2 && all_digits(whole) && all_digits(decimals) {
        Some(scaled(negative, whole + decimals, power - decimals.len()))
    } else {
        None
    }
}

/// A number without its sign, in small letters: infinite, none, or digits with a power of ten
/// behind them or not.
pub open spec fn magnitude_of(negative: bool, s: Seq<char>) -> Option<Single> {
    let e = place_of(s, 'e', 0);
    if s == "inf"@ || s == "infinity"@ {
        Some(Single::Infinite { negative })
    } else if s == "nan"@ {
        Some(Single::NotANumber)
    } else if e >= s.len() {
        decimal_of(negative, s, 0)
    } else {
        match exponent_of(s.skip(e + 1)) {
            Some(power) => decimal_of(negative, s.take(e), power),
            None => None,
        }
    }
}

/// A number with an optional sign in front.
pub open spec fn numeral_of(s: Seq<char>) -> Option<Single> {
    magnitude_of(s.len() >= 1 && s[0] == '-', lowered(unsigned_part(s)))
}

fn count_noughts(v: &[char]) -> (r: usize)
    ensures
        r == noughts(v@, 0),
        r <= v@.len(),
{
    let mut i: usize = 0;
    while i < v.len() && v[i] == '0'
        invariant
            i <= v.len(),
            noughts(v@, 0) == noughts(v@, i as int),
        decreases v.len() - i,
    {
        i = i + 1;
    }
    i
}

proof fn part_is_digits(s: Seq<char>, from: int, to: int)
    requires
        all_digits(s),
        0 <= from <= to <= s.len(),
    ensures
        all_digits(s.subrange(from, to)),
{
    assert forall|k: int| 0 <= k < s.subrange(from, to).len() implies is_digit(
        #[trigger] s.subrange(from, to)[k],
    ) by {
        assert(is_digit(s[from + k]));
    }
}

fn scale(negative: bool, written: &[char], power: i128) -> (r: Single)
    requires
        all_digits(written@),
        -0x2_0000_0000_0000_0000 <= power <= 0x2_0000_0000_0000_0000,
    ensures
        r == scaled(negative, written@, power as int),
{
    let counted: usize = written.len() - count_noughts(written);
    let reach: i128 = power + counted as i128;
    assert(significant(written@).len() == counted);
    if counted > 0 && reach > 39 {
        return Single::Infinite { negative };
    }
    if counted == 0 || reach < -45 {
        return Single::Finite { negative, mantissa: 0, exponent: -149 };
    }
    single_of(negative, written, power)
}

fn read_exponent(v: &[char]) -> (r: Option<i128>)
    ensures
        match r {
            Some(power) => exponent_of(v@) == Some(power as int),
            None => exponent_of(v@) is None,
        },
        r matches Some(power) ==> -1_000_000_000 <= power <= 1_000_000_000,
{
    let n: usize = v.len();
    let signed: bool = n >= 1 && (v[0] == '-' || v[0] == '+');
    let body: &[char] = if signed {
        slice_subrange(v, 1, n)
    } else {
        v
    };
    assert(body@ =~= unsigned_part(v@));
    if body.len() < 1 || !digits_only(body) {
        return None;
    }
    let from: usize = count_noughts(body);
    let counted: &[char] = slice_subrange(body, from, body.len());
    assert(counted@ =~= significant(body@));
    let size: i128 = if counted.len() > 9 {
        1_000_000_000
    } else {
        proof {
            part_is_digits(body@, from as int, body@.len() as int);
            assert(body@.subrange(from as int, body@.len() as int) =~= counted@);
            reveal_with_fuel(ten_to, 10);
            ten_to_grows(counted@.len(), 9);
        }
        read_number(counted) as i128
    };
    if v[0] == '-' {
        Some(-size)
    } else {
        Some(size)
    }
}

fn read_decimal(negative: bool, v: &[char], power: i128) -> (r: Option<Single>)
    requires
        -1_000_000_000 <= power <= 1_000_000_000,
    ensures
        r == decimal_of(negative, v@, power as int),
{
    let n: usize = v.len();
    let point: usize = find(v, '.');
    if point >= n {
        if n < 1 || !digits_only(v) {
            return None;
        }
        return Some(scale(negative, v, power));
    }
    let whole: &[char] = slice_subrange(v, 0, point);
    let decimals: &[char] = slice_subrange(v, point + 1, n);
    assert(whole@ =~= v@.take(point as int));
    assert(decimals@ =~= v@.skip(point + 1));
    if n < 2 || !digits_only(whole) || !digits_only(decimals) {
        return None;
    }
    let mut written: Vec<char> = Vec::new();
    let mut i: usize = 0;
    while i < n
        invariant
            i <= n,
            n == v@.len(),
            point < n,
            written@ == if i <= point {
                v@.take(i as int)
            } else {
                v@.take(point as int) + v@.subrange(point + 1, i as int)
            },
        decreases n - i,
    {
        if i != point {
            written.push(v[i]);
        }
        i = i + 1;
        assert(written@ =~= if i <= point {
            v@.take(i as int)
        } else {
            v@.take(point as int) + v@.subrange(point + 1, i as int)
        });
    }
    proof {
        assert(written@ =~= whole@ + decimals@);
        assert forall|k: int| 0 <= k < written@.len() implies is_digit(#[trigger] written@[k]) by {
            if k < point {
                assert(is_digit(whole@[k]));
            } else {
                assert(is_digit(decimals@[k - point]));
            }
        }
    }
    Some(scale(negative, written.as_slice(), power - (n - point - 1) as i128))
}

fn spells(v: &[char], word: &str) -> (r: bool)
    ensures
        r == (v@ == word@),
{
    let text: String = text_of(v);
    same(text.as_str(), word)
}

fn read_magnitude(negative: bool, v: &[char]) -> (r: Option<Single>)
    ensures
        r == magnitude_of(negative, v@),
{
    if spells(v, "inf") || spells(v, "infinity") {
        return Some(Single::Infinite { negative });
    }
    if spells(v, "nan") {
        return Some(Single::NotANumber);
    }
    let e: usize = find(v, 'e');
    if e >= v.len() {
        return read_decimal(negative, v, 0);
    }
    let mantissa: &[char] = slice_subrange(v, 0, e);
    let behind: &[char] = slice_subrange(v, e + 1, v.len());
    assert(mantissa@ =~= v@.take(e as int));
    assert(behind@ =~= v@.skip(e + 1));
    match read_exponent(behind) {
        Some(power) => read_decimal(negative, mantissa, power),
        None => None,
    }
}

fn read_numeral(v: &[char]) -> (r: Option<Single>)
    ensures
        r == numeral_of(v@),
{
    let n: usize = v.len();
    let signed: bool = n >= 1 && (v[0] == '-' || v[0] == '+');
    let negative: bool = n >= 1 && v[0] == '-';
    let body: &[char] = if signed {
        slice_subrange(v, 1, n)
    } else {
        v
    };
    assert(body@ =~= unsigned_part(v@));
    let mut small: Vec<char> = Vec::new();
    let mut i: usize = 0;
    while i < body.len()
        invariant
            i <= body.len(),
            small@ =~= lowered(body@).take(i as int),
        decreases body.len() - i,
    {
        small.push(to_lower(body[i]));
        i = i + 1;
    }
    assert(small@ =~= lowered(body@));
    read_magnitude(negative, small.as_slice())
}

/// A visibility token in statute miles, `10SM`, `1/2SM`, `M1/4SM`, `P6SM`, with the whole part a
/// token before it carries.
///
/// `M` means "less than" and `P` "more than". Both are reported at the limit of what the sensor
/// can resolve, so the numeric value is the right thing to categorise on.
pub open spec fn visibility_of(token: Seq<char>, whole: int) -> Option<Single> {
    let n = token.len();
    if n >= 2 && token[n - 2] == 'S' && token[n - 1] == 'M' {
        let full = token.take(n - 2);
        let body = if full.len() >= 1 && (full[0] == 'M' || full[0] == 'P') {
            full.skip(1)
        } else {
            full
        };
        let slash = place_of(body, '/', 0);
        if slash < body.len() {
            match (numeral_of(body.take(slash)), numeral_of(body.skip(slash + 1))) {
                (Some(top), Some(bottom)) => Some(top.divided_by(bottom).plus(whole as nat)),
                _ => None,
            }
        } else {
            match numeral_of(body) {
                Some(top) => Some(top.plus(whole as nat)),
                None => None,
            }
        }
    } else {
        None
    }
}

fn parse_visibility(token: &str, whole: u64) -> (r: Option<Single>)
    requires
        whole < 100,
    ensures
        r == visibility_of(token@, whole as int),
{
    let chars: Vec<char> = chars_of(token);
    let n: usize = chars.len();
    if !(n >= 2 && chars[n - 2] == 'S' && chars[n - 1] == 'M') {
        return None;
    }
    let all: &[char] = chars.as_slice();
    let full: &[char] = slice_subrange(all, 0, n - 2);
    assert(full@ =~= token@.take(n - 2));
    let body: &[char] = if full.len() >= 1 && (full[0] == 'M' || full[0] == 'P') {
        slice_subrange(full, 1, full.len())
    } else {
        full
    };
    assert(full@.len() >= 1 && (full@[0] == 'M' || full@[0] == 'P') ==> body@ =~= full@.skip(1));
    let slash: usize = find(body, '/');
    if slash < body.len() {
        let left: &[char] = slice_subrange(body, 0, slash);
        let right: &[char] = slice_subrange(body, slash + 1, body.len());
        assert(left@ =~= body@.take(slash as int));
        assert(right@ =~= body@.skip(slash + 1));
        match (read_numeral(left), read_numeral(right)) {
            (Some(top), Some(bottom)) => Some(top.over(bottom).with_whole(whole as u32)),
            _ => None,
        }
    } else {
        match read_numeral(body) {
            Some(top) => Some(top.with_whole(whole as u32)),
            None => None,
        }
    }
}

// --- wind ----------------------------------------------------------------------------------

/// A wind group in knots, `15014KT` or `15014G21KT`: three digits of direction, two or three of
/// speed, and two or three of gust.
pub open spec fn wind_of(token: Seq<char>) -> Option<Wind> {
    let n = token.len();
    if n >= 2 && token[n - 2] == 'K' && token[n - 1] == 'T' {
        let body = token.take(n - 2);
        let g = place_of(body, 'G', 0);
        let steady = body.take(g);
        let gust = body.skip(g + 1);
        if (steady.len() == 5 || steady.len() == 6) && all_digits(steady) && (g >= body.len() || (2
            <= gust.len() <= 3 && all_digits(gust))) {
            Some(
                Wind {
                    direction_deg: number(steady.take(3)) as u16,
                    speed_kt: number(steady.skip(3)) as u16,
                    gust_kt: if g >= body.len() {
                        None
                    } else {
                        Some(number(gust) as u16)
                    },
                },
            )
        } else {
            None
        }
    } else {
        None
    }
}

fn parse_wind(token: &str) -> (r: Option<Wind>)
    ensures
        r == wind_of(token@),
{
    let chars: Vec<char> = chars_of(token);
    let n: usize = chars.len();
    if !(n >= 2 && chars[n - 2] == 'K' && chars[n - 1] == 'T') {
        return None;
    }
    let body: &[char] = slice_subrange(chars.as_slice(), 0, n - 2);
    assert(body@ =~= token@.take(n - 2));
    let g: usize = find(body, 'G');
    let steady: &[char] = slice_subrange(body, 0, g);
    assert(steady@ =~= body@.take(g as int));
    if !((steady.len() == 5 || steady.len() == 6) && digits_only(steady)) {
        return None;
    }
    proof {
        reveal_with_fuel(ten_to, 4);
        part_is_digits(steady@, 0, 3);
        part_is_digits(steady@, 3, steady@.len() as int);
    }
    let heading: &[char] = slice_subrange(steady, 0, 3);
    let speed: &[char] = slice_subrange(steady, 3, steady.len());
    assert(heading@ =~= steady@.take(3));
    assert(speed@ =~= steady@.skip(3));
    let direction_deg: u16 = read_number(heading) as u16;
    let speed_kt: u16 = read_number(speed) as u16;
    if g >= body.len() {
        return Some(Wind { direction_deg, speed_kt, gust_kt: None });
    }
    let gust: &[char] = slice_subrange(body, g + 1, body.len());
    assert(gust@ =~= body@.skip(g + 1));
    if !(2 <= gust.len() && gust.len() <= 3 && digits_only(gust)) {
        return None;
    }
    let gust_kt: u16 = read_number(gust) as u16;
    Some(Wind { direction_deg, speed_kt, gust_kt: Some(gust_kt) })
}

/// The degree sign.
pub const DEGREE: char = '\u{00B0}';

impl Wind {
    /// How a wind is written on a card.
    pub open spec fn written(self) -> Seq<char> {
        if self.direction_deg == 0 && self.speed_kt == 0 && self.gust_kt is None {
            "CALM"@
        } else {
            padded(self.direction_deg as nat, 3) + seq![DEGREE, ' '] + padded(
                self.speed_kt as nat,
                2,
            ) + match self.gust_kt {
                Some(gust) => seq!['G'] + padded(gust as nat, 2),
                None => seq![],
            }
        }
    }

    /// `"150° 14G21"`, `"090° 05"`, `"CALM"`.
    pub fn text(&self) -> (r: String)
        ensures
            r@ == self.written(),
    {
        let mut out: String = String::new();
        if self.direction_deg == 0 && self.speed_kt == 0 && self.gust_kt.is_none() {
            out.append("CALM");
            assert(out@ =~= "CALM"@);
            return out;
        }
        push_padded(&mut out, self.direction_deg as u64, 3);
        out.push(DEGREE);
        out.push(' ');
        push_padded(&mut out, self.speed_kt as u64, 2);
        match self.gust_kt {
            Some(gust) => {
                out.push('G');
                push_padded(&mut out, gust as u64, 2);
            },
            None => {},
        }
        assert(out@ =~= self.written());
        out
    }
}

// --- whole reports -------------------------------------------------------------------------

/// Where the remarks of a report start, looking from word `i` on, or its end.
pub open spec fn remarks_at(tokens: Seq<Seq<char>>, i: int) -> int
    decreases tokens.len() - i,
{
    if i < 0 || i >= tokens.len() || tokens[i] == "RMK"@ {
        i
    } else {
        remarks_at(tokens, i + 1)
    }
}

/// The words of a report before its remarks, which are free-form and full of things that look
/// like fields but are not.
pub open spec fn fields(body: Seq<char>) -> Seq<Seq<char>> {
    words(body).take(remarks_at(words(body), 0))
}

fn fields_of<'a>(body: &'a str) -> (r: Vec<&'a str>)
    ensures
        texts(r@) == fields(body@),
{
    let tokens: Vec<&'a str> = split_words(body);
    let mut out: Vec<&'a str> = Vec::new();
    let mut i: usize = 0;
    while i < tokens.len() && !same(tokens[i], "RMK")
        invariant
            i <= tokens.len(),
            texts(tokens@) == words(body@),
            texts(out@) == words(body@).take(i as int),
            remarks_at(words(body@), 0) == remarks_at(words(body@), i as int),
        decreases tokens.len() - i,
    {
        assert(texts(tokens@)[i as int] == tokens@[i as int]@);
        let ghost before = out@;
        out.push(tokens[i]);
        i = i + 1;
        assert(texts(out@) =~= texts(before).push(words(body@)[i - 1]));
        assert(texts(out@) =~= words(body@).take(i as int));
    }
    assert(i < tokens@.len() ==> texts(tokens@)[i as int] == tokens@[i as int]@);
    assert(remarks_at(words(body@), 0) == i);
    out
}

/// The lowest ceiling among some words.
pub open spec fn lowest_ceiling(tokens: Seq<Seq<char>>) -> Option<int>
    decreases tokens.len(),
{
    if tokens.len() == 0 {
        None
    } else {
        let before = lowest_ceiling(tokens.drop_last());
        match (sky_of(tokens.last()), before) {
            (Some((height, true)), None) => Some(height),
            (Some((height, true)), Some(lower)) => Some(
                if height < lower {
                    height
                } else {
                    lower
                },
            ),
            _ => before,
        }
    }
}

/// Whether a word is one or two digits: the whole part of a visibility such as `1 1/2SM`, or
/// anything else that short.
pub open spec fn is_short_number(token: Seq<char>) -> bool {
    token.len() <= 2 && all_digits(token)
}

/// The whole part that the word before a visibility carries. Reading `1 1/2SM` as a half mile
/// instead of one and a half turns marginal weather into the worst there is.
pub open spec fn whole_before(tokens: Seq<Seq<char>>, i: int) -> int {
    if i > 0 && is_short_number(tokens[i - 1]) && place_of(tokens[i], '/', 0) < tokens[i].len() {
        number(tokens[i - 1]) as int
    } else {
        0
    }
}

/// The first visibility among some words, from `i` on.
pub open spec fn first_visibility(tokens: Seq<Seq<char>>, i: int) -> Option<Single>
    decreases tokens.len() - i,
{
    if i < 0 || i >= tokens.len() {
        None
    } else {
        match visibility_of(tokens[i], whole_before(tokens, i)) {
            Some(v) => Some(v),
            None => first_visibility(tokens, i + 1),
        }
    }
}

/// The first wind among some words, from `i` on.
pub open spec fn first_wind(tokens: Seq<Seq<char>>, i: int) -> Option<Wind>
    decreases tokens.len() - i,
{
    if i < 0 || i >= tokens.len() {
        None
    } else {
        match wind_of(tokens[i]) {
            Some(w) => Some(w),
            None => first_wind(tokens, i + 1),
        }
    }
}

/// Words that say there is no cloud below the reporting limit.
pub const CLEAR_WORDS: [&'static str; 4] = ["CLR", "SKC", "NSC", "NCD"];

/// Whether some word says there is no cloud: a positive statement, not missing data.
pub open spec fn says_clear(tokens: Seq<Seq<char>>) -> bool {
    exists|k: int| 0 <= k < tokens.len() && listed(#[trigger] tokens[k], CLEAR_WORDS@)
}

/// Whether some word says ceiling and visibility are fine.
pub open spec fn says_cavok(tokens: Seq<Seq<char>>) -> bool {
    exists|k: int| 0 <= k < tokens.len() && #[trigger] tokens[k] == "CAVOK"@
}

/// The category of a ceiling and a visibility: the worse of the two governs, which is what
/// "and/or" means in the FAA definitions. A clear sky is an unlimited ceiling.
pub open spec fn category_of(
    ceiling_ft: Option<int>,
    clear: bool,
    visibility: Option<Single>,
) -> Option<FlightCategory> {
    let from_ceiling = match ceiling_ft {
        Some(ft) => Some(FlightCategory::of_ceiling(ft)),
        None => if clear {
            Some(FlightCategory::Vfr)
        } else {
            None
        },
    };
    let from_visibility = match visibility {
        Some(v) => Some(FlightCategory::of_visibility(v)),
        None => None,
    };
    match (from_ceiling, from_visibility) {
        (Some(a), Some(b)) => Some(a.or_worse(b)),
        (Some(a), None) => Some(a),
        (None, b) => b,
    }
}

/// Whether a summary is that of a report.
pub open spec fn summarises(r: Summary, body: Seq<char>) -> bool {
    let tokens = fields(body);
    &&& r.wind == first_wind(tokens, 0)
    &&& if says_cavok(tokens) {
        &&& r.category == Some(FlightCategory::Vfr)
        &&& r.ceiling_ft is None
        &&& r.visibility_sm is None
    } else {
        &&& match r.ceiling_ft {
            Some(ft) => lowest_ceiling(tokens) == Some(ft as int),
            None => lowest_ceiling(tokens) is None,
        }
        &&& r.visibility_sm == first_visibility(tokens, 0)
        &&& r.category == category_of(
            lowest_ceiling(tokens),
            says_clear(tokens),
            first_visibility(tokens, 0),
        )
    }
}

/// The category a report is in, by what could be read of it.
pub open spec fn report_category(body: Seq<char>) -> Option<FlightCategory> {
    let tokens = fields(body);
    if says_cavok(tokens) {
        Some(FlightCategory::Vfr)
    } else {
        category_of(lowest_ceiling(tokens), says_clear(tokens), first_visibility(tokens, 0))
    }
}

fn ceiling_in(tokens: &Vec<&str>) -> (r: Option<u32>)
    ensures
        match r {
            Some(ft) => lowest_ceiling(texts(tokens@)) == Some(ft as int),
            None => lowest_ceiling(texts(tokens@)) is None,
        },
{
    let ghost all = texts(tokens@);
    let mut best: Option<u32> = None;
    let mut i: usize = 0;
    assert(all.take(0) =~= seq![]);
    while i < tokens.len()
        invariant
            i <= tokens.len(),
            all == texts(tokens@),
            match best {
                Some(ft) => lowest_ceiling(all.take(i as int)) == Some(ft as int),
                None => lowest_ceiling(all.take(i as int)) is None,
            },
        decreases tokens.len() - i,
    {
        proof {
            assert(all.take(i + 1).drop_last() =~= all.take(i as int));
            assert(all.take(i + 1).last() == tokens@[i as int]@);
        }
        match sky_layer(tokens[i]) {
            Some((height, ceiling)) => if ceiling {
                best = match best {
                    None => Some(height),
                    Some(lower) => Some(
                        if height < lower {
                            height
                        } else {
                            lower
                        },
                    ),
                };
            },
            None => {},
        }
        i = i + 1;
    }
    assert(all.take(i as int) =~= all);
    best
}

/// The whole part that the word before word `i` carries.
fn whole_part(tokens: &Vec<&str>, i: usize) -> (r: u64)
    requires
        i < tokens@.len(),
    ensures
        r == whole_before(texts(tokens@), i as int),
        r < 100,
{
    if i == 0 {
        return 0;
    }
    assert(texts(tokens@)[i - 1] == tokens@[i - 1]@);
    assert(texts(tokens@)[i as int] == tokens@[i as int]@);
    let before: Vec<char> = chars_of(tokens[i - 1]);
    let here: Vec<char> = chars_of(tokens[i]);
    if before.len() <= 2 && digits_only(before.as_slice()) && find(here.as_slice(), '/')
        < here.len() {
        let n: u64 = read_number(before.as_slice());
        proof {
            reveal_with_fuel(ten_to, 3);
            ten_to_grows(before@.len(), 2);
        }
        n
    } else {
        0
    }
}

fn visibility_in(tokens: &Vec<&str>) -> (r: Option<Single>)
    ensures
        r == first_visibility(texts(tokens@), 0),
{
    let ghost all = texts(tokens@);
    let mut i: usize = 0;
    while i < tokens.len()
        invariant
            i <= tokens.len(),
            all == texts(tokens@),
            first_visibility(all, 0) == first_visibility(all, i as int),
        decreases tokens.len() - i,
    {
        assert(all[i as int] == tokens@[i as int]@);
        let whole: u64 = whole_part(tokens, i);
        let found: Option<Single> = parse_visibility(tokens[i], whole);
        if found.is_some() {
            return found;
        }
        i = i + 1;
    }
    None
}

fn wind_in(tokens: &Vec<&str>) -> (r: Option<Wind>)
    ensures
        r == first_wind(texts(tokens@), 0),
{
    let ghost all = texts(tokens@);
    let mut i: usize = 0;
    while i < tokens.len()
        invariant
            i <= tokens.len(),
            all == texts(tokens@),
            first_wind(all, 0) == first_wind(all, i as int),
        decreases tokens.len() - i,
    {
        assert(all[i as int] == tokens@[i as int]@);
        let found: Option<Wind> = parse_wind(tokens[i]);
        if found.is_some() {
            return found;
        }
        i = i + 1;
    }
    None
}

fn cavok_in(tokens: &Vec<&str>) -> (r: bool)
    ensures
        r == says_cavok(texts(tokens@)),
{
    let ghost all = texts(tokens@);
    let mut i: usize = 0;
    while i < tokens.len()
        invariant
            i <= tokens.len(),
            all == texts(tokens@),
            forall|k: int| 0 <= k < i ==> #[trigger] all[k] != "CAVOK"@,
        decreases tokens.len() - i,
    {
        assert(all[i as int] == tokens@[i as int]@);
        if same(tokens[i], "CAVOK") {
            return true;
        }
        i = i + 1;
    }
    false
}

/// Read ceiling, visibility, wind and flight category out of a report body.
pub fn summarise(body: &str) -> (r: Summary)
    ensures
        summarises(r, body@),
        r.category == report_category(body@),
{
    let tokens: Vec<&str> = fields_of(body);
    let wind: Option<Wind> = wind_in(&tokens);
    if cavok_in(&tokens) {
        return Summary {
            category: Some(FlightCategory::Vfr),
            ceiling_ft: None,
            visibility_sm: None,
            wind,
        };
    }
    let ceiling_ft: Option<u32> = ceiling_in(&tokens);
    let visibility_sm: Option<Single> = visibility_in(&tokens);
    let clear: bool = any_on_list(&tokens, &CLEAR_WORDS);
    assert(clear == says_clear(texts(tokens@)));
    let from_ceiling: Option<FlightCategory> = match ceiling_ft {
        Some(ft) => Some(FlightCategory::from_ceiling(ft)),
        None => if clear {
            Some(FlightCategory::Vfr)
        } else {
            None
        },
    };
    let from_visibility: Option<FlightCategory> = match visibility_sm {
        Some(v) => Some(FlightCategory::from_visibility(v)),
        None => None,
    };
    let category: Option<FlightCategory> = match (from_ceiling, from_visibility) {
        (Some(a), Some(b)) => Some(a.worse(b)),
        (Some(a), None) => Some(a),
        (None, b) => b,
    };
    Summary { category, ceiling_ft, visibility_sm, wind }
}

/// The worst rating among some words.
pub open spec fn worst_token(tokens: Seq<Seq<char>>) -> Hazard
    decreases tokens.len(),
{
    if tokens.len() == 0 {
        Hazard::Routine
    } else {
        worst_token(tokens.drop_last()).or_worse(hazard_of(tokens.last()))
    }
}

/// How a category rates on its own.
pub open spec fn category_hazard(category: Option<FlightCategory>) -> Hazard {
    match category {
        Some(FlightCategory::Lifr) => Hazard::Warning,
        Some(FlightCategory::Ifr) => Hazard::Warning,
        Some(FlightCategory::Mvfr) => Hazard::Caution,
        _ => Hazard::Routine,
    }
}

/// Hazard rating for a whole report: the worst of its tokens, and of its category.
pub fn body_hazard(body: &str) -> (r: Hazard)
    ensures
        r == worst_token(fields(body@)).or_worse(category_hazard(report_category(body@))),
{
    let tokens: Vec<&str> = fields_of(body);
    let ghost all = texts(tokens@);
    let mut worst: Hazard = Hazard::Routine;
    let mut i: usize = 0;
    assert(all.take(0) =~= seq![]);
    while i < tokens.len()
        invariant
            i <= tokens.len(),
            all == texts(tokens@),
            worst == worst_token(all.take(i as int)),
        decreases tokens.len() - i,
    {
        proof {
            assert(all.take(i + 1).drop_last() =~= all.take(i as int));
            assert(all.take(i + 1).last() == tokens@[i as int]@);
        }
        worst = worst.worse(token_hazard(tokens[i]));
        i = i + 1;
    }
    assert(all.take(i as int) =~= all);
    let by_category: Hazard = match summarise(body).category {
        Some(FlightCategory::Lifr) | Some(FlightCategory::Ifr) => Hazard::Warning,
        Some(FlightCategory::Mvfr) => Hazard::Caution,
        _ => Hazard::Routine,
    };
    worst.worse(by_category)
}

// --- laws ----------------------------------------------------------------------------------

/// The groups of a list, one after the other.
pub open spec fn joined(groups: Seq<Seq<char>>) -> Seq<char>
    decreases groups.len(),
{
    if groups.len() == 0 {
        seq![]
    } else {
        joined(groups.drop_last()) + groups.last()
    }
}

proof fn joined_pairs(rest: Seq<char>, k: nat)
    requires
        2 * k <= rest.len(),
    ensures
        joined(pairs(rest).take(k as int)) == rest.take(2 * k as int),
    decreases k,
{
    if k == 0 {
        assert(pairs(rest).take(0) =~= seq![]);
        assert(rest.take(0) =~= seq![]);
    } else {
        joined_pairs(rest, (k - 1) as nat);
        let some = pairs(rest).take(k as int);
        assert(some.drop_last() =~= pairs(rest).take(k - 1));
        assert(some.last() =~= rest.subrange(2 * (k - 1), 2 * k as int));
        assert(rest.take(2 * k as int) =~= rest.take(2 * (k - 1)) + rest.subrange(
            2 * (k - 1),
            2 * k as int,
        ));
    }
}

/// Splitting a weather token loses nothing and adds nothing: the qualifier and the groups, put
/// back together, are the token.
pub proof fn weather_tokens_split_exactly(token: Seq<char>)
    requires
        weather_of(token) is Some,
    ensures
        weather_of(token) matches Some((qualifier, groups)) && qualifier + joined(groups) == token,
{
    reveal_strlit("-");
    reveal_strlit("+");
    reveal_strlit("VC");
    reveal_strlit("");
    let rest = token.skip(qualifier_len(token));
    joined_pairs(rest, rest.len() / 2);
    assert(pairs(rest).take(rest.len() as int / 2) =~= pairs(rest));
    assert(rest.take(2 * (rest.len() as int / 2)) =~= rest);
    assert(qualifier_of(token) + rest =~= token);
}

proof fn remarks_end_the_fields(tokens: Seq<Seq<char>>, tail: Seq<Seq<char>>, i: int)
    requires
        0 <= i <= tokens.len(),
    ensures
        remarks_at(tokens + seq!["RMK"@] + tail, i) == remarks_at(tokens, i),
        i <= remarks_at(tokens, i) <= tokens.len(),
    decreases tokens.len() - i,
{
    let longer = tokens + seq!["RMK"@] + tail;
    if i == tokens.len() {
        assert(longer[i] == "RMK"@);
    } else {
        assert(longer[i] == tokens[i]);
        if tokens[i] != "RMK"@ {
            remarks_end_the_fields(tokens, tail, i + 1);
        }
    }
}

/// Nothing in the remarks changes what is read from a report, neither its category nor its
/// rating: `TSNO` there means the thunderstorm sensor is out, not that there is a thunderstorm.
pub proof fn remarks_change_nothing(body: Seq<char>, longer: Seq<char>, tail: Seq<Seq<char>>)
    requires
        words(longer) == words(body) + seq!["RMK"@] + tail,
    ensures
        fields(longer) == fields(body),
        report_category(longer) == report_category(body),
        worst_token(fields(longer)) == worst_token(fields(body)),
        forall|r: Summary| summarises(r, longer) == summarises(r, body),
{
    remarks_end_the_fields(words(body), tail, 0);
    assert(fields(longer) =~= fields(body));
}

/// Whether a text opens with the word that remarks start with.
pub open spec fn opens_remarks(text: Seq<char>) -> bool {
    &&& text.len() >= 3
    &&& text.take(3) == "RMK"@
    &&& text.len() > 3 ==> is_space(text[3])
}

/// Remarks appended to a report leave alone what is read from it and how it is rated, whatever
/// they say.
pub proof fn appended_remarks_change_nothing(body: Seq<char>, gap: char, remarks: Seq<char>)
    requires
        is_space(gap),
        opens_remarks(remarks),
    ensures
        fields(body + seq![gap] + remarks) == fields(body),
        report_category(body + seq![gap] + remarks) == report_category(body),
        worst_token(fields(body + seq![gap] + remarks)) == worst_token(fields(body)),
        forall|r: Summary| summarises(r, body + seq![gap] + remarks) == summarises(r, body),
{
    let longer = body + seq![gap] + remarks;
    let opening = "RMK"@;
    reveal_strlit("RMK");
    white_space_parts_words(body, gap, remarks);
    a_run_is_one_word(opening);
    if remarks.len() == 3 {
        let tail: Seq<Seq<char>> = seq![];
        assert(remarks.take(3) =~= remarks);
        assert(words(longer) =~= words(body) + seq![opening] + tail);
        remarks_change_nothing(body, longer, tail);
    } else {
        let rest = remarks.skip(4);
        assert(remarks =~= opening + seq![remarks[3]] + rest) by {
            assert(remarks.take(3) =~= opening);
            assert(remarks =~= remarks.take(3) + seq![remarks[3]] + rest);
        }
        white_space_parts_words(opening, remarks[3], rest);
        assert(words(longer) =~= words(body) + seq![opening] + words(rest));
        remarks_change_nothing(body, longer, words(rest));
    }
}

/// What a qualifier does to a rating: "light" and "in the vicinity" change nothing, and "heavy"
/// makes a routine weather token a caution. A word that is no weather token stays routine.
pub proof fn only_heavy_raises_a_rating(token: Seq<char>)
    requires
        qualifier_len(token) == 0,
    ensures
        hazard_of("-"@ + token) == hazard_of(token),
        hazard_of("VC"@ + token) == hazard_of(token),
        weather_of(token) is Some ==> hazard_of("+"@ + token) == hazard_of(token).or_worse(
            Hazard::Caution,
        ),
        weather_of(token) is None ==> hazard_of("+"@ + token) == Hazard::Routine,
{
    reveal_strlit("");
    reveal_strlit("-");
    reveal_strlit("+");
    reveal_strlit("VC");
    assert(token.skip(0) =~= token);
    assert(("-"@ + token).skip(1) =~= token);
    assert(("+"@ + token).skip(1) =~= token);
    assert(("VC"@ + token).skip(2) =~= token);
    assert(qualifier_len("-"@ + token) == 1 && qualifier_of("-"@ + token) == "-"@);
    assert(qualifier_len("+"@ + token) == 1 && qualifier_of("+"@ + token) == "+"@);
    assert(qualifier_len("VC"@ + token) == 2 && qualifier_of("VC"@ + token) == "VC"@);
    assert("-"@[0] != "+"@[0] && "VC"@.len() != "+"@.len() && ""@.len() != "+"@.len());
}

/// The height of a layer that counts as a ceiling.
pub open spec fn ceiling_of(token: Seq<char>) -> Option<int> {
    match sky_of(token) {
        Some((height, true)) => Some(height),
        _ => None,
    }
}

/// The ceiling is one of the ceiling layers, and no ceiling layer is lower.
pub proof fn the_lowest_ceiling_wins(tokens: Seq<Seq<char>>)
    ensures
        lowest_ceiling(tokens) is Some ==> exists|k: int|
            0 <= k < tokens.len() && #[trigger] ceiling_of(tokens[k]) == lowest_ceiling(tokens),
        forall|k: int|
            0 <= k < tokens.len() && #[trigger] ceiling_of(tokens[k]) is Some ==> lowest_ceiling(
                tokens,
            ) is Some && lowest_ceiling(tokens)->0 <= ceiling_of(tokens[k])->0,
    decreases tokens.len(),
{
    if tokens.len() > 0 {
        let before = tokens.drop_last();
        the_lowest_ceiling_wins(before);
        let n = tokens.len() - 1;
        assert forall|k: int|
            0 <= k < tokens.len() && #[trigger] ceiling_of(
                tokens[k],
            ) is Some implies lowest_ceiling(tokens) is Some && lowest_ceiling(tokens)->0
            <= ceiling_of(tokens[k])->0 by {
            if k < n {
                assert(before[k] == tokens[k]);
                assert(ceiling_of(before[k]) == ceiling_of(tokens[k]));
            }
        }
        if lowest_ceiling(tokens) is Some && ceiling_of(tokens[n]) != lowest_ceiling(tokens) {
            let k = choose|k: int|
                0 <= k < before.len() && #[trigger] ceiling_of(before[k]) == lowest_ceiling(before);
            assert(before[k] == tokens[k]);
            assert(ceiling_of(tokens[k]) == lowest_ceiling(tokens));
        }
    }
}

/// Few and scattered layers are never a ceiling, however low they are.
pub proof fn few_and_scattered_are_not_ceilings(tokens: Seq<Seq<char>>, layer: Seq<char>)
    requires
        layer.take(3) == "FEW"@ || layer.take(3) == "SCT"@,
    ensures
        lowest_ceiling(tokens.push(layer)) == lowest_ceiling(tokens),
{
    reveal_strlit("FEW");
    reveal_strlit("SCT");
    reveal_strlit("BKN");
    reveal_strlit("OVC");
    let cover = layer.take(3);
    assert(cover[0] == "FEW"@[0] || cover[0] == "SCT"@[0]);
    assert(layer.len() >= 3 ==> layer[0] == cover[0]);
    assert(cover[0] != "BKN"@[0] && cover[0] != "OVC"@[0]);
    assert(tokens.push(layer).drop_last() =~= tokens);
}

/// The worse of ceiling and visibility governs, and a report that carries neither has no
/// category: never a guess.
pub proof fn the_worse_limit_governs(
    ceiling_ft: Option<int>,
    clear: bool,
    visibility: Option<Single>,
)
    ensures
        category_of(ceiling_ft, clear, visibility) is None <==> ceiling_ft is None && !clear
            && visibility is None,
        ceiling_ft matches Some(ft) ==> category_of(ceiling_ft, clear, visibility)->0.order()
            >= FlightCategory::of_ceiling(ft).order(),
        visibility matches Some(v) ==> category_of(ceiling_ft, clear, visibility)->0.order()
            >= FlightCategory::of_visibility(v).order(),
{
}

/// A report is rated at least as bad as every word of it before the remarks.
pub proof fn a_report_is_as_bad_as_its_worst_word(tokens: Seq<Seq<char>>)
    ensures
        forall|k: int|
            0 <= k < tokens.len() ==> #[trigger] hazard_of(tokens[k]).order() <= worst_token(
                tokens,
            ).order(),
        worst_token(tokens) != Hazard::Routine ==> exists|k: int|
            0 <= k < tokens.len() && #[trigger] hazard_of(tokens[k]) == worst_token(tokens),
    decreases tokens.len(),
{
    if tokens.len() > 0 {
        let before = tokens.drop_last();
        let n = tokens.len() - 1;
        a_report_is_as_bad_as_its_worst_word(before);
        assert forall|k: int| 0 <= k < tokens.len() implies #[trigger] hazard_of(tokens[k]).order()
            <= worst_token(tokens).order() by {
            if k < n {
                assert(before[k] == tokens[k]);
                assert(hazard_of(before[k]).order() <= worst_token(before).order());
            }
        }
        if worst_token(tokens) != Hazard::Routine {
            if hazard_of(tokens[n]) == worst_token(tokens) {
            } else {
                let k = choose|k: int|
                    0 <= k < before.len() && #[trigger] hazard_of(before[k]) == worst_token(before);
                assert(before[k] == tokens[k]);
                assert(hazard_of(tokens[k]) == worst_token(tokens));
            }
        }
    }
}

/// The ceiling limits: below 500 feet is low IFR, below 1000 is IFR, 1000 to 3000 is marginal VFR with
/// both ends in it, and above that is VFR.
pub proof fn the_ceiling_limits(ft: int)
    ensures
        ft < 500 ==> FlightCategory::of_ceiling(ft) == FlightCategory::Lifr,
        500 <= ft < 1000 ==> FlightCategory::of_ceiling(ft) == FlightCategory::Ifr,
        1000 <= ft <= 3000 ==> FlightCategory::of_ceiling(ft) == FlightCategory::Mvfr,
        3000 < ft ==> FlightCategory::of_ceiling(ft) == FlightCategory::Vfr,
{
}

/// The visibility limits: below a mile is low IFR, below three is IFR, three to five is marginal VFR
/// with both ends in it, and above that is VFR. Said of so many miles, and of so many halves and
/// quarters of one.
pub proof fn the_visibility_limits(count: u32)
    ensures
        ({
            let v = Single::Finite { negative: false, mantissa: count, exponent: 0i32 };
            &&& count < 1 ==> FlightCategory::of_visibility(v) == FlightCategory::Lifr
            &&& 1 <= count < 3 ==> FlightCategory::of_visibility(v) == FlightCategory::Ifr
            &&& 3 <= count <= 5 ==> FlightCategory::of_visibility(v) == FlightCategory::Mvfr
            &&& 5 < count ==> FlightCategory::of_visibility(v) == FlightCategory::Vfr
        }),
        ({
            let v = Single::Finite { negative: false, mantissa: count, exponent: -1i32 };
            &&& count < 2 ==> FlightCategory::of_visibility(v) == FlightCategory::Lifr
            &&& 2 <= count < 6 ==> FlightCategory::of_visibility(v) == FlightCategory::Ifr
            &&& 6 <= count <= 10 ==> FlightCategory::of_visibility(v) == FlightCategory::Mvfr
            &&& 10 < count ==> FlightCategory::of_visibility(v) == FlightCategory::Vfr
        }),
        ({
            let v = Single::Finite { negative: false, mantissa: count, exponent: -2i32 };
            &&& count < 4 ==> FlightCategory::of_visibility(v) == FlightCategory::Lifr
            &&& 4 <= count < 12 ==> FlightCategory::of_visibility(v) == FlightCategory::Ifr
            &&& 12 <= count <= 20 ==> FlightCategory::of_visibility(v) == FlightCategory::Mvfr
            &&& 20 < count ==> FlightCategory::of_visibility(v) == FlightCategory::Vfr
        }),
{
    assert(two_to(0) == 1);
    assert(two_to(1) == 2 * two_to(0));
    assert(two_to(2) == 2 * two_to(1));
    assert(doublings(0) == 1 && doublings(1) == 2 && doublings(2) == 4);
    assert(doublings(-1) == 1 && doublings(-2) == 1);
}

/// A report is in the worse of the categories of its ceiling and its visibility, by the published
/// limits. One that says the sky is clear has a ceiling past every limit, and where only one of the
/// two is known it governs.
pub proof fn the_category_by_its_limits(
    ceiling_ft: Option<int>,
    clear: bool,
    visibility: Option<Single>,
)
    ensures
        ({
            let of = |c: FlightCategory| category_of(ceiling_ft, clear, visibility) == Some(c);
            let under = |ft: int| ceiling_ft is Some && ceiling_ft->0 < ft;
            let short = |miles: nat| visibility is Some && visibility->0.is_below(miles);
            let dim = |miles: nat| visibility is Some && visibility->0.is_up_to(miles);
            let known = ceiling_ft is Some || clear || visibility is Some;
            &&& of(FlightCategory::Lifr) <==> under(500) || short(1)
            &&& of(FlightCategory::Ifr) <==> !under(500) && !short(1) && (under(1000) || short(3))
            &&& of(FlightCategory::Mvfr) <==> !under(1000) && !short(1) && !short(3) && (under(3001)
                || dim(5))
            &&& of(FlightCategory::Vfr) <==> known && !under(3001) && !short(1) && !short(3)
                && !dim(5)
        }),
{
}

/// Low IFR is the worst category and VFR the best, a warning outranks a caution, and the worse of two
/// is one of them and no better than either.
pub proof fn worse_is_worse(a: FlightCategory, b: FlightCategory, c: Hazard, d: Hazard)
    ensures
        a.or_worse(b) == a || a.or_worse(b) == b,
        a.or_worse(b) == b.or_worse(a),
        a.or_worse(FlightCategory::Lifr) == FlightCategory::Lifr,
        a != FlightCategory::Lifr ==> a.or_worse(FlightCategory::Ifr) == FlightCategory::Ifr,
        FlightCategory::Vfr.or_worse(b) == b,
        c.or_worse(d) == c || c.or_worse(d) == d,
        c.or_worse(d) == d.or_worse(c),
        c.or_worse(Hazard::Warning) == Hazard::Warning,
        Hazard::Routine.or_worse(d) == d,
{
}

/// Good weather is shown in the colour of what is well, marginal in that of what is to be watched, and
/// instrument weather in that of what is to be acted on. Instrument weather is a warning, marginal a
/// caution, and a report without a category rates nothing.
pub proof fn categories_are_shown_for_what_they_are(theme: Theme)
    ensures
        FlightCategory::Vfr.tint(theme) == theme.good,
        FlightCategory::Mvfr.tint(theme) == theme.caution,
        FlightCategory::Ifr.tint(theme) == theme.warning,
        FlightCategory::Lifr.tint(theme) == theme.warning,
        FlightCategory::Vfr.name() == "VFR"@,
        FlightCategory::Mvfr.name() == "MVFR"@,
        FlightCategory::Ifr.name() == "IFR"@,
        FlightCategory::Lifr.name() == "LIFR"@,
        category_hazard(Some(FlightCategory::Lifr)) == Hazard::Warning,
        category_hazard(Some(FlightCategory::Ifr)) == Hazard::Warning,
        category_hazard(Some(FlightCategory::Mvfr)) == Hazard::Caution,
        category_hazard(Some(FlightCategory::Vfr)) == Hazard::Routine,
        category_hazard(None) == Hazard::Routine,
{
}

proof fn the_warning_groups(group: Seq<char>)
    ensures
        listed(group, WARNING_GROUPS@) <==> ({
            ||| group == "TS"@
            ||| group == "FZ"@
            ||| group == "FC"@
            ||| group == "SQ"@
            ||| group == "DS"@
            ||| group == "SS"@
            ||| group == "VA"@
            ||| group == "GR"@
            ||| group == "GS"@
            ||| group == "PL"@
            ||| group == "IC"@
        }),
{
    assert(WARNING_GROUPS@[0]@ == "TS"@);
    assert(WARNING_GROUPS@[1]@ == "FZ"@);
    assert(WARNING_GROUPS@[2]@ == "FC"@);
    assert(WARNING_GROUPS@[3]@ == "SQ"@);
    assert(WARNING_GROUPS@[4]@ == "DS"@);
    assert(WARNING_GROUPS@[5]@ == "SS"@);
    assert(WARNING_GROUPS@[6]@ == "VA"@);
    assert(WARNING_GROUPS@[7]@ == "GR"@);
    assert(WARNING_GROUPS@[8]@ == "GS"@);
    assert(WARNING_GROUPS@[9]@ == "PL"@);
    assert(WARNING_GROUPS@[10]@ == "IC"@);
}

proof fn the_caution_groups(group: Seq<char>)
    ensures
        listed(group, CAUTION_GROUPS@) <==> ({
            ||| group == "FG"@
            ||| group == "FU"@
            ||| group == "SA"@
            ||| group == "DU"@
        }),
{
    assert(CAUTION_GROUPS@[0]@ == "FG"@);
    assert(CAUTION_GROUPS@[1]@ == "FU"@);
    assert(CAUTION_GROUPS@[2]@ == "SA"@);
    assert(CAUTION_GROUPS@[3]@ == "DU"@);
}

/// What is a warning, whatever stands with it: thunderstorms, freezing, funnel clouds, squalls, storms
/// of dust and of sand, volcanic ash, hail, small hail, ice pellets and ice crystals. Fog, smoke, sand
/// and dust are a caution, and so is anything heavy. Everything else is routine.
pub proof fn what_is_a_hazard(token: Seq<char>)
    ensures
        ({
            let groups = (weather_of(token)->0).1;
            let warns = exists|k: int| 0 <= k < groups.len() && warning_group(#[trigger] groups[k]);
            let obscures = exists|k: int|
                0 <= k < groups.len() && caution_group(#[trigger] groups[k]);
            let heavy = token.len() > 0 && token[0] == '+';
            &&& hazard_of(token) == Hazard::Warning <==> weather_of(token) is Some && warns
            &&& hazard_of(token) == Hazard::Caution <==> weather_of(token) is Some && !warns && (
            heavy || obscures)
        }),
{
    reveal_strlit("");
    reveal_strlit("-");
    reveal_strlit("+");
    reveal_strlit("VC");
    assert("-"@[0] != "+"@[0] && "VC"@.len() != "+"@.len() && ""@.len() != "+"@.len());
    let groups = (weather_of(token)->0).1;
    assert forall|k: int| 0 <= k < groups.len() implies listed(#[trigger] groups[k], WARNING_GROUPS@)
        == warning_group(groups[k]) && listed(groups[k], CAUTION_GROUPS@) == caution_group(
        groups[k],
    ) by {
        the_warning_groups(groups[k]);
        the_caution_groups(groups[k]);
    }
    if any_listed(groups, WARNING_GROUPS@) {
        let k = choose|k: int| 0 <= k < groups.len() && listed(#[trigger] groups[k], WARNING_GROUPS@);
        assert(warning_group(groups[k]));
    }
    if any_listed(groups, CAUTION_GROUPS@) {
        let k = choose|k: int| 0 <= k < groups.len() && listed(#[trigger] groups[k], CAUTION_GROUPS@);
        assert(caution_group(groups[k]));
    }
}

/// The groups that are a warning wherever they stand.
pub open spec fn warning_group(group: Seq<char>) -> bool {
    ||| group == "TS"@
    ||| group == "FZ"@
    ||| group == "FC"@
    ||| group == "SQ"@
    ||| group == "DS"@
    ||| group == "SS"@
    ||| group == "VA"@
    ||| group == "GR"@
    ||| group == "GS"@
    ||| group == "PL"@
    ||| group == "IC"@
}

/// The groups that cost visibility.
pub open spec fn caution_group(group: Seq<char>) -> bool {
    ||| group == "FG"@
    ||| group == "FU"@
    ||| group == "SA"@
    ||| group == "DU"@
}

/// A layer says its height in hundreds of feet. Broken, overcast and vertical visibility are ceilings,
/// few and scattered are not, and a cloud type behind it changes neither.
pub proof fn layers_say_hundreds_of_feet(height: Seq<char>, kind: Seq<char>)
    requires
        height.len() == 3,
        all_digits(height),
        kind == ""@ || kind == "CB"@ || kind == "TCU"@,
    ensures
        sky_of("FEW"@ + height + kind) == Some((100 * number(height) as int, false)),
        sky_of("SCT"@ + height + kind) == Some((100 * number(height) as int, false)),
        sky_of("BKN"@ + height + kind) == Some((100 * number(height) as int, true)),
        sky_of("OVC"@ + height + kind) == Some((100 * number(height) as int, true)),
        sky_of("VV"@ + height + kind) == Some((100 * number(height) as int, true)),
{
    reveal_strlit("FEW");
    reveal_strlit("SCT");
    reveal_strlit("BKN");
    reveal_strlit("OVC");
    reveal_strlit("VV");
    assert(COVERS@[0]@ == "FEW"@);
    assert(COVERS@[1]@ == "SCT"@);
    assert(COVERS@[2]@ == "BKN"@);
    assert(COVERS@[3]@ == "OVC"@);
    a_layer_reads(0, height, kind);
    a_layer_reads(1, height, kind);
    a_layer_reads(2, height, kind);
    a_layer_reads(3, height, kind);
    let token = "VV"@ + height + kind;
    assert(token.take(2) =~= "VV"@);
    assert(token.subrange(2, 5) =~= height);
    assert(token.skip(5) =~= kind);
    assert("FEW"@[0] != "BKN"@[0] && "FEW"@[0] != "OVC"@[0]);
    assert("SCT"@[0] != "BKN"@[0] && "SCT"@[0] != "OVC"@[0]);
}

proof fn a_layer_reads(k: int, height: Seq<char>, kind: Seq<char>)
    requires
        0 <= k < 4,
        COVERS@[k]@.len() == 3,
        COVERS@[k]@[0] != 'V',
        height.len() == 3,
        all_digits(height),
        kind == ""@ || kind == "CB"@ || kind == "TCU"@,
    ensures
        sky_of(COVERS@[k]@ + height + kind) == Some(
            (
                100 * number(height) as int,
                COVERS@[k]@ == "BKN"@ || COVERS@[k]@ == "OVC"@,
            ),
        ),
{
    let cover = COVERS@[k]@;
    let token = cover + height + kind;
    assert(token[0] == cover[0]);
    assert(token.take(3) =~= cover);
    assert(token.subrange(3, 6) =~= height);
    assert(token.skip(6) =~= kind);
    assert(listed(cover, COVERS@));
}

/// A wind is read as it is written: three digits of direction, then its speed, then after a `G` how
/// much it gusts, all in knots.
pub proof fn winds_are_read_as_written(
    direction: Seq<char>,
    speed: Seq<char>,
    gust: Seq<char>,
)
    requires
        direction.len() == 3,
        2 <= speed.len() <= 3,
        2 <= gust.len() <= 3,
        all_digits(direction),
        all_digits(speed),
        all_digits(gust),
    ensures
        wind_of(direction + speed + "KT"@) == Some(
            Wind {
                direction_deg: number(direction) as u16,
                speed_kt: number(speed) as u16,
                gust_kt: None,
            },
        ),
        wind_of(direction + speed + "G"@ + gust + "KT"@) == Some(
            Wind {
                direction_deg: number(direction) as u16,
                speed_kt: number(speed) as u16,
                gust_kt: Some(number(gust) as u16),
            },
        ),
{
    reveal_strlit("KT");
    reveal_strlit("G");
    let steady = direction + speed;
    assert forall|i: int| 0 <= i < steady.len() implies is_digit(#[trigger] steady[i]) by {
        if i < 3 {
            assert(steady[i] == direction[i]);
        } else {
            assert(steady[i] == speed[i - 3]);
        }
    }
    assert(steady.take(3) =~= direction);
    assert(steady.skip(3) =~= speed);
    let calm = steady + "KT"@;
    assert(calm.take(calm.len() - 2) =~= steady);
    none_before(steady, 'G', 0, steady.len() as int);
    assert(steady.take(steady.len() as int) =~= steady);
    let gusty = steady + "G"@ + gust + "KT"@;
    let body = gusty.take(gusty.len() - 2);
    assert(body =~= steady + "G"@ + gust);
    none_before(body, 'G', 0, steady.len() as int);
    assert(place_of(body, 'G', steady.len() as int) == steady.len());
    assert(body.take(steady.len() as int) =~= steady);
    assert(body.skip(steady.len() as int + 1) =~= gust);
}

/// Looking for a character passes over what is not it.
proof fn none_before(s: Seq<char>, c: char, i: int, j: int)
    requires
        0 <= i <= j <= s.len(),
        forall|k: int| i <= k < j ==> #[trigger] s[k] != c,
    ensures
        place_of(s, c, i) == place_of(s, c, j),
    decreases j - i,
{
    if i < j {
        assert(s[i] != c);
        none_before(s, c, i + 1, j);
    }
}

/// A wind on a card reads back: three digits of direction, the degree sign and a blank, then the speed,
/// and the gusts behind a `G`. Only a wind from nowhere, at no speed and without gusts, is calm.
pub proof fn winds_read_back(wind: Wind)
    requires
        wind.direction_deg < 1000,
        wind.speed_kt < 100,
        wind.gust_kt matches Some(gust) ==> gust < 100,
    ensures
        wind.direction_deg == 0 && wind.speed_kt == 0 && wind.gust_kt is None ==> wind.written()
            == "CALM"@,
        wind.direction_deg > 0 || wind.speed_kt > 0 || wind.gust_kt is Some ==> {
            let text = wind.written();
            &&& number(text.take(3)) == wind.direction_deg
            &&& text[3] == '\u{00B0}'
            &&& text[4] == ' '
            &&& number(text.subrange(5, 7)) == wind.speed_kt
            &&& wind.gust_kt is None ==> text.len() == 7
            &&& wind.gust_kt matches Some(gust) ==> text.len() == 10 && text[7] == 'G' && number(
                text.skip(8),
            ) == gust
        },
{
    reveal_with_fuel(ten_to, 4);
    let text = wind.written();
    padded_reads_back(wind.direction_deg as nat, 3);
    padded_reads_back(wind.speed_kt as nat, 2);
    if wind.direction_deg > 0 || wind.speed_kt > 0 || wind.gust_kt is Some {
        assert(text.take(3) =~= padded(wind.direction_deg as nat, 3));
        assert(text.subrange(5, 7) =~= padded(wind.speed_kt as nat, 2));
        if let Some(gust) = wind.gust_kt {
            padded_reads_back(gust as nat, 2);
            assert(text.skip(8) =~= padded(gust as nat, 2));
        }
    }
}

/// A visibility below or past what is reported reads as the number itself, and a whole number of miles
/// in front of a fraction adds to it.
pub proof fn marks_before_a_visibility_change_nothing(token: Seq<char>, whole: int)
    requires
        token.len() >= 2,
        token[0] != 'M' && token[0] != 'P',
        whole >= 0,
    ensures
        visibility_of("M"@ + token, whole) == visibility_of(token, whole),
        visibility_of("P"@ + token, whole) == visibility_of(token, whole),
        visibility_of(token, whole) is Some <==> visibility_of(token, 0) is Some,
        visibility_of(token, whole) is Some ==> token.skip(token.len() - 2) == "SM"@,
{
    reveal_strlit("M");
    reveal_strlit("P");
    reveal_strlit("SM");
    let n = token.len();
    assert(("M"@ + token).take(n - 1).skip(1) =~= token.take(n - 2));
    assert(("P"@ + token).take(n - 1).skip(1) =~= token.take(n - 2));
    if visibility_of(token, whole) is Some {
        assert(token.skip(n - 2) =~= "SM"@);
    }
}

/// A report that says ceiling and visibility are fine is VFR, with no ceiling and no visibility in it
/// to show. Otherwise what is shown is what the category was made from.
pub proof fn a_summary_is_of_one_report(r: Summary, body: Seq<char>)
    requires
        summarises(r, body),
    ensures
        says_cavok(fields(body)) ==> r.category == Some(FlightCategory::Vfr) && r.ceiling_ft is None
            && r.visibility_sm is None,
        !says_cavok(fields(body)) && r.ceiling_ft is None && r.visibility_sm is None ==> (r.category
            == if says_clear(fields(body)) {
            Some(FlightCategory::Vfr)
        } else {
            None
        }),
        !says_cavok(fields(body)) && r.ceiling_ft is Some ==> r.category is Some && (
        r.ceiling_ft->0 < 500 ==> r.category == Some(FlightCategory::Lifr)) && (r.ceiling_ft->0
            < 1000 ==> r.category->0.order() >= 2) && (r.ceiling_ft->0 <= 3000
            ==> r.category->0.order() >= 1) && (r.ceiling_ft->0 > 3000 && r.visibility_sm is None
            ==> r.category == Some(FlightCategory::Vfr)),
        r.category == report_category(body),
{
}

/// A run of digits reads as the number it is.
pub proof fn digits_read_as_their_number(digits: Seq<char>)
    requires
        1 <= digits.len() <= 9,
        all_digits(digits),
        number(digits) > 0,
    ensures
        numeral_of(digits) == Some(nearest_single(false, number(digits), 1)),
{
    reveal_strlit("inf");
    reveal_strlit("infinity");
    reveal_strlit("nan");
    assert(is_digit(digits[0]));
    assert(unsigned_part(digits) == digits);
    let low = lowered(digits);
    assert(low =~= digits) by {
        assert forall|i: int| 0 <= i < digits.len() implies low[i] == digits[i] by {
            assert(is_digit(digits[i]));
        }
    }
    assert(digits != "inf"@ && digits != "infinity"@ && digits != "nan"@) by {
        assert("inf"@[0] == 'i' && "infinity"@[0] == 'i' && "nan"@[0] == 'n');
    }
    let n = digits.len() as int;
    assert forall|k: int| 0 <= k < n implies #[trigger] digits[k] != 'e' && digits[k] != '.' by {
        assert(is_digit(digits[k]));
    }
    none_before(digits, 'e', 0, n);
    none_before(digits, '.', 0, n);
    let z = noughts(digits, 0);
    noughts_are_counted(digits, 0);
    if z >= n {
        nothing_but_noughts_is_nought(digits);
    }
    assert(significant(digits).len() == n - z);
    assert(ten_to(0) == 1);
    assert(number(digits) * 1 == number(digits));
}

proof fn noughts_are_counted(s: Seq<char>, i: int)
    requires
        0 <= i <= s.len(),
    ensures
        i <= noughts(s, i) <= s.len(),
        forall|k: int| i <= k < noughts(s, i) ==> #[trigger] s[k] == '0',
    decreases s.len() - i,
{
    if i < s.len() && s[i] == '0' {
        noughts_are_counted(s, i + 1);
    }
}

proof fn nothing_but_noughts_is_nought(s: Seq<char>)
    requires
        forall|k: int| 0 <= k < s.len() ==> #[trigger] s[k] == '0',
    ensures
        number(s) == 0,
    decreases s.len(),
{
    if s.len() > 0 {
        let front = s.drop_last();
        assert forall|k: int| 0 <= k < front.len() implies #[trigger] front[k] == '0' by {
            assert(front[k] == s[k]);
        }
        nothing_but_noughts_is_nought(front);
        assert(s.last() == s[s.len() - 1]);
    }
}

/// A visibility in whole miles reads as that many, and a fraction as the one number over the other; whole
/// miles in front of a fraction are added to it.
pub proof fn visibilities_read_as_written(top: Seq<char>, bottom: Seq<char>, whole: nat)
    requires
        1 <= top.len() <= 9,
        1 <= bottom.len() <= 9,
        all_digits(top),
        all_digits(bottom),
        number(top) > 0,
        number(bottom) > 0,
    ensures
        visibility_of(top + "SM"@, 0) == Some(nearest_single(false, number(top), 1).plus(0)),
        visibility_of(top + "/"@ + bottom + "SM"@, whole as int) == Some(
            nearest_single(false, number(top), 1).divided_by(
                nearest_single(false, number(bottom), 1),
            ).plus(whole),
        ),
{
    reveal_strlit("SM");
    reveal_strlit("/");
    digits_read_as_their_number(top);
    digits_read_as_their_number(bottom);
    assert(is_digit(top[0]));
    let plain = top + "SM"@;
    assert(plain.take(plain.len() - 2) =~= top);
    let n = top.len() as int;
    assert forall|k: int| 0 <= k < n implies #[trigger] top[k] != '/' by {
        assert(is_digit(top[k]));
    }
    none_before(top, '/', 0, n);
    let token = top + "/"@ + bottom + "SM"@;
    let body = token.take(token.len() - 2);
    assert(body =~= top + "/"@ + bottom);
    assert forall|k: int| 0 <= k < n implies #[trigger] body[k] != '/' by {
        assert(body[k] == top[k]);
    }
    none_before(body, '/', 0, n);
    assert(place_of(body, '/', n) == n);
    assert(body.take(n) =~= top);
    assert(body.skip(n + 1) =~= bottom);
}

/// Whole miles stand as a number of one or two digits of its own, in front of a fraction and nowhere else.
pub proof fn whole_miles_stand_before_a_fraction(tokens: Seq<Seq<char>>, i: int)
    requires
        0 <= i < tokens.len(),
    ensures
        i > 0 && tokens[i - 1].len() <= 2 && all_digits(tokens[i - 1]) && tokens[i].contains('/')
            ==> whole_before(tokens, i) == number(tokens[i - 1]),
        i == 0 || tokens[i - 1].len() > 2 || !all_digits(tokens[i - 1]) || !tokens[i].contains('/')
            ==> whole_before(tokens, i) == 0,
{
    let s = tokens[i];
    crate::text::place_bounds(s, '/', 0);
    if s.contains('/') && place_of(s, '/', 0) >= s.len() {
        let k = choose|k: int| 0 <= k < s.len() && s[k] == '/';
        a_character_is_found(s, '/', 0, k);
    }
}

proof fn a_character_is_found(s: Seq<char>, c: char, i: int, k: int)
    requires
        0 <= i <= k < s.len(),
        s[k] == c,
    ensures
        place_of(s, c, i) <= k,
    decreases k - i,
{
    if i < k && s[i] != c {
        a_character_is_found(s, c, i + 1, k);
    }
}

/// The first wind and the first visibility of a report are the ones that count.
pub proof fn the_first_of_each_counts(tokens: Seq<Seq<char>>, i: int, k: int)
    requires
        0 <= i <= k < tokens.len(),
    ensures
        wind_of(tokens[k]) is Some && (forall|j: int| i <= j < k ==> wind_of(#[trigger] tokens[j])
            is None) ==> first_wind(tokens, i) == wind_of(tokens[k]),
        visibility_of(tokens[k], whole_before(tokens, k)) is Some && (forall|j: int|
            i <= j < k ==> visibility_of(#[trigger] tokens[j], whole_before(tokens, j)) is None)
            ==> first_visibility(tokens, i) == visibility_of(tokens[k], whole_before(tokens, k)),
    decreases k - i,
{
    if i < k {
        the_first_of_each_counts(tokens, i + 1, k);
        assert(tokens[i] == tokens[i]);
    }
}

/// The words that say the sky is clear.
pub proof fn words_that_say_clear(tokens: Seq<Seq<char>>, k: int)
    requires
        0 <= k < tokens.len(),
    ensures
        tokens[k] == "CLR"@ || tokens[k] == "SKC"@ || tokens[k] == "NSC"@ || tokens[k] == "NCD"@
            ==> says_clear(tokens),
        tokens[k] == "CAVOK"@ ==> says_cavok(tokens),
        says_clear(tokens) ==> exists|j: int|
            0 <= j < tokens.len() && (#[trigger] tokens[j] == "CLR"@ || tokens[j] == "SKC"@
                || tokens[j] == "NSC"@ || tokens[j] == "NCD"@),
{
    assert(CLEAR_WORDS@[0]@ == "CLR"@ && CLEAR_WORDS@[1]@ == "SKC"@ && CLEAR_WORDS@[2]@ == "NSC"@
        && CLEAR_WORDS@[3]@ == "NCD"@);
    if tokens[k] == "CLR"@ || tokens[k] == "SKC"@ || tokens[k] == "NSC"@ || tokens[k] == "NCD"@ {
        assert(listed(tokens[k], CLEAR_WORDS@));
    }
    if says_clear(tokens) {
        let j = choose|j: int|
            0 <= j < tokens.len() && listed(#[trigger] tokens[j], CLEAR_WORDS@);
        let n = choose|n: int|
            0 <= n < CLEAR_WORDS@.len() && (#[trigger] CLEAR_WORDS@[n])@ == tokens[j];
        assert(n == 0 || n == 1 || n == 2 || n == 3);
        assert(tokens[j] == "CLR"@ || tokens[j] == "SKC"@ || tokens[j] == "NSC"@ || tokens[j]
            == "NCD"@);
    }
}

} // verus!
