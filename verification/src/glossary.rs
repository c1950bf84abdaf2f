//! METAR/TAF abbreviations, and how to find the ones in a report.
//!
//! Transcribed from the NWS/FAA *METAR/TAF List of Abbreviations and Acronyms*.
//!
//! # What this is, and what it is not
//!
//! The source is an **alphabetical glossary**, not a grammar. It can say that `BKN` means broken;
//! it cannot say that `BKN008` is a ceiling at 800 feet, because it carries no field order and no
//! syntax. So this module expands vocabulary and nothing more: it never claims to have understood
//! a report. [`explain`] returns the codes it recognises and stays silent about everything else.
//!
//! Purely organisational entries of the source list are left out. None can appear in a report
//! body, so including them would only add ways to match something that is not there.

use vstd::prelude::*;
use vstd::slice::slice_subrange;

use crate::metar::{parse_weather, qualifier_of, weather_of, GROUPS};
use crate::text::{
    all_digits, before, before_at, before_is_strict, before_is_transitive, chars_of, digits_only,
    is_space, listed, order_of, same, split_words, texts, white_space_parts_words, words, TextOrder,
};

verus! {

/// How many abbreviations the table holds.
pub const ENTRY_COUNT: usize = 137;

/// Abbreviation to meaning, sorted by code so lookup can binary-search.
pub const ENTRIES: [(&'static str, &'static str); ENTRY_COUNT] = [
    ("$", "maintenance check indicator"),
    ("+", "heavy intensity"),
    ("-", "light intensity"),
    ("/", "visual range follows; also separates temperature and dew point"),
    ("ACC", "altocumulus castellanus"),
    ("ACFT", "aircraft"),
    ("ACSL", "altocumulus standing lenticular cloud"),
    ("ALP", "airport location point"),
    ("AO1", "automated station without precipitation discriminator"),
    ("AO2", "automated station with precipitation discriminator"),
    ("APCH", "approach"),
    ("APRNT", "apparent"),
    ("APRX", "approximately"),
    ("ATCT", "airport traffic control tower"),
    ("AUTO", "fully automated report"),
    ("B", "began"),
    ("BC", "patches"),
    ("BKN", "broken"),
    ("BL", "blowing"),
    ("BR", "mist"),
    ("C", "center (runway designation)"),
    ("CA", "cloud-air lightning"),
    ("CB", "cumulonimbus cloud"),
    ("CBMAM", "cumulonimbus mammatus cloud"),
    ("CC", "cloud-cloud lightning"),
    ("CCSL", "cirrocumulus standing lenticular cloud"),
    ("CG", "cloud-ground lightning"),
    ("CHI", "cloud-height indicator"),
    ("CHINO", "sky condition at secondary location not available"),
    ("CIG", "ceiling"),
    ("CLR", "clear"),
    ("CONS", "continuous"),
    ("COR", "correction to a previously disseminated observation"),
    ("DR", "low drifting"),
    ("DS", "duststorm"),
    ("DSIPTG", "dissipating"),
    ("DSNT", "distant"),
    ("DU", "widespread dust"),
    ("DVR", "dispatch visual range"),
    ("DZ", "drizzle"),
    ("E", "east, ended, estimated ceiling"),
    ("FC", "funnel cloud"),
    ("FEW", "few clouds"),
    ("FG", "fog"),
    ("FIBI", "filed but impracticable to transmit"),
    ("FIRST", "first observation after a break in coverage"),
    ("FROPA", "frontal passage"),
    ("FRQ", "frequent"),
    ("FT", "feet"),
    ("FU", "smoke"),
    ("FZ", "freezing"),
    ("FZRANO", "freezing rain sensor not available"),
    ("G", "gust"),
    ("GR", "hail"),
    ("GS", "small hail and/or snow pellets"),
    ("HLSTO", "hailstone"),
    ("HZ", "haze"),
    ("IC", "ice crystals, in-cloud lightning"),
    ("INCRG", "increasing"),
    ("INTMT", "intermittent"),
    ("KT", "knots"),
    ("L", "left (runway designation)"),
    ("LAST", "last observation before a break in coverage"),
    ("LST", "Local Standard Time"),
    ("LTG", "lightning"),
    ("LWR", "lower"),
    ("M", "minus, less than"),
    ("METAR", "routine weather report at fixed intervals"),
    ("MI", "shallow"),
    ("MOV", "moved/moving/movement"),
    ("MT", "mountains"),
    ("N", "north"),
    ("NE", "northeast"),
    ("NOSPECI", "no SPECI reports are taken at the station"),
    ("NOTAM", "Notice to Airmen"),
    ("NW", "northwest"),
    ("OCNL", "occasional"),
    ("OHD", "overhead"),
    ("OVC", "overcast"),
    ("OVR", "over"),
    ("P", "greater than the highest reportable value"),
    ("PCPN", "precipitation"),
    ("PL", "ice pellets"),
    ("PNO", "precipitation amount not available"),
    ("PO", "dust/sand whirls (dust devils)"),
    ("PR", "partial"),
    ("PRES", "pressure"),
    ("PRESFR", "pressure falling rapidly"),
    ("PRESRR", "pressure rising rapidly"),
    ("PWINO", "precipitation identifier sensor not available"),
    ("PY", "spray"),
    ("R", "right (runway designation), runway"),
    ("RA", "rain"),
    ("RTD", "routine delayed (late) observation"),
    ("RV", "reportable value"),
    ("RVR", "runway visual range"),
    ("RVRNO", "RVR system values not available"),
    ("RY", "runway"),
    ("S", "snow, south"),
    ("SA", "sand"),
    ("SCSL", "stratocumulus standing lenticular cloud"),
    ("SCT", "scattered"),
    ("SE", "southeast"),
    ("SFC", "surface"),
    ("SG", "snow grains"),
    ("SH", "shower(s)"),
    ("SKC", "sky clear"),
    ("SLP", "sea-level pressure"),
    ("SLPNO", "sea-level pressure not available"),
    ("SM", "statute miles"),
    ("SN", "snow"),
    ("SNINCR", "snow increasing rapidly"),
    ("SP", "snow pellets"),
    ("SPECI", "unscheduled report taken when criteria are met"),
    ("SQ", "squalls"),
    ("SS", "sandstorm"),
    ("STN", "station"),
    ("SW", "snow shower, southwest"),
    ("TCU", "towering cumulus"),
    ("TS", "thunderstorm"),
    ("TSNO", "thunderstorm information not available"),
    ("TWR", "tower"),
    ("UNKN", "unknown"),
    ("UP", "unknown precipitation"),
    ("UTC", "Coordinated Universal Time"),
    ("V", "variable"),
    ("VA", "volcanic ash"),
    ("VC", "in the vicinity"),
    ("VIS", "visibility"),
    ("VISNO", "visibility at secondary location not available"),
    ("VR", "visual range"),
    ("VRB", "variable"),
    ("VV", "vertical visibility"),
    ("W", "west"),
    ("WND", "wind"),
    ("WSHFT", "wind shift"),
    ("Z", "zulu (Coordinated Universal Time)"),
];

// --- order ---------------------------------------------------------------------------------

/// The code of an entry.
pub open spec fn code(i: int) -> Seq<char> {
    ENTRIES[i].0@
}

/// The meaning of an entry.
pub open spec fn meaning(i: int) -> Seq<char> {
    ENTRIES[i].1@
}

/// Whether every code from `from` to `to` sorts before the one after it.
spec fn neighbours_sorted(from: int, to: int) -> bool {
    forall|i: int| from <= i < to ==> before(#[trigger] code(i), code(i + 1))
}

proof fn sorted_from_symbols()
    ensures
        neighbours_sorted(0, 14),
{
    reveal_strlit("$");
    reveal_strlit("+");
    reveal_strlit("-");
    reveal_strlit("/");
    reveal_strlit("ACC");
    reveal_strlit("ACFT");
    reveal_strlit("ACSL");
    reveal_strlit("ALP");
    reveal_strlit("AO1");
    reveal_strlit("AO2");
    reveal_strlit("APCH");
    reveal_strlit("APRNT");
    reveal_strlit("APRX");
    reveal_strlit("ATCT");
    reveal_strlit("AUTO");
    assert(before_at(code(0), code(1), 0));
    assert(before_at(code(1), code(2), 0));
    assert(before_at(code(2), code(3), 0));
    assert(before_at(code(3), code(4), 0));
    assert(before_at(code(4), code(5), 2));
    assert(before_at(code(5), code(6), 2));
    assert(before_at(code(6), code(7), 1));
    assert(before_at(code(7), code(8), 1));
    assert(before_at(code(8), code(9), 2));
    assert(before_at(code(9), code(10), 1));
    assert(before_at(code(10), code(11), 2));
    assert(before_at(code(11), code(12), 3));
    assert(before_at(code(12), code(13), 1));
    assert(before_at(code(13), code(14), 1));
    assert forall|i: int| 0 <= i < 14 implies before(#[trigger] code(i), code(i + 1)) by {
        assert(before(code(0), code(1)));
        assert(before(code(1), code(2)));
        assert(before(code(2), code(3)));
        assert(before(code(3), code(4)));
        assert(before(code(4), code(5)));
        assert(before(code(5), code(6)));
        assert(before(code(6), code(7)));
        assert(before(code(7), code(8)));
        assert(before(code(8), code(9)));
        assert(before(code(9), code(10)));
        assert(before(code(10), code(11)));
        assert(before(code(11), code(12)));
        assert(before(code(12), code(13)));
        assert(before(code(13), code(14)));
    }
}

proof fn sorted_from_auto()
    ensures
        neighbours_sorted(14, 28),
{
    reveal_strlit("AUTO");
    reveal_strlit("B");
    reveal_strlit("BC");
    reveal_strlit("BKN");
    reveal_strlit("BL");
    reveal_strlit("BR");
    reveal_strlit("C");
    reveal_strlit("CA");
    reveal_strlit("CB");
    reveal_strlit("CBMAM");
    reveal_strlit("CC");
    reveal_strlit("CCSL");
    reveal_strlit("CG");
    reveal_strlit("CHI");
    reveal_strlit("CHINO");
    assert(before_at(code(14), code(15), 0));
    assert(before_at(code(15), code(16), 1));
    assert(before_at(code(16), code(17), 1));
    assert(before_at(code(17), code(18), 1));
    assert(before_at(code(18), code(19), 1));
    assert(before_at(code(19), code(20), 0));
    assert(before_at(code(20), code(21), 1));
    assert(before_at(code(21), code(22), 1));
    assert(before_at(code(22), code(23), 2));
    assert(before_at(code(23), code(24), 1));
    assert(before_at(code(24), code(25), 2));
    assert(before_at(code(25), code(26), 1));
    assert(before_at(code(26), code(27), 1));
    assert(before_at(code(27), code(28), 3));
    assert forall|i: int| 14 <= i < 28 implies before(#[trigger] code(i), code(i + 1)) by {
        assert(before(code(14), code(15)));
        assert(before(code(15), code(16)));
        assert(before(code(16), code(17)));
        assert(before(code(17), code(18)));
        assert(before(code(18), code(19)));
        assert(before(code(19), code(20)));
        assert(before(code(20), code(21)));
        assert(before(code(21), code(22)));
        assert(before(code(22), code(23)));
        assert(before(code(23), code(24)));
        assert(before(code(24), code(25)));
        assert(before(code(25), code(26)));
        assert(before(code(26), code(27)));
        assert(before(code(27), code(28)));
    }
}

proof fn sorted_from_chino()
    ensures
        neighbours_sorted(28, 42),
{
    reveal_strlit("CHINO");
    reveal_strlit("CIG");
    reveal_strlit("CLR");
    reveal_strlit("CONS");
    reveal_strlit("COR");
    reveal_strlit("DR");
    reveal_strlit("DS");
    reveal_strlit("DSIPTG");
    reveal_strlit("DSNT");
    reveal_strlit("DU");
    reveal_strlit("DVR");
    reveal_strlit("DZ");
    reveal_strlit("E");
    reveal_strlit("FC");
    reveal_strlit("FEW");
    assert(before_at(code(28), code(29), 1));
    assert(before_at(code(29), code(30), 1));
    assert(before_at(code(30), code(31), 1));
    assert(before_at(code(31), code(32), 2));
    assert(before_at(code(32), code(33), 0));
    assert(before_at(code(33), code(34), 1));
    assert(before_at(code(34), code(35), 2));
    assert(before_at(code(35), code(36), 2));
    assert(before_at(code(36), code(37), 1));
    assert(before_at(code(37), code(38), 1));
    assert(before_at(code(38), code(39), 1));
    assert(before_at(code(39), code(40), 0));
    assert(before_at(code(40), code(41), 0));
    assert(before_at(code(41), code(42), 1));
    assert forall|i: int| 28 <= i < 42 implies before(#[trigger] code(i), code(i + 1)) by {
        assert(before(code(28), code(29)));
        assert(before(code(29), code(30)));
        assert(before(code(30), code(31)));
        assert(before(code(31), code(32)));
        assert(before(code(32), code(33)));
        assert(before(code(33), code(34)));
        assert(before(code(34), code(35)));
        assert(before(code(35), code(36)));
        assert(before(code(36), code(37)));
        assert(before(code(37), code(38)));
        assert(before(code(38), code(39)));
        assert(before(code(39), code(40)));
        assert(before(code(40), code(41)));
        assert(before(code(41), code(42)));
    }
}

proof fn sorted_from_few()
    ensures
        neighbours_sorted(42, 56),
{
    reveal_strlit("FEW");
    reveal_strlit("FG");
    reveal_strlit("FIBI");
    reveal_strlit("FIRST");
    reveal_strlit("FROPA");
    reveal_strlit("FRQ");
    reveal_strlit("FT");
    reveal_strlit("FU");
    reveal_strlit("FZ");
    reveal_strlit("FZRANO");
    reveal_strlit("G");
    reveal_strlit("GR");
    reveal_strlit("GS");
    reveal_strlit("HLSTO");
    reveal_strlit("HZ");
    assert(before_at(code(42), code(43), 1));
    assert(before_at(code(43), code(44), 1));
    assert(before_at(code(44), code(45), 2));
    assert(before_at(code(45), code(46), 1));
    assert(before_at(code(46), code(47), 2));
    assert(before_at(code(47), code(48), 1));
    assert(before_at(code(48), code(49), 1));
    assert(before_at(code(49), code(50), 1));
    assert(before_at(code(50), code(51), 2));
    assert(before_at(code(51), code(52), 0));
    assert(before_at(code(52), code(53), 1));
    assert(before_at(code(53), code(54), 1));
    assert(before_at(code(54), code(55), 0));
    assert(before_at(code(55), code(56), 1));
    assert forall|i: int| 42 <= i < 56 implies before(#[trigger] code(i), code(i + 1)) by {
        assert(before(code(42), code(43)));
        assert(before(code(43), code(44)));
        assert(before(code(44), code(45)));
        assert(before(code(45), code(46)));
        assert(before(code(46), code(47)));
        assert(before(code(47), code(48)));
        assert(before(code(48), code(49)));
        assert(before(code(49), code(50)));
        assert(before(code(50), code(51)));
        assert(before(code(51), code(52)));
        assert(before(code(52), code(53)));
        assert(before(code(53), code(54)));
        assert(before(code(54), code(55)));
        assert(before(code(55), code(56)));
    }
}

proof fn sorted_from_hz()
    ensures
        neighbours_sorted(56, 70),
{
    reveal_strlit("HZ");
    reveal_strlit("IC");
    reveal_strlit("INCRG");
    reveal_strlit("INTMT");
    reveal_strlit("KT");
    reveal_strlit("L");
    reveal_strlit("LAST");
    reveal_strlit("LST");
    reveal_strlit("LTG");
    reveal_strlit("LWR");
    reveal_strlit("M");
    reveal_strlit("METAR");
    reveal_strlit("MI");
    reveal_strlit("MOV");
    reveal_strlit("MT");
    assert(before_at(code(56), code(57), 0));
    assert(before_at(code(57), code(58), 1));
    assert(before_at(code(58), code(59), 2));
    assert(before_at(code(59), code(60), 0));
    assert(before_at(code(60), code(61), 0));
    assert(before_at(code(61), code(62), 1));
    assert(before_at(code(62), code(63), 1));
    assert(before_at(code(63), code(64), 1));
    assert(before_at(code(64), code(65), 1));
    assert(before_at(code(65), code(66), 0));
    assert(before_at(code(66), code(67), 1));
    assert(before_at(code(67), code(68), 1));
    assert(before_at(code(68), code(69), 1));
    assert(before_at(code(69), code(70), 1));
    assert forall|i: int| 56 <= i < 70 implies before(#[trigger] code(i), code(i + 1)) by {
        assert(before(code(56), code(57)));
        assert(before(code(57), code(58)));
        assert(before(code(58), code(59)));
        assert(before(code(59), code(60)));
        assert(before(code(60), code(61)));
        assert(before(code(61), code(62)));
        assert(before(code(62), code(63)));
        assert(before(code(63), code(64)));
        assert(before(code(64), code(65)));
        assert(before(code(65), code(66)));
        assert(before(code(66), code(67)));
        assert(before(code(67), code(68)));
        assert(before(code(68), code(69)));
        assert(before(code(69), code(70)));
    }
}

proof fn sorted_from_mt()
    ensures
        neighbours_sorted(70, 84),
{
    reveal_strlit("MT");
    reveal_strlit("N");
    reveal_strlit("NE");
    reveal_strlit("NOSPECI");
    reveal_strlit("NOTAM");
    reveal_strlit("NW");
    reveal_strlit("OCNL");
    reveal_strlit("OHD");
    reveal_strlit("OVC");
    reveal_strlit("OVR");
    reveal_strlit("P");
    reveal_strlit("PCPN");
    reveal_strlit("PL");
    reveal_strlit("PNO");
    reveal_strlit("PO");
    assert(before_at(code(70), code(71), 0));
    assert(before_at(code(71), code(72), 1));
    assert(before_at(code(72), code(73), 1));
    assert(before_at(code(73), code(74), 2));
    assert(before_at(code(74), code(75), 1));
    assert(before_at(code(75), code(76), 0));
    assert(before_at(code(76), code(77), 1));
    assert(before_at(code(77), code(78), 1));
    assert(before_at(code(78), code(79), 2));
    assert(before_at(code(79), code(80), 0));
    assert(before_at(code(80), code(81), 1));
    assert(before_at(code(81), code(82), 1));
    assert(before_at(code(82), code(83), 1));
    assert(before_at(code(83), code(84), 1));
    assert forall|i: int| 70 <= i < 84 implies before(#[trigger] code(i), code(i + 1)) by {
        assert(before(code(70), code(71)));
        assert(before(code(71), code(72)));
        assert(before(code(72), code(73)));
        assert(before(code(73), code(74)));
        assert(before(code(74), code(75)));
        assert(before(code(75), code(76)));
        assert(before(code(76), code(77)));
        assert(before(code(77), code(78)));
        assert(before(code(78), code(79)));
        assert(before(code(79), code(80)));
        assert(before(code(80), code(81)));
        assert(before(code(81), code(82)));
        assert(before(code(82), code(83)));
        assert(before(code(83), code(84)));
    }
}

proof fn sorted_from_po()
    ensures
        neighbours_sorted(84, 98),
{
    reveal_strlit("PO");
    reveal_strlit("PR");
    reveal_strlit("PRES");
    reveal_strlit("PRESFR");
    reveal_strlit("PRESRR");
    reveal_strlit("PWINO");
    reveal_strlit("PY");
    reveal_strlit("R");
    reveal_strlit("RA");
    reveal_strlit("RTD");
    reveal_strlit("RV");
    reveal_strlit("RVR");
    reveal_strlit("RVRNO");
    reveal_strlit("RY");
    reveal_strlit("S");
    assert(before_at(code(84), code(85), 1));
    assert(before_at(code(85), code(86), 2));
    assert(before_at(code(86), code(87), 4));
    assert(before_at(code(87), code(88), 4));
    assert(before_at(code(88), code(89), 1));
    assert(before_at(code(89), code(90), 1));
    assert(before_at(code(90), code(91), 0));
    assert(before_at(code(91), code(92), 1));
    assert(before_at(code(92), code(93), 1));
    assert(before_at(code(93), code(94), 1));
    assert(before_at(code(94), code(95), 2));
    assert(before_at(code(95), code(96), 3));
    assert(before_at(code(96), code(97), 1));
    assert(before_at(code(97), code(98), 0));
    assert forall|i: int| 84 <= i < 98 implies before(#[trigger] code(i), code(i + 1)) by {
        assert(before(code(84), code(85)));
        assert(before(code(85), code(86)));
        assert(before(code(86), code(87)));
        assert(before(code(87), code(88)));
        assert(before(code(88), code(89)));
        assert(before(code(89), code(90)));
        assert(before(code(90), code(91)));
        assert(before(code(91), code(92)));
        assert(before(code(92), code(93)));
        assert(before(code(93), code(94)));
        assert(before(code(94), code(95)));
        assert(before(code(95), code(96)));
        assert(before(code(96), code(97)));
        assert(before(code(97), code(98)));
    }
}

proof fn sorted_from_s()
    ensures
        neighbours_sorted(98, 112),
{
    reveal_strlit("S");
    reveal_strlit("SA");
    reveal_strlit("SCSL");
    reveal_strlit("SCT");
    reveal_strlit("SE");
    reveal_strlit("SFC");
    reveal_strlit("SG");
    reveal_strlit("SH");
    reveal_strlit("SKC");
    reveal_strlit("SLP");
    reveal_strlit("SLPNO");
    reveal_strlit("SM");
    reveal_strlit("SN");
    reveal_strlit("SNINCR");
    reveal_strlit("SP");
    assert(before_at(code(98), code(99), 1));
    assert(before_at(code(99), code(100), 1));
    assert(before_at(code(100), code(101), 2));
    assert(before_at(code(101), code(102), 1));
    assert(before_at(code(102), code(103), 1));
    assert(before_at(code(103), code(104), 1));
    assert(before_at(code(104), code(105), 1));
    assert(before_at(code(105), code(106), 1));
    assert(before_at(code(106), code(107), 1));
    assert(before_at(code(107), code(108), 3));
    assert(before_at(code(108), code(109), 1));
    assert(before_at(code(109), code(110), 1));
    assert(before_at(code(110), code(111), 2));
    assert(before_at(code(111), code(112), 1));
    assert forall|i: int| 98 <= i < 112 implies before(#[trigger] code(i), code(i + 1)) by {
        assert(before(code(98), code(99)));
        assert(before(code(99), code(100)));
        assert(before(code(100), code(101)));
        assert(before(code(101), code(102)));
        assert(before(code(102), code(103)));
        assert(before(code(103), code(104)));
        assert(before(code(104), code(105)));
        assert(before(code(105), code(106)));
        assert(before(code(106), code(107)));
        assert(before(code(107), code(108)));
        assert(before(code(108), code(109)));
        assert(before(code(109), code(110)));
        assert(before(code(110), code(111)));
        assert(before(code(111), code(112)));
    }
}

proof fn sorted_from_sp()
    ensures
        neighbours_sorted(112, 126),
{
    reveal_strlit("SP");
    reveal_strlit("SPECI");
    reveal_strlit("SQ");
    reveal_strlit("SS");
    reveal_strlit("STN");
    reveal_strlit("SW");
    reveal_strlit("TCU");
    reveal_strlit("TS");
    reveal_strlit("TSNO");
    reveal_strlit("TWR");
    reveal_strlit("UNKN");
    reveal_strlit("UP");
    reveal_strlit("UTC");
    reveal_strlit("V");
    reveal_strlit("VA");
    assert(before_at(code(112), code(113), 2));
    assert(before_at(code(113), code(114), 1));
    assert(before_at(code(114), code(115), 1));
    assert(before_at(code(115), code(116), 1));
    assert(before_at(code(116), code(117), 1));
    assert(before_at(code(117), code(118), 0));
    assert(before_at(code(118), code(119), 1));
    assert(before_at(code(119), code(120), 2));
    assert(before_at(code(120), code(121), 1));
    assert(before_at(code(121), code(122), 0));
    assert(before_at(code(122), code(123), 1));
    assert(before_at(code(123), code(124), 1));
    assert(before_at(code(124), code(125), 0));
    assert(before_at(code(125), code(126), 1));
    assert forall|i: int| 112 <= i < 126 implies before(#[trigger] code(i), code(i + 1)) by {
        assert(before(code(112), code(113)));
        assert(before(code(113), code(114)));
        assert(before(code(114), code(115)));
        assert(before(code(115), code(116)));
        assert(before(code(116), code(117)));
        assert(before(code(117), code(118)));
        assert(before(code(118), code(119)));
        assert(before(code(119), code(120)));
        assert(before(code(120), code(121)));
        assert(before(code(121), code(122)));
        assert(before(code(122), code(123)));
        assert(before(code(123), code(124)));
        assert(before(code(124), code(125)));
        assert(before(code(125), code(126)));
    }
}

proof fn sorted_from_va()
    ensures
        neighbours_sorted(126, 136),
{
    reveal_strlit("VA");
    reveal_strlit("VC");
    reveal_strlit("VIS");
    reveal_strlit("VISNO");
    reveal_strlit("VR");
    reveal_strlit("VRB");
    reveal_strlit("VV");
    reveal_strlit("W");
    reveal_strlit("WND");
    reveal_strlit("WSHFT");
    reveal_strlit("Z");
    assert(before_at(code(126), code(127), 1));
    assert(before_at(code(127), code(128), 1));
    assert(before_at(code(128), code(129), 3));
    assert(before_at(code(129), code(130), 1));
    assert(before_at(code(130), code(131), 2));
    assert(before_at(code(131), code(132), 1));
    assert(before_at(code(132), code(133), 0));
    assert(before_at(code(133), code(134), 1));
    assert(before_at(code(134), code(135), 1));
    assert(before_at(code(135), code(136), 0));
    assert forall|i: int| 126 <= i < 136 implies before(#[trigger] code(i), code(i + 1)) by {
        assert(before(code(126), code(127)));
        assert(before(code(127), code(128)));
        assert(before(code(128), code(129)));
        assert(before(code(129), code(130)));
        assert(before(code(130), code(131)));
        assert(before(code(131), code(132)));
        assert(before(code(132), code(133)));
        assert(before(code(133), code(134)));
        assert(before(code(134), code(135)));
        assert(before(code(135), code(136)));
    }
}

proof fn neighbours_are_sorted()
    ensures
        neighbours_sorted(0, 136),
{
    sorted_from_symbols();
    sorted_from_auto();
    sorted_from_chino();
    sorted_from_few();
    sorted_from_hz();
    sorted_from_mt();
    sorted_from_po();
    sorted_from_s();
    sorted_from_sp();
    sorted_from_va();
}

/// The table is sorted: every code comes before all the codes after it. An entry out of order
/// would make its own code unfindable, and nothing else would fail.
pub proof fn the_table_is_sorted(i: int, j: int)
    requires
        0 <= i < j < ENTRY_COUNT,
    ensures
        before(code(i), code(j)),
    decreases j - i,
{
    neighbours_are_sorted();
    if i + 1 < j {
        the_table_is_sorted(i, j - 1);
        assert(before(code(j - 1), code(j - 1 + 1)));
        before_is_transitive(code(i), code(j - 1), code(j));
    } else {
        assert(before(code(i), code(i + 1)));
    }
}

// --- looking codes up ----------------------------------------------------------------------

/// Whether the table holds a code.
pub open spec fn known(word: Seq<char>) -> bool {
    exists|i: int| 0 <= i < ENTRY_COUNT && #[trigger] code(i) == word
}

/// Where the table holds a code.
pub open spec fn place(word: Seq<char>) -> int {
    choose|i: int| 0 <= i < ENTRY_COUNT && #[trigger] code(i) == word
}

/// What an abbreviation means, if the table holds it.
pub open spec fn meaning_of(word: Seq<char>) -> Option<Seq<char>> {
    if known(word) {
        Some(meaning(place(word)))
    } else {
        None
    }
}

/// Every entry is found under its own code, with its own meaning.
pub proof fn every_entry_is_found(i: int)
    requires
        0 <= i < ENTRY_COUNT,
    ensures
        known(code(i)),
        place(code(i)) == i,
        meaning_of(code(i)) == Some(meaning(i)),
{
    let j = place(code(i));
    assert(known(code(i)));
    assert(0 <= j < ENTRY_COUNT && code(j) == code(i));
    if j < i {
        the_table_is_sorted(j, i);
        before_is_strict(code(j), code(i));
    } else if i < j {
        the_table_is_sorted(i, j);
        before_is_strict(code(i), code(j));
    }
}

/// Where in the table a code stands, by binary search.
fn find_entry(word: &str) -> (r: Option<usize>)
    ensures
        match r {
            Some(i) => i < ENTRY_COUNT && code(i as int) == word@ && place(word@) == i,
            None => !known(word@),
        },
{
    let mut low: usize = 0;
    let mut high: usize = ENTRY_COUNT;
    while low < high
        invariant
            low <= high <= ENTRY_COUNT,
            forall|i: int| 0 <= i < low ==> #[trigger] code(i) != word@,
            forall|i: int| high <= i < ENTRY_COUNT ==> #[trigger] code(i) != word@,
        decreases high - low,
    {
        let middle: usize = low + (high - low) / 2;
        let entry: (&'static str, &'static str) = ENTRIES[middle];
        assert(entry.0@ == code(middle as int));
        match order_of(entry.0, word) {
            TextOrder::Same => {
                proof {
                    every_entry_is_found(middle as int);
                }
                return Some(middle);
            },
            TextOrder::Before => {
                assert forall|i: int| 0 <= i < middle + 1 implies #[trigger] code(i) != word@ by {
                    if i == middle {
                        before_is_strict(code(i), word@);
                    } else {
                        the_table_is_sorted(i, middle as int);
                        before_is_transitive(code(i), code(middle as int), word@);
                        before_is_strict(code(i), word@);
                    }
                }
                low = middle + 1;
            },
            TextOrder::After => {
                assert forall|i: int| middle <= i < ENTRY_COUNT implies #[trigger] code(i)
                    != word@ by {
                    if i == middle {
                        before_is_strict(word@, code(i));
                    } else {
                        the_table_is_sorted(middle as int, i);
                        before_is_transitive(word@, code(middle as int), code(i));
                        before_is_strict(word@, code(i));
                    }
                }
                high = middle;
            },
        }
    }
    None
}

/// Meaning of one abbreviation, exactly as listed.
pub fn lookup(word: &str) -> (r: Option<&'static str>)
    ensures
        match r {
            Some(text) => meaning_of(word@) == Some(text@),
            None => meaning_of(word@) is None,
        },
{
    match find_entry(word) {
        Some(i) => {
            let entry: (&'static str, &'static str) = ENTRIES[i];
            assert(code(i as int) == word@);
            Some(entry.1)
        },
        None => None,
    }
}

/// The code of the table that spells a word.
fn known_code(word: &str) -> (r: Option<&'static str>)
    ensures
        match r {
            Some(text) => known(word@) && text@ == word@,
            None => !known(word@),
        },
{
    match find_entry(word) {
        Some(i) => {
            let entry: (&'static str, &'static str) = ENTRIES[i];
            assert(code(i as int) == word@);
            Some(entry.0)
        },
        None => None,
    }
}

// --- the codes of a token ------------------------------------------------------------------

/// Those of a list of words the table holds, in order.
pub open spec fn known_of(list: Seq<Seq<char>>) -> Seq<Seq<char>>
    decreases list.len(),
{
    if list.len() == 0 {
        seq![]
    } else if known(list.last()) {
        known_of(list.drop_last()).push(list.last())
    } else {
        known_of(list.drop_last())
    }
}

/// The parts of a weather token that may stand in the table: its qualifier, where it has one, and
/// its groups.
pub open spec fn weather_parts(token: Seq<char>) -> Seq<Seq<char>> {
    match weather_of(token) {
        Some((qualifier, groups)) => if qualifier.len() > 0 {
            seq![qualifier] + groups
        } else {
            groups
        },
        None => seq![],
    }
}

/// The words a sky-condition group starts with.
pub const SKY_COVERS: [&'static str; 5] = ["FEW", "SCT", "BKN", "OVC", "VV"];

/// Whether a token starts with a cover and three digits of height.
pub open spec fn is_sky_group(token: Seq<char>, cover: Seq<char>) -> bool {
    let n = cover.len() as int;
    &&& token.len() >= n + 3
    &&& token.take(n) == cover
    &&& all_digits(token.subrange(n, n + 3))
}

/// The codes of a sky-condition group with a given cover: the cover and any cloud type.
pub open spec fn sky_codes(token: Seq<char>, cover: Seq<char>) -> Seq<Seq<char>> {
    let suffix = token.skip(cover.len() as int + 3);
    if suffix == "CB"@ {
        seq![cover, "CB"@]
    } else if suffix == "TCU"@ {
        seq![cover, "TCU"@]
    } else {
        seq![cover]
    }
}

/// The codes of a token that is a sky-condition group with cover `k` or a later one.
pub open spec fn sky_codes_from(token: Seq<char>, k: int) -> Option<Seq<Seq<char>>>
    decreases SKY_COVERS@.len() - k,
{
    if k < 0 || k >= SKY_COVERS@.len() {
        None
    } else if is_sky_group(token, SKY_COVERS[k]@) {
        Some(sky_codes(token, SKY_COVERS[k]@))
    } else {
        sky_codes_from(token, k + 1)
    }
}

/// Codes that make up one token, in the order they appear in it.
pub open spec fn codes_of(token: Seq<char>) -> Seq<Seq<char>> {
    if known_of(weather_parts(token)).len() > 0 {
        known_of(weather_parts(token))
    } else {
        match sky_codes_from(token, 0) {
            Some(codes) => codes,
            None => if token.len() > 1 && known(token) {
                seq![token]
            } else {
                seq![]
            },
        }
    }
}

/// Add a word to a list if the table holds it.
fn push_known(out: &mut Vec<&'static str>, word: &str, Ghost(list): Ghost<Seq<Seq<char>>>)
    requires
        texts(old(out)@) == known_of(list),
    ensures
        texts(final(out)@) == known_of(list.push(word@)),
{
    assert(list.push(word@).drop_last() =~= list);
    match known_code(word) {
        Some(text) => {
            let ghost had = out@;
            out.push(text);
            assert(texts(out@) =~= texts(had).push(word@));
        },
        None => {},
    }
}

/// The codes of a weather token.
fn weather_codes(token: &str) -> (r: Vec<&'static str>)
    ensures
        texts(r@) == known_of(weather_parts(token@)),
{
    let mut out: Vec<&'static str> = Vec::new();
    assert(texts(out@) =~= known_of(seq![]));
    match parse_weather(token) {
        None => {},
        Some((qualifier, groups)) => {
            let ghost mut list: Seq<Seq<char>> = seq![];
            if !qualifier.is_empty() {
                push_known(&mut out, qualifier, Ghost(list));
                proof {
                    list = list.push(qualifier@);
                }
            }
            let ghost front = list;
            let ghost all = texts(groups@);
            assert(front + all.take(0) =~= list);
            let mut i: usize = 0;
            while i < groups.len()
                invariant
                    i <= groups.len(),
                    all == texts(groups@),
                    list == front + all.take(i as int),
                    texts(out@) == known_of(list),
                decreases groups.len() - i,
            {
                push_known(&mut out, groups[i], Ghost(list));
                proof {
                    assert(all[i as int] == groups@[i as int]@);
                    list = list.push(groups@[i as int]@);
                    assert(list =~= front + all.take(i + 1));
                }
                i = i + 1;
            }
            assert(list =~= weather_parts(token@));
        },
    }
    out
}

/// The codes of a sky-condition group.
fn sky_group_codes(token: &str) -> (r: Option<Vec<&'static str>>)
    ensures
        match r {
            Some(codes) => sky_codes_from(token@, 0) == Some(texts(codes@)),
            None => sky_codes_from(token@, 0) is None,
        },
{
    let chars: Vec<char> = chars_of(token);
    let n: usize = chars.len();
    let mut k: usize = 0;
    while k < 5
        invariant
            k <= 5,
            chars@ == token@,
            n == chars.len(),
            sky_codes_from(token@, 0) == sky_codes_from(token@, k as int),
        decreases 5 - k,
    {
        let cover: &'static str = SKY_COVERS[k];
        let c: usize = cover.unicode_len();
        if c <= 3 && n >= c + 3 && same(token.substring_char(0, c), cover) && digits_only(
            slice_subrange(chars.as_slice(), c, c + 3),
        ) {
            assert(token@.subrange(0, c as int) =~= token@.take(c as int));
            let suffix: &str = token.substring_char(c + 3, n);
            assert(suffix@ =~= token@.skip(c + 3));
            let mut out: Vec<&'static str> = Vec::new();
            out.push(cover);
            if same(suffix, "CB") {
                out.push("CB");
            } else if same(suffix, "TCU") {
                out.push("TCU");
            }
            assert(texts(out@) =~= sky_codes(token@, cover@));
            return Some(out);
        }
        proof {
            covers_are_short(k as int);
            assert(n >= c ==> token@.subrange(0, c as int) =~= token@.take(c as int));
        }
        k = k + 1;
    }
    None
}

proof fn covers_are_short(k: int)
    requires
        0 <= k < 5,
    ensures
        SKY_COVERS[k]@.len() <= 3,
{
    reveal_strlit("FEW");
    reveal_strlit("SCT");
    reveal_strlit("BKN");
    reveal_strlit("OVC");
    reveal_strlit("VV");
}

/// Codes that make up one token, in the order they appear in it.
///
/// A token is not usually a glossary key. `BKN008` is a cover code plus a height; `-TSRA` is an
/// intensity plus two weather groups. This decomposes the shapes that have structure and falls
/// back to a whole-token match, so `AO2` resolves too.
///
/// Single-letter keys are **not** matched as whole tokens. `M`, `P`, `R`, `S`, `N`, `E`, `V` and
/// friends are real entries but almost never stand alone in a report, and matching them would
/// turn any stray letter into a confident definition.
pub fn codes_in(token: &str) -> (r: Vec<&'static str>)
    ensures
        texts(r@) == codes_of(token@),
{
    // Weather groups first: they have the most structure, so a match here is the most certain.
    let weather: Vec<&'static str> = weather_codes(token);
    if weather.len() > 0 {
        return weather;
    }
    assert(known_of(weather_parts(token@)).len() == 0);
    match sky_group_codes(token) {
        Some(codes) => codes,
        None => {
            let mut out: Vec<&'static str> = Vec::new();
            if token.unicode_len() > 1 {
                match known_code(token) {
                    Some(text) => {
                        out.push(text);
                    },
                    None => {},
                }
            }
            assert(texts(out@) =~= codes_of(token@));
            out
        },
    }
}

// --- the codes of a report -----------------------------------------------------------------

/// A list of codes with those of another appended that it does not have yet and that the table
/// holds.
pub open spec fn with_new(list: Seq<Seq<char>>, codes: Seq<Seq<char>>) -> Seq<Seq<char>>
    decreases codes.len(),
{
    if codes.len() == 0 {
        list
    } else {
        let so_far = with_new(list, codes.drop_last());
        if known(codes.last()) && !so_far.contains(codes.last()) {
            so_far.push(codes.last())
        } else {
            so_far
        }
    }
}

/// Every code appearing in a list of tokens, in order of first appearance, without repeats.
pub open spec fn codes_explained(tokens: Seq<Seq<char>>) -> Seq<Seq<char>>
    decreases tokens.len(),
{
    if tokens.len() == 0 {
        seq![]
    } else {
        with_new(codes_explained(tokens.drop_last()), codes_of(tokens.last()))
    }
}

/// The codes of a list of explanations.
pub open spec fn codes_listed(list: Seq<(&str, &str)>) -> Seq<Seq<char>> {
    Seq::new(list.len(), |i: int| list[i].0@)
}

/// Whether every explanation is the one the table gives.
pub open spec fn meanings_match(list: Seq<(&str, &str)>) -> bool {
    forall|i: int|
        0 <= i < list.len() ==> meaning_of((#[trigger] list[i]).0@) == Some(list[i].1@)
}

fn already_listed(out: &Vec<(&'static str, &'static str)>, word: &str) -> (r: bool)
    ensures
        r == codes_listed(out@).contains(word@),
{
    let mut i: usize = 0;
    while i < out.len()
        invariant
            i <= out.len(),
            forall|k: int| 0 <= k < i ==> codes_listed(out@)[k] != word@,
        decreases out.len() - i,
    {
        if same(out[i].0, word) {
            assert(codes_listed(out@)[i as int] == word@);
            return true;
        }
        i = i + 1;
    }
    false
}

/// Every code appearing in a report, in order of first appearance, without repeats.
///
/// Order of appearance rather than alphabetical: the reader is looking at the report, so the list
/// should follow their eye across it rather than making them search.
pub fn explain(body: &str) -> (r: Vec<(&'static str, &'static str)>)
    ensures
        codes_listed(r@) == codes_explained(words(body@)),
        meanings_match(r@),
{
    let tokens: Vec<&str> = split_words(body);
    let ghost all = texts(tokens@);
    let mut out: Vec<(&'static str, &'static str)> = Vec::new();
    let mut i: usize = 0;
    assert(all.take(0) =~= seq![]);
    assert(codes_listed(out@) =~= codes_explained(all.take(0)));
    while i < tokens.len()
        invariant
            i <= tokens.len(),
            all == texts(tokens@),
            codes_listed(out@) == codes_explained(all.take(i as int)),
            meanings_match(out@),
        decreases tokens.len() - i,
    {
        let ghost start = codes_listed(out@);
        proof {
            assert(all.take(i + 1).drop_last() =~= all.take(i as int));
            assert(all.take(i + 1).last() == tokens@[i as int]@);
        }
        let codes: Vec<&'static str> = codes_in(tokens[i]);
        let ghost found = texts(codes@);
        let mut j: usize = 0;
        assert(found.take(0) =~= seq![]);
        while j < codes.len()
            invariant
                j <= codes.len(),
                found == texts(codes@),
                codes_listed(out@) == with_new(start, found.take(j as int)),
                meanings_match(out@),
            decreases codes.len() - j,
        {
            proof {
                assert(found.take(j + 1).drop_last() =~= found.take(j as int));
                assert(found.take(j + 1).last() == codes@[j as int]@);
            }
            if !already_listed(&out, codes[j]) {
                match lookup(codes[j]) {
                    Some(text) => {
                        let ghost had = out@;
                        out.push((codes[j], text));
                        assert(codes_listed(out@) =~= codes_listed(had).push(codes@[j as int]@));
                    },
                    None => {},
                }
            }
            j = j + 1;
        }
        assert(found.take(j as int) =~= found);
        i = i + 1;
    }
    assert(all.take(i as int) =~= all);
    out
}

// --- laws ----------------------------------------------------------------------------------

/// Whether a list has no code twice.
pub open spec fn without_repeats(list: Seq<Seq<char>>) -> bool {
    forall|i: int, j: int| 0 <= i < j < list.len() ==> list[i] != list[j]
}

proof fn with_new_keeps(list: Seq<Seq<char>>, codes: Seq<Seq<char>>)
    requires
        without_repeats(list),
        forall|i: int| 0 <= i < list.len() ==> known(#[trigger] list[i]),
    ensures
        without_repeats(with_new(list, codes)),
        forall|i: int| 0 <= i < with_new(list, codes).len() ==> known(#[trigger] with_new(list, codes)[i]),
        list.len() <= with_new(list, codes).len(),
        with_new(list, codes).take(list.len() as int) == list,
        forall|k: int|
            0 <= k < codes.len() && known(#[trigger] codes[k]) ==> with_new(list, codes).contains(
                codes[k],
            ),
    decreases codes.len(),
{
    if codes.len() == 0 {
        assert(list.take(list.len() as int) =~= list);
    } else {
        let front = codes.drop_last();
        with_new_keeps(list, front);
        let so_far = with_new(list, front);
        let whole = with_new(list, codes);
        assert(whole.take(list.len() as int) =~= so_far.take(list.len() as int));
        assert forall|k: int| 0 <= k < codes.len() && known(#[trigger] codes[k]) implies whole.contains(
            codes[k],
        ) by {
            if k < front.len() {
                assert(front[k] == codes[k]);
                assert(so_far.contains(codes[k]));
                let m = choose|m: int| 0 <= m < so_far.len() && so_far[m] == codes[k];
                assert(whole[m] == codes[k]);
            } else if !so_far.contains(codes[k]) {
                assert(whole[so_far.len() as int] == codes[k]);
            }
        }
    }
}

/// An explanation lists no code twice, lists only codes the table holds, and follows the report:
/// reading on only ever adds to the end of the list.
pub proof fn explanations_follow_the_report(tokens: Seq<Seq<char>>, more: Seq<char>)
    ensures
        without_repeats(codes_explained(tokens)),
        forall|i: int| 0 <= i < codes_explained(tokens).len() ==> known(#[trigger] codes_explained(tokens)[i]),
        codes_explained(tokens.push(more)).len() >= codes_explained(tokens).len(),
        codes_explained(tokens.push(more)).take(codes_explained(tokens).len() as int)
            == codes_explained(tokens),
    decreases tokens.len(),
{
    if tokens.len() > 0 {
        explanations_follow_the_report(tokens.drop_last(), tokens.last());
        with_new_keeps(codes_explained(tokens.drop_last()), codes_of(tokens.last()));
    }
    assert(tokens.push(more).drop_last() =~= tokens);
    with_new_keeps(codes_explained(tokens), codes_of(more));
}

/// Nothing the table knows is left out: every code of every token is explained.
pub proof fn every_known_code_is_explained(tokens: Seq<Seq<char>>, i: int, k: int)
    requires
        0 <= i < tokens.len(),
        0 <= k < codes_of(tokens[i]).len(),
        known(codes_of(tokens[i])[k]),
    ensures
        codes_explained(tokens).contains(codes_of(tokens[i])[k]),
    decreases tokens.len(),
{
    let front = tokens.drop_last();
    explanations_follow_the_report(front, tokens.last());
    with_new_keeps(codes_explained(front), codes_of(tokens.last()));
    if i < front.len() {
        assert(front[i] == tokens[i]);
        every_known_code_is_explained(front, i, k);
        let word = codes_of(tokens[i])[k];
        let m = choose|m: int| 0 <= m < codes_explained(front).len() && codes_explained(front)[m] == word;
        assert(codes_explained(tokens).take(codes_explained(front).len() as int)[m] == word);
        assert(codes_explained(tokens)[m] == word);
    }
}

proof fn qualifiers_are_known()
    ensures
        known("-"@),
        known("+"@),
        known("VC"@),
{
    assert(code(2) == "-"@);
    assert(code(1) == "+"@);
    assert(code(127) == "VC"@);
}

proof fn groups_are_known(k: int)
    requires
        0 <= k < GROUPS@.len(),
    ensures
        known(GROUPS[k]@),
{
    if k == 0 {
        assert(code(68) == "MI"@);
    }
    if k == 1 {
        assert(code(16) == "BC"@);
    }
    if k == 2 {
        assert(code(85) == "PR"@);
    }
    if k == 3 {
        assert(code(33) == "DR"@);
    }
    if k == 4 {
        assert(code(18) == "BL"@);
    }
    if k == 5 {
        assert(code(105) == "SH"@);
    }
    if k == 6 {
        assert(code(119) == "TS"@);
    }
    if k == 7 {
        assert(code(50) == "FZ"@);
    }
    if k == 8 {
        assert(code(39) == "DZ"@);
    }
    if k == 9 {
        assert(code(92) == "RA"@);
    }
    if k == 10 {
        assert(code(110) == "SN"@);
    }
    if k == 11 {
        assert(code(104) == "SG"@);
    }
    if k == 12 {
        assert(code(57) == "IC"@);
    }
    if k == 13 {
        assert(code(82) == "PL"@);
    }
    if k == 14 {
        assert(code(53) == "GR"@);
    }
    if k == 15 {
        assert(code(54) == "GS"@);
    }
    if k == 16 {
        assert(code(123) == "UP"@);
    }
    if k == 17 {
        assert(code(19) == "BR"@);
    }
    if k == 18 {
        assert(code(43) == "FG"@);
    }
    if k == 19 {
        assert(code(49) == "FU"@);
    }
    if k == 20 {
        assert(code(126) == "VA"@);
    }
    if k == 21 {
        assert(code(37) == "DU"@);
    }
    if k == 22 {
        assert(code(99) == "SA"@);
    }
    if k == 23 {
        assert(code(56) == "HZ"@);
    }
    if k == 24 {
        assert(code(90) == "PY"@);
    }
    if k == 25 {
        assert(code(84) == "PO"@);
    }
    if k == 26 {
        assert(code(114) == "SQ"@);
    }
    if k == 27 {
        assert(code(41) == "FC"@);
    }
    if k == 28 {
        assert(code(115) == "SS"@);
    }
    if k == 29 {
        assert(code(34) == "DS"@);
    }
}

proof fn all_known_are_kept(list: Seq<Seq<char>>)
    requires
        forall|k: int| 0 <= k < list.len() ==> known(#[trigger] list[k]),
    ensures
        known_of(list) == list,
    decreases list.len(),
{
    if list.len() > 0 {
        let front = list.drop_last();
        assert forall|k: int| 0 <= k < front.len() implies known(#[trigger] front[k]) by {
            assert(front[k] == list[k]);
        }
        all_known_are_kept(front);
        assert(known(list[list.len() - 1]));
        assert(front.push(list.last()) =~= list);
    } else {
        assert(list =~= seq![]);
    }
}

/// The codes of a weather token are its qualifier, where it has one, and its groups, each of them
/// in the table and none left out.
pub proof fn weather_tokens_are_spelt_out(token: Seq<char>)
    requires
        weather_of(token) is Some,
    ensures
        weather_of(token) matches Some((qualifier, groups)) && codes_of(token) == (if qualifier.len()
            > 0 {
            seq![qualifier] + groups
        } else {
            groups
        }),
        forall|k: int| 0 <= k < codes_of(token).len() ==> known(#[trigger] codes_of(token)[k]),
{
    let (qualifier, groups) = weather_of(token)->0;
    let parts = weather_parts(token);
    reveal_strlit("");
    qualifiers_are_known();
    assert(qualifier == qualifier_of(token));
    assert forall|k: int| 0 <= k < groups.len() implies known(#[trigger] groups[k]) by {
        assert(listed(groups[k], GROUPS@));
        let n = choose|n: int| 0 <= n < GROUPS@.len() && (#[trigger] GROUPS@[n])@ == groups[k];
        groups_are_known(n);
    }
    assert forall|k: int| 0 <= k < parts.len() implies known(#[trigger] parts[k]) by {
        if qualifier.len() > 0 {
            if k > 0 {
                assert(parts[k] == groups[k - 1]);
            } else {
                assert(parts[k] == qualifier);
            }
        }
    }
    all_known_are_kept(parts);
    assert(groups.len() > 0);
}

proof fn nothing_new(list: Seq<Seq<char>>, codes: Seq<Seq<char>>)
    requires
        forall|k: int| 0 <= k < codes.len() && known(#[trigger] codes[k]) ==> list.contains(codes[k]),
    ensures
        with_new(list, codes) == list,
    decreases codes.len(),
{
    if codes.len() > 0 {
        let front = codes.drop_last();
        assert forall|k: int| 0 <= k < front.len() && known(#[trigger] front[k]) implies list.contains(
            front[k],
        ) by {
            assert(front[k] == codes[k]);
        }
        nothing_new(list, front);
        assert(codes.last() == codes[codes.len() - 1]);
    }
}

proof fn repeats_add_nothing(tokens: Seq<Seq<char>>, n: int)
    requires
        0 <= n <= tokens.len(),
    ensures
        codes_explained(tokens + tokens.take(n)) == codes_explained(tokens),
    decreases n,
{
    let longer = tokens + tokens.take(n);
    if n == 0 {
        assert(longer =~= tokens);
    } else {
        repeats_add_nothing(tokens, n - 1);
        assert(longer.drop_last() =~= tokens + tokens.take(n - 1));
        assert(longer.last() == tokens[n - 1]);
        let codes = codes_of(tokens[n - 1]);
        assert forall|k: int| 0 <= k < codes.len() && known(#[trigger] codes[k]) implies codes_explained(
            tokens,
        ).contains(codes[k]) by {
            every_known_code_is_explained(tokens, n - 1, k);
        }
        nothing_new(codes_explained(tokens), codes);
    }
}

/// A report written twice is explained by the same list as the report.
pub proof fn a_report_twice_is_explained_once(body: Seq<char>, gap: char)
    requires
        is_space(gap),
    ensures
        codes_explained(words(body + seq![gap] + body)) == codes_explained(words(body)),
{
    let tokens = words(body);
    white_space_parts_words(body, gap, body);
    repeats_add_nothing(tokens, tokens.len() as int);
    assert(tokens.take(tokens.len() as int) =~= tokens);
}

/// What the descriptors and the kinds of precipitation mean.
pub proof fn what_descriptors_and_precipitation_mean()
    ensures
        meaning_of("MI"@) == Some("shallow"@),
        meaning_of("BC"@) == Some("patches"@),
        meaning_of("PR"@) == Some("partial"@),
        meaning_of("DR"@) == Some("low drifting"@),
        meaning_of("BL"@) == Some("blowing"@),
        meaning_of("SH"@) == Some("shower(s)"@),
        meaning_of("TS"@) == Some("thunderstorm"@),
        meaning_of("FZ"@) == Some("freezing"@),
        meaning_of("DZ"@) == Some("drizzle"@),
        meaning_of("RA"@) == Some("rain"@),
        meaning_of("SN"@) == Some("snow"@),
        meaning_of("SG"@) == Some("snow grains"@),
        meaning_of("IC"@) == Some("ice crystals, in-cloud lightning"@),
        meaning_of("PL"@) == Some("ice pellets"@),
        meaning_of("GR"@) == Some("hail"@),
        meaning_of("GS"@) == Some("small hail and/or snow pellets"@),
        meaning_of("UP"@) == Some("unknown precipitation"@),
{
    every_entry_is_found(68);
    every_entry_is_found(16);
    every_entry_is_found(85);
    every_entry_is_found(33);
    every_entry_is_found(18);
    every_entry_is_found(105);
    every_entry_is_found(119);
    every_entry_is_found(50);
    every_entry_is_found(39);
    every_entry_is_found(92);
    every_entry_is_found(110);
    every_entry_is_found(104);
    every_entry_is_found(57);
    every_entry_is_found(82);
    every_entry_is_found(53);
    every_entry_is_found(54);
    every_entry_is_found(123);
}

/// What the obscurations and the storms mean.
pub proof fn what_obscurations_and_storms_mean()
    ensures
        meaning_of("BR"@) == Some("mist"@),
        meaning_of("FG"@) == Some("fog"@),
        meaning_of("FU"@) == Some("smoke"@),
        meaning_of("VA"@) == Some("volcanic ash"@),
        meaning_of("DU"@) == Some("widespread dust"@),
        meaning_of("SA"@) == Some("sand"@),
        meaning_of("HZ"@) == Some("haze"@),
        meaning_of("PY"@) == Some("spray"@),
        meaning_of("PO"@) == Some("dust/sand whirls (dust devils)"@),
        meaning_of("SQ"@) == Some("squalls"@),
        meaning_of("FC"@) == Some("funnel cloud"@),
        meaning_of("SS"@) == Some("sandstorm"@),
        meaning_of("DS"@) == Some("duststorm"@),
{
    every_entry_is_found(19);
    every_entry_is_found(43);
    every_entry_is_found(49);
    every_entry_is_found(126);
    every_entry_is_found(37);
    every_entry_is_found(99);
    every_entry_is_found(56);
    every_entry_is_found(90);
    every_entry_is_found(84);
    every_entry_is_found(114);
    every_entry_is_found(41);
    every_entry_is_found(115);
    every_entry_is_found(34);
}

/// What the qualifiers, the amounts of cloud and its kinds mean.
pub proof fn what_qualifiers_and_cover_mean()
    ensures
        meaning_of("+"@) == Some("heavy intensity"@),
        meaning_of("-"@) == Some("light intensity"@),
        meaning_of("VC"@) == Some("in the vicinity"@),
        meaning_of("FEW"@) == Some("few clouds"@),
        meaning_of("SCT"@) == Some("scattered"@),
        meaning_of("BKN"@) == Some("broken"@),
        meaning_of("OVC"@) == Some("overcast"@),
        meaning_of("VV"@) == Some("vertical visibility"@),
        meaning_of("CB"@) == Some("cumulonimbus cloud"@),
        meaning_of("TCU"@) == Some("towering cumulus"@),
        meaning_of("CLR"@) == Some("clear"@),
        meaning_of("SKC"@) == Some("sky clear"@),
{
    every_entry_is_found(1);
    every_entry_is_found(2);
    every_entry_is_found(127);
    every_entry_is_found(42);
    every_entry_is_found(101);
    every_entry_is_found(17);
    every_entry_is_found(78);
    every_entry_is_found(132);
    every_entry_is_found(22);
    every_entry_is_found(118);
    every_entry_is_found(30);
    every_entry_is_found(106);
}

/// A single letter is never explained: too many of them stand for something else.
pub proof fn single_letters_are_left_alone(token: Seq<char>)
    requires
        token.len() <= 1,
    ensures
        codes_of(token).len() == 0,
{
    reveal_with_fuel(sky_codes_from, 6);
    reveal_strlit("FEW");
    reveal_strlit("SCT");
    reveal_strlit("BKN");
    reveal_strlit("OVC");
    reveal_strlit("VV");
    assert(SKY_COVERS[0]@ == "FEW"@ && SKY_COVERS[1]@ == "SCT"@ && SKY_COVERS[2]@ == "BKN"@
        && SKY_COVERS[3]@ == "OVC"@ && SKY_COVERS[4]@ == "VV"@);
    assert(weather_of(token) is None);
    assert(weather_parts(token).len() == 0);
}

/// A layer is explained by its cover, and by its kind of cloud where it says one, whatever its height.
pub proof fn layers_are_explained_by_their_cover(k: int, height: Seq<char>)
    requires
        0 <= k < 5,
        height.len() == 3,
        all_digits(height),
    ensures
        ({
            let cover = if k == 0 {
                "FEW"@
            } else if k == 1 {
                "SCT"@
            } else if k == 2 {
                "BKN"@
            } else if k == 3 {
                "OVC"@
            } else {
                "VV"@
            };
            &&& sky_codes_from(cover + height, 0) == Some(seq![cover])
            &&& sky_codes_from(cover + height + "CB"@, 0) == Some(seq![cover, "CB"@])
            &&& sky_codes_from(cover + height + "TCU"@, 0) == Some(seq![cover, "TCU"@])
        }),
{
    reveal_with_fuel(sky_codes_from, 6);
    reveal_strlit("FEW");
    reveal_strlit("SCT");
    reveal_strlit("BKN");
    reveal_strlit("OVC");
    reveal_strlit("VV");
    reveal_strlit("CB");
    reveal_strlit("TCU");
    assert(SKY_COVERS[0]@ == "FEW"@ && SKY_COVERS[1]@ == "SCT"@ && SKY_COVERS[2]@ == "BKN"@
        && SKY_COVERS[3]@ == "OVC"@ && SKY_COVERS[4]@ == "VV"@);
    let cover = SKY_COVERS[k]@;
    let (bare, storm, tower) = (cover + height, cover + height + "CB"@, cover + height + "TCU"@);
    let n = cover.len() as int;
    assert(bare.take(n) =~= cover && storm.take(n) =~= cover && tower.take(n) =~= cover);
    assert(bare.subrange(n, n + 3) =~= height && storm.subrange(n, n + 3) =~= height
        && tower.subrange(n, n + 3) =~= height);
    assert(bare.skip(n + 3) =~= Seq::<char>::empty());
    assert(storm.skip(n + 3) =~= "CB"@);
    assert(tower.skip(n + 3) =~= "TCU"@);
    assert("CB"@.len() == 2 && "TCU"@.len() == 3);
    assert forall|j: int| 0 <= j < k implies !is_sky_group(bare, SKY_COVERS[j]@) && !is_sky_group(
        storm,
        SKY_COVERS[j]@,
    ) && !is_sky_group(tower, #[trigger] SKY_COVERS[j]@) by {
        let other = SKY_COVERS[j]@;
        assert(other[0] != cover[0]);
        let m = other.len() as int;
        assert(bare.take(m)[0] == cover[0]);
        assert(storm.take(m)[0] == cover[0]);
        assert(tower.take(m)[0] == cover[0]);
    }
}

} // verus!
