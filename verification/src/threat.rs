//! Threat classification.
//!
//! Loosely modelled on TCAS traffic advisories, but this is **not** TCAS and must not be flown as
//! though it were. It has no closure-rate logic, no time-to-closest-approach, and depends on
//! whatever ADS-B and ADS-R happen to deliver. It exists to draw the eye, not to issue a
//! resolution advisory.
//!
//! Two design choices worth knowing about:
//!
//! * **Relative altitude is compared like-for-like where possible.** Traffic reports pressure
//!   altitude, so own-ship pressure altitude is preferred over GPS MSL; the two disagree by the
//!   local altimeter error, which is easily a whole threat tier.
//! * **Without own-ship altitude, classification never escalates to Alert.** A range-only alert
//!   fires constantly in the circuit, and a display that cries wolf gets ignored precisely when
//!   it matters.
//!
//! This module also owns the **vertical filter** ([`AltitudeFilter`]), because the one property
//! that makes hiding traffic acceptable, that a filter can never hide a threat, is a statement
//! about the tiers above and the bands below.
//!
//! Ranges are in thousandths of a nautical mile, altitudes in thousandths of a foot.

use vstd::prelude::*;

use crate::domain::Target;
use crate::text::{number, padded, padded_reads_back, push_padded};

verus! {

/// How much attention a target deserves.
#[derive(Debug, Clone, Copy, PartialEq, Eq, PartialOrd, Ord, Structural)]
pub enum ThreatLevel {
    /// Normal traffic.
    Normal,
    /// Close enough to watch.
    Advisory,
    /// Close enough to act on.
    Alert,
}

impl ThreatLevel {
    /// Place in the order, most urgent last.
    pub open spec fn order(self) -> int {
        match self {
            ThreatLevel::Normal => 0,
            ThreatLevel::Advisory => 1,
            ThreatLevel::Alert => 2,
        }
    }

    /// Place in the order, most urgent last.
    pub fn rank(self) -> (r: u8)
        ensures
            r == self.order(),
    {
        match self {
            ThreatLevel::Normal => 0,
            ThreatLevel::Advisory => 1,
            ThreatLevel::Alert => 2,
        }
    }
}

/// One tier's boundaries. A target must be inside *both* to qualify.
#[derive(Debug, Clone, Copy, PartialEq, Eq, Structural)]
pub struct Tier {
    pub range_mnm: i64,
    pub altitude_mft: i64,
}

impl Tier {
    /// Whether a target at this range and this far above or below is inside the tier.
    pub open spec fn holds(self, range_mnm: int, separation_mft: int) -> bool {
        range_mnm <= self.range_mnm && separation_mft <= self.altitude_mft
    }
}

#[derive(Debug, Clone, Copy, PartialEq, Eq, Structural)]
pub struct ThreatConfig {
    pub advisory: Tier,
    pub alert: Tier,
    /// Ignore targets on the ground for threat purposes.
    ///
    /// Taxiing aircraft are legitimately within a few hundred feet and a few hundred metres while
    /// you sit at the hold-short line; alerting on them trains the pilot to ignore alerts.
    pub ignore_on_ground: bool,
}

impl ThreatConfig {
    /// 6 nm and 1200 ft for an advisory, 3 nm and 600 ft for an alert.
    pub open spec fn standard() -> ThreatConfig {
        ThreatConfig {
            advisory: Tier { range_mnm: 6_000, altitude_mft: 1_200_000 },
            alert: Tier { range_mnm: 3_000, altitude_mft: 600_000 },
            ignore_on_ground: true,
        }
    }
}

impl Default for ThreatConfig {
    fn default() -> (r: ThreatConfig)
        ensures
            r == ThreatConfig::standard(),
    {
        ThreatConfig {
            advisory: Tier { range_mnm: 6_000, altitude_mft: 1_200_000 },
            alert: Tier { range_mnm: 3_000, altitude_mft: 600_000 },
            ignore_on_ground: true,
        }
    }
}

/// Everything the plan view needs to know about how to draw a target.
#[derive(Debug, Clone, Copy, PartialEq, Eq, Structural)]
pub struct Assessment {
    pub level: ThreatLevel,
    /// Target altitude minus own-ship altitude. `None` if either is unknown.
    pub relative_altitude_mft: Option<i64>,
    /// How far off it is, in thousandths of a nautical mile, rounded up: it is within a limit of whole
    /// thousandths exactly where the distance itself is.
    pub range_mnm: i64,
}

/// A number without its sign.
pub open spec fn magnitude(n: int) -> int {
    if n < 0 {
        -n
    } else {
        n
    }
}

/// How a target of a given relative altitude and range is classified.
pub open spec fn level_of(
    relative_mft: Option<int>,
    range_mnm: int,
    on_ground: bool,
    config: ThreatConfig,
) -> ThreatLevel {
    if config.ignore_on_ground && on_ground {
        ThreatLevel::Normal
    } else {
        match relative_mft {
            Some(delta) => if config.alert.holds(range_mnm, magnitude(delta)) {
                ThreatLevel::Alert
            } else if config.advisory.holds(range_mnm, magnitude(delta)) {
                ThreatLevel::Advisory
            } else {
                ThreatLevel::Normal
            },
            // Range only: capped at Advisory.
            None => if range_mnm <= config.alert.range_mnm {
                ThreatLevel::Advisory
            } else {
                ThreatLevel::Normal
            },
        }
    }
}

/// Target altitude, in whole feet, minus own-ship altitude; `None` if either is unknown.
pub open spec fn relative_altitude(
    target_altitude_ft: Option<i32>,
    own_altitude_mft: Option<i64>,
) -> Option<int> {
    match (target_altitude_ft, own_altitude_mft) {
        (Some(target), Some(own)) => Some(target * 1000 - own),
        _ => None,
    }
}

/// Whether an altitude in thousandths of a foot is one an aircraft could report.
pub open spec fn altitude_in_range(own_altitude_mft: Option<i64>) -> bool {
    own_altitude_mft matches Some(own) ==> -4_000_000_000_000 <= own <= 4_000_000_000_000
}

/// Whether an assessment is that of a target at a range.
pub open spec fn assessed(
    r: Assessment,
    target: Target,
    range_mnm: int,
    own_altitude_mft: Option<i64>,
    config: ThreatConfig,
) -> bool {
    let relative = relative_altitude(target.altitude_ft, own_altitude_mft);
    &&& r.range_mnm == range_mnm
    &&& r.level == level_of(relative, range_mnm, target.on_ground, config)
    &&& match r.relative_altitude_mft {
        Some(delta) => relative == Some(delta as int),
        None => relative is None,
    }
}

/// Classify a target.
///
/// `own_altitude_mft` should be the altitude own-ship compares by, which prefers pressure altitude
/// over GPS MSL.
pub fn assess(
    target: &Target,
    range_mnm: i64,
    own_altitude_mft: Option<i64>,
    config: &ThreatConfig,
) -> (r: Assessment)
    requires
        altitude_in_range(own_altitude_mft),
    ensures
        assessed(r, *target, range_mnm as int, own_altitude_mft, *config),
{
    let relative: Option<i64> = match (target.altitude_ft, own_altitude_mft) {
        (Some(altitude), Some(own)) => Some(altitude as i64 * 1000 - own),
        _ => None,
    };
    let level: ThreatLevel = if config.ignore_on_ground && target.on_ground {
        ThreatLevel::Normal
    } else {
        match relative {
            Some(delta) => {
                let separation: i64 = if delta < 0 {
                    -delta
                } else {
                    delta
                };
                if range_mnm <= config.alert.range_mnm && separation <= config.alert.altitude_mft {
                    ThreatLevel::Alert
                } else if range_mnm <= config.advisory.range_mnm && separation
                    <= config.advisory.altitude_mft {
                    ThreatLevel::Advisory
                } else {
                    ThreatLevel::Normal
                }
            },
            None => if range_mnm <= config.alert.range_mnm {
                ThreatLevel::Advisory
            } else {
                ThreatLevel::Normal
            },
        }
    };
    Assessment { level, relative_altitude_mft: relative, range_mnm }
}

/// Either side of own-ship in the narrow half of a band: 2700 ft.
pub const NEAR_MFT: i64 = 2_700_000;

/// In the wide half, on whichever side the pilot has asked to see more of: 9000 ft.
pub const FAR_MFT: i64 = 9_000_000;

/// Which slice of the vertical world to draw.
///
/// The bands are Garmin's (GTS/GTX traffic pages) rather than anything invented here: a pilot who
/// has flown behind a GTN reads this display correctly with no learning.
///
/// Hiding traffic is safe because of exactly one rule, enforced in [`AltitudeFilter::admits`]:
/// **only [`ThreatLevel::Normal`] targets are ever filtered.** Anything the tiers have flagged is
/// drawn whatever the band says.
#[derive(Debug, Clone, Copy, PartialEq, Eq, Structural)]
pub enum AltitudeFilter {
    /// Equal slices above and below. The default, and the useful one in the circuit.
    Normal,
    /// Look up: the airway traffic overhead, at the cost of the same view below.
    Above,
    /// Look down: traffic in the pattern beneath you.
    Below,
    /// No vertical filtering at all.
    Unrestricted,
}

impl Default for AltitudeFilter {
    fn default() -> (r: AltitudeFilter)
        ensures
            r == AltitudeFilter::Normal,
    {
        AltitudeFilter::Normal
    }
}

impl AltitudeFilter {
    /// Every band, in the order [`AltitudeFilter::cycle`] visits them.
    pub const ALL: [AltitudeFilter; 4] = [
        AltitudeFilter::Normal,
        AltitudeFilter::Above,
        AltitudeFilter::Below,
        AltitudeFilter::Unrestricted,
    ];

    /// Below and above own-ship, or `None` when nothing is excluded.
    pub open spec fn slice(self) -> Option<(i64, i64)> {
        match self {
            AltitudeFilter::Normal => Some((NEAR_MFT, NEAR_MFT)),
            AltitudeFilter::Above => Some((NEAR_MFT, FAR_MFT)),
            AltitudeFilter::Below => Some((FAR_MFT, NEAR_MFT)),
            AltitudeFilter::Unrestricted => None,
        }
    }

    /// Below and above own-ship, or `None` when nothing is excluded.
    pub fn band(self) -> (r: Option<(i64, i64)>)
        ensures
            r == self.slice(),
    {
        match self {
            AltitudeFilter::Normal => Some((NEAR_MFT, NEAR_MFT)),
            AltitudeFilter::Above => Some((NEAR_MFT, FAR_MFT)),
            AltitudeFilter::Below => Some((FAR_MFT, NEAR_MFT)),
            AltitudeFilter::Unrestricted => None,
        }
    }

    /// The band after this one.
    pub open spec fn successor(self) -> AltitudeFilter {
        match self {
            AltitudeFilter::Normal => AltitudeFilter::Above,
            AltitudeFilter::Above => AltitudeFilter::Below,
            AltitudeFilter::Below => AltitudeFilter::Unrestricted,
            AltitudeFilter::Unrestricted => AltitudeFilter::Normal,
        }
    }

    pub fn cycle(self) -> (r: AltitudeFilter)
        ensures
            r == self.successor(),
    {
        match self {
            AltitudeFilter::Normal => AltitudeFilter::Above,
            AltitudeFilter::Above => AltitudeFilter::Below,
            AltitudeFilter::Below => AltitudeFilter::Unrestricted,
            AltitudeFilter::Unrestricted => AltitudeFilter::Normal,
        }
    }

    pub open spec fn name(self) -> Seq<char> {
        match self {
            AltitudeFilter::Normal => "ALT NRM"@,
            AltitudeFilter::Above => "ALT ABV"@,
            AltitudeFilter::Below => "ALT BLW"@,
            AltitudeFilter::Unrestricted => "ALT ALL"@,
        }
    }

    /// Short form for the soft key and the footer. The two must never disagree, so they share this.
    pub fn label(self) -> (r: &'static str)
        ensures
            r@ == self.name(),
    {
        match self {
            AltitudeFilter::Normal => "ALT NRM",
            AltitudeFilter::Above => "ALT ABV",
            AltitudeFilter::Below => "ALT BLW",
            AltitudeFilter::Unrestricted => "ALT ALL",
        }
    }

    /// Whether this band narrows the picture at all. `false` only for
    /// [`AltitudeFilter::Unrestricted`].
    pub fn is_narrowing(self) -> (r: bool)
        ensures
            r == (self != AltitudeFilter::Unrestricted),
            r == (self.slice() is Some),
    {
        self.band().is_some()
    }

    /// Whether a target of a given level and relative altitude is drawn.
    pub open spec fn shows(self, level: ThreatLevel, relative_mft: Option<i64>) -> bool {
        ||| level != ThreatLevel::Normal
        ||| relative_mft is None
        ||| match (self.slice(), relative_mft) {
            (Some((below, above)), Some(delta)) => -below <= delta <= above,
            _ => true,
        }
    }

    /// Should this target be drawn?
    ///
    /// Three ways to be admitted, and only one way to be excluded:
    ///
    /// * **Anything that is not [`ThreatLevel::Normal`] is admitted.** The filter removes clutter,
    ///   and a target the tiers have flagged is not clutter.
    /// * **Unknown relative altitude is admitted.** You cannot exclude what you cannot measure,
    ///   and this is the ordinary case on the ground. Silently emptying the screen there would
    ///   look like a dead receiver.
    /// * **[`AltitudeFilter::Unrestricted`] admits everything.**
    pub fn admits(self, assessment: &Assessment) -> (r: bool)
        ensures
            r == self.shows(assessment.level, assessment.relative_altitude_mft),
    {
        if assessment.level != ThreatLevel::Normal {
            return true;
        }
        match (self.band(), assessment.relative_altitude_mft) {
            (Some((below, above)), Some(delta)) => if delta >= 0 {
                delta <= above
            } else {
                delta >= -below
            },
            _ => true,
        }
    }
}

/// A number of thousandths in whole hundreds, halves away from zero.
pub open spec fn hundreds_of_feet(mft: int) -> int {
    if mft < 0 {
        -((-mft + 50_000) / 100_000)
    } else {
        (mft + 50_000) / 100_000
    }
}

/// A relative altitude as a traffic display writes it.
pub open spec fn relative_altitude_text(relative_mft: Option<i64>) -> Seq<char> {
    match relative_mft {
        None => "---"@,
        Some(delta) => {
            let hundreds = hundreds_of_feet(delta as int);
            if hundreds == 0 {
                "00"@
            } else if hundreds > 0 {
                seq!['+'] + padded(hundreds as nat, 2)
            } else {
                seq!['-'] + padded((-hundreds) as nat, 2)
            }
        },
    }
}

/// Format a relative altitude the way a traffic display conventionally does: hundreds of feet,
/// signed, or a placeholder when unknown.
///
/// A difference that rounds to zero is rendered unsigned as `00`. Signing it would produce either
/// `+00` or `-00` depending on which side of co-altitude the target happens to be by a few tens of
/// feet, a distinction the display cannot honestly make and that reads as a rendering bug.
pub fn format_relative_altitude(relative_mft: Option<i64>) -> (r: String)
    ensures
        r@ == relative_altitude_text(relative_mft),
{
    let mut out: String = String::new();
    match relative_mft {
        None => {
            out.append("---");
            assert(out@ =~= "---"@);
        },
        Some(delta) => {
            let size: i128 = if delta < 0 {
                -(delta as i128)
            } else {
                delta as i128
            };
            let hundreds: u64 = ((size + 50_000) / 100_000) as u64;
            if hundreds == 0 {
                out.append("00");
                assert(out@ =~= "00"@);
            } else {
                let sign: char = if delta < 0 {
                    '-'
                } else {
                    '+'
                };
                out.push(sign);
                push_padded(&mut out, hundreds, 2);
                assert(out@ =~= seq![sign] + padded(hundreds as nat, 2));
            }
        },
    }
    out
}

// --- laws ----------------------------------------------------------------------------------

/// A filter never hides a threat, whatever its band and whatever the tiers are tuned to.
pub proof fn no_filter_hides_a_threat(
    filter: AltitudeFilter,
    level: ThreatLevel,
    relative_mft: Option<i64>,
)
    requires
        level != ThreatLevel::Normal,
    ensures
        filter.shows(level, relative_mft),
{
}

/// What cannot be measured is never excluded, and the open filter excludes nothing.
pub proof fn what_cannot_be_measured_is_shown(
    filter: AltitudeFilter,
    level: ThreatLevel,
    relative_mft: Option<i64>,
)
    ensures
        filter.shows(level, None),
        AltitudeFilter::Unrestricted.shows(level, relative_mft),
{
}

/// The band key visits every band and comes back to the one it started from.
pub proof fn the_band_cycle_closes(filter: AltitudeFilter)
    ensures
        filter.successor().successor().successor().successor() == filter,
        filter.successor() != filter,
        filter.successor().successor() != filter,
        filter.successor().successor().successor() != filter,
{
}

/// Without an altitude on both sides nothing escalates to an alert.
pub proof fn no_alert_without_both_altitudes(
    target_altitude_ft: Option<i32>,
    own_altitude_mft: Option<i64>,
    range_mnm: int,
    on_ground: bool,
    config: ThreatConfig,
)
    requires
        target_altitude_ft is None || own_altitude_mft is None,
    ensures
        level_of(
            relative_altitude(target_altitude_ft, own_altitude_mft),
            range_mnm,
            on_ground,
            config,
        ) != ThreatLevel::Alert,
{
}

/// An alert is inside both the range and the altitude of its tier.
pub proof fn alerts_are_inside_both_limits(
    relative_mft: Option<int>,
    range_mnm: int,
    on_ground: bool,
    config: ThreatConfig,
)
    requires
        level_of(relative_mft, range_mnm, on_ground, config) == ThreatLevel::Alert,
    ensures
        relative_mft is Some,
        range_mnm <= config.alert.range_mnm,
        magnitude(relative_mft->0) <= config.alert.altitude_mft,
        !(config.ignore_on_ground && on_ground),
{
}

/// Coming closer at the same relative altitude never makes a target look less urgent, as long as
/// the alert tier lies inside the advisory one.
pub proof fn closing_in_never_lowers_the_level(
    relative_mft: Option<int>,
    near_mnm: int,
    far_mnm: int,
    on_ground: bool,
    config: ThreatConfig,
)
    requires
        near_mnm <= far_mnm,
        config.alert.range_mnm <= config.advisory.range_mnm,
        config.alert.altitude_mft <= config.advisory.altitude_mft,
    ensures
        level_of(relative_mft, far_mnm, on_ground, config).order() <= level_of(
            relative_mft,
            near_mnm,
            on_ground,
            config,
        ).order(),
{
}

/// The tiers miss nothing and flag nothing else. A target that counts is an alert exactly where it is
/// within the range of the alert tier and no further above own-ship, nor below it, than the tier
/// reaches, and it is flagged at all exactly where that holds of one of the two tiers.
pub proof fn tiers_reach_as_far_down_as_up(
    r: Assessment,
    target: Target,
    altitude_ft: i32,
    range_mnm: int,
    own_mft: i64,
    config: ThreatConfig,
)
    requires
        assessed(r, target, range_mnm, Some(own_mft), config),
        target.altitude_ft == Some(altitude_ft),
        !target.on_ground || !config.ignore_on_ground,
    ensures
        ({
            let above = altitude_ft * 1000 - own_mft;
            let in_alert = range_mnm <= config.alert.range_mnm && -config.alert.altitude_mft <= above
                <= config.alert.altitude_mft;
            let in_advisory = range_mnm <= config.advisory.range_mnm
                && -config.advisory.altitude_mft <= above <= config.advisory.altitude_mft;
            &&& (r.level == ThreatLevel::Alert) == in_alert
            &&& (r.level == ThreatLevel::Advisory) == (in_advisory && !in_alert)
            &&& (r.level == ThreatLevel::Normal) == (!in_advisory && !in_alert)
            &&& r.relative_altitude_mft matches Some(relative) && relative == above
            &&& r.range_mnm == range_mnm
        }),
{
}

/// Above and below count alike: two targets as far from own-ship's altitude, one over it and one
/// under, are classified alike.
pub proof fn above_and_below_count_alike(
    relative_mft: int,
    range_mnm: int,
    on_ground: bool,
    config: ThreatConfig,
)
    ensures
        level_of(Some(relative_mft), range_mnm, on_ground, config) == level_of(
            Some(-relative_mft),
            range_mnm,
            on_ground,
            config,
        ),
{
}

/// The standard tiers: an alert within three miles and six hundred feet, an advisory within six miles
/// and twelve hundred, and nothing for what is on the ground.
pub proof fn the_standard_tiers(relative_mft: int, range_mnm: int)
    ensures
        ({
            let near = -600_000 <= relative_mft <= 600_000 && range_mnm <= 3_000;
            let close = -1_200_000 <= relative_mft <= 1_200_000 && range_mnm <= 6_000;
            let level = level_of(Some(relative_mft), range_mnm, false, ThreatConfig::standard());
            &&& near ==> level == ThreatLevel::Alert
            &&& close && !near ==> level == ThreatLevel::Advisory
            &&& !close ==> level == ThreatLevel::Normal
        }),
        level_of(Some(relative_mft), range_mnm, true, ThreatConfig::standard())
            == ThreatLevel::Normal,
        level_of(None, range_mnm, true, ThreatConfig::standard()) == ThreatLevel::Normal,
        range_mnm <= 3_000 ==> level_of(None, range_mnm, false, ThreatConfig::standard())
            == ThreatLevel::Advisory,
        range_mnm > 3_000 ==> level_of(None, range_mnm, false, ThreatConfig::standard())
            == ThreatLevel::Normal,
{
}

/// Without both altitudes the relative altitude is unknown, and what is left is how far away the
/// target is: within the range of the alert tier it is worth watching, and no more than that.
pub proof fn range_alone_is_worth_watching(
    r: Assessment,
    target: Target,
    range_mnm: int,
    own_mft: Option<i64>,
    config: ThreatConfig,
)
    requires
        assessed(r, target, range_mnm, own_mft, config),
        target.altitude_ft is None || own_mft is None,
        !target.on_ground || !config.ignore_on_ground,
    ensures
        r.relative_altitude_mft is None,
        range_mnm <= config.alert.range_mnm ==> r.level == ThreatLevel::Advisory,
        range_mnm > config.alert.range_mnm ==> r.level == ThreatLevel::Normal,
{
}

/// What the bands hide: of the traffic that no tier has flagged, the normal band shows 2700 ft either
/// way, looking up shows 9000 ft above and 2700 below, and looking down the reverse.
pub proof fn what_a_band_hides(relative_mft: i64)
    ensures
        AltitudeFilter::Normal.shows(ThreatLevel::Normal, Some(relative_mft)) == (-2_700_000
            <= relative_mft && relative_mft <= 2_700_000),
        AltitudeFilter::Above.shows(ThreatLevel::Normal, Some(relative_mft)) == (-2_700_000
            <= relative_mft && relative_mft <= 9_000_000),
        AltitudeFilter::Below.shows(ThreatLevel::Normal, Some(relative_mft)) == (-9_000_000
            <= relative_mft && relative_mft <= 2_700_000),
        AltitudeFilter::Unrestricted.shows(ThreatLevel::Normal, Some(relative_mft)),
{
}

/// No standard tier reaches past the narrow half of a band, so that a filter is never what decides
/// whether a standard threat is drawn.
pub proof fn every_band_holds_the_standard_tiers(filter: AltitudeFilter, relative_mft: i64)
    requires
        filter.slice() is Some,
        -ThreatConfig::standard().advisory.altitude_mft <= relative_mft
            <= ThreatConfig::standard().advisory.altitude_mft,
    ensures
        filter.shows(ThreatLevel::Normal, Some(relative_mft)),
{
}

/// The band key goes from the normal band to looking up, then looking down, then everything.
pub proof fn the_band_key_looks_up_first(filter: AltitudeFilter)
    ensures
        filter == AltitudeFilter::Normal ==> filter.successor() == AltitudeFilter::Above,
        filter == AltitudeFilter::Above ==> filter.successor() == AltitudeFilter::Below,
        filter == AltitudeFilter::Below ==> filter.successor() == AltitudeFilter::Unrestricted,
        filter == AltitudeFilter::Unrestricted ==> filter.successor() == AltitudeFilter::Normal,
        AltitudeFilter::ALL@.contains(filter),
{
    assert(AltitudeFilter::ALL@[0] == AltitudeFilter::Normal);
    assert(AltitudeFilter::ALL@[1] == AltitudeFilter::Above);
    assert(AltitudeFilter::ALL@[2] == AltitudeFilter::Below);
    assert(AltitudeFilter::ALL@[3] == AltitudeFilter::Unrestricted);
}

/// A relative altitude reads back from its text: a plus for what is above and a minus for what is
/// below, and hundreds of feet that are within fifty feet of it. What rounds to nothing has no sign.
pub proof fn relative_altitudes_read_back(relative_mft: i64)
    ensures
        ({
            let text = relative_altitude_text(Some(relative_mft));
            let size = magnitude(relative_mft as int);
            &&& size < 50_000 ==> text == seq!['0', '0']
            &&& size >= 50_000 ==> {
                &&& text.len() >= 3
                &&& text[0] == (if relative_mft > 0 {
                    '+'
                } else {
                    '-'
                })
                &&& -50_000 <= number(text.skip(1)) * 100_000 - size <= 50_000
            }
        }),
        relative_altitude_text(None) == seq!['-', '-', '-'],
{
    reveal_strlit("00");
    reveal_strlit("---");
    assert("00"@ =~= seq!['0', '0']);
    assert("---"@ =~= seq!['-', '-', '-']);
    let h = hundreds_of_feet(relative_mft as int);
    let n = magnitude(h) as nat;
    padded_reads_back(n, 2);
    let text = relative_altitude_text(Some(relative_mft));
    if h != 0 {
        assert(text.skip(1) =~= padded(n, 2));
    }
}

/// An alert outranks an advisory, and either what is neither; the bands are named for what they show.
pub proof fn levels_and_bands_are_named()
    ensures
        ThreatLevel::Alert.order() > ThreatLevel::Advisory.order() > ThreatLevel::Normal.order(),
        AltitudeFilter::Normal.name() == "ALT NRM"@,
        AltitudeFilter::Above.name() == "ALT ABV"@,
        AltitudeFilter::Below.name() == "ALT BLW"@,
        AltitudeFilter::Unrestricted.name() == "ALT ALL"@,
{
}

/// The relative altitude is the target's less own-ship's: positive for what is above.
pub proof fn relative_altitude_is_up(target_ft: i32, own_ft: int)
    requires
        -4_000_000_000 <= own_ft <= 4_000_000_000,
    ensures
        relative_altitude(Some(target_ft), Some((1000 * own_ft) as i64)) == Some(
            1000 * (target_ft - own_ft),
        ),
        relative_altitude(None, Some((1000 * own_ft) as i64)) is None,
        relative_altitude(Some(target_ft), None) is None,
{
}

} // verus!
