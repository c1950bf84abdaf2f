//! Dead reckoning between position reports.
//!
//! ADS-B positions arrive at roughly 1 Hz but the panel refreshes at 30–60 Hz. Drawing the raw
//! reported position makes every target jump once a second, which reads as a stuttering,
//! untrustworthy display. Extrapolating along the last known track and speed makes motion
//! continuous.
//!
//! Two guards keep this honest rather than inventive:
//!
//! * Extrapolation is capped ([`ReckonConfig::max_extrapolation`]). Past that the target is marked
//!   coasting, because a confident-looking symbol several miles from where the aircraft actually
//!   is would be worse than an obviously stale one.
//! * Targets whose *fix* is already old are not extrapolated at all. The receiver reports the age
//!   of the last real fix, independent of when it sent the message.

use vstd::prelude::*;

use crate::domain::{elapsed, time_since, LatLon, Target};
use crate::projection::{advance, advanced, standing_still_keeps_the_place, Turn, UNIT};

verus! {

#[derive(Debug, Clone, Copy, PartialEq, Eq, Structural)]
pub struct ReckonConfig {
    /// Never extrapolate further ahead than this.
    ///
    /// A little over one update interval: enough to bridge a missed report, not enough to invent
    /// a position. At 300 kt, 3 s is a quarter of a nautical mile.
    pub max_extrapolation: u64,
    /// Don't extrapolate a target whose last real fix is older than this.
    pub max_fix_age: u64,
}

impl Default for ReckonConfig {
    fn default() -> (r: ReckonConfig)
        ensures
            r.max_extrapolation == 3_000_000_000,
            r.max_fix_age == 10_000_000_000,
    {
        ReckonConfig { max_extrapolation: 3_000_000_000, max_fix_age: 10_000_000_000 }
    }
}

/// Where to draw a target, and how much to trust it.
#[derive(Debug, Clone, Copy, PartialEq, Eq, Structural)]
pub struct Reckoned {
    pub position: LatLon,
    /// Nanoseconds of extrapolation applied. Zero means the reported position is drawn as-is.
    pub extrapolated: u64,
    /// The position is a guess: either the receiver was already coasting, or the fix is stale, or
    /// the extrapolation cap was hit. The symbol should be drawn dimmed.
    pub coasting: bool,
}

/// The smaller of two numbers.
pub open spec fn lesser(a: int, b: int) -> int {
    if a < b {
        a
    } else {
        b
    }
}

/// How far along its track a target is drawn.
pub open spec fn extrapolation(target: Target, now: int, config: ReckonConfig) -> int {
    if target.track_mdeg is None || target.ground_speed_kt is None || target.age
        > config.max_fix_age {
        0
    } else {
        lesser(time_since(now, target.received as int), config.max_extrapolation as int)
    }
}

/// Whether where a target is drawn is a guess.
pub open spec fn is_coasting(target: Target, now: int, config: ReckonConfig) -> bool {
    ||| target.extrapolated
    ||| target.age > config.max_fix_age
    ||| {
        &&& target.track_mdeg is Some
        &&& target.ground_speed_kt is Some
        &&& time_since(now, target.received as int) > config.max_extrapolation
    }
}

/// Where a target is drawn: as far along its track as it is extrapolated. `course` is the sine and
/// cosine of its track, `cos_lat` the cosine of its latitude.
pub open spec fn drawn_at(
    position: LatLon,
    target: Target,
    course: Turn,
    cos_lat: int,
    now: int,
    config: ReckonConfig,
) -> LatLon {
    advanced(
        position,
        course,
        match target.ground_speed_kt {
            Some(speed) => speed * 1000,
            None => 0,
        },
        extrapolation(target, now, config),
        cos_lat,
    )
}

/// Decide where a target should be drawn now. `course` is the sine and cosine of its track, `cos_lat`
/// the cosine of its latitude.
///
/// Returns `None` for targets with no position at all (Mode-S only), which belong in a count
/// rather than on the plan view.
pub fn reckon(target: &Target, course: Turn, cos_lat: i64, now: u64, config: &ReckonConfig) -> (r:
    Option<Reckoned>)
    requires
        course.wf(),
        cos_lat <= UNIT,
    ensures
        match (target.position, r) {
            (None, None) => true,
            (Some(position), Some(drawn)) => {
                &&& drawn.position == drawn_at(
                    position,
                    *target,
                    course,
                    cos_lat as int,
                    now as int,
                    *config,
                )
                &&& drawn.extrapolated == extrapolation(*target, now as int, *config)
                &&& drawn.coasting == is_coasting(*target, now as int, *config)
            },
            _ => false,
        },
{
    let reported: LatLon = match target.position {
        Some(position) => position,
        None => return None,
    };
    // The receiver's own extrapolation flag, or a fix too old to project forward from.
    let fix_is_stale: bool = target.age > config.max_fix_age;
    let already_coasting: bool = target.extrapolated || fix_is_stale;
    // Without a velocity solution there is nothing to extrapolate along, and a fix already
    // distrusted is frozen rather than projected from.
    let speed: i64 = match (target.track_mdeg, target.ground_speed_kt) {
        (Some(_), Some(speed)) if !fix_is_stale => speed as i64 * 1000,
        _ => {
            proof {
                standing_still_keeps_the_place(
                    reported,
                    course,
                    match target.ground_speed_kt {
                        Some(speed) => speed * 1000,
                        None => 0,
                    },
                    0,
                    cos_lat as int,
                );
            }
            return Some(
                Reckoned { position: reported, extrapolated: 0, coasting: already_coasting },
            );
        },
    };
    let since: u64 = elapsed(now, target.received);
    let hit_cap: bool = since > config.max_extrapolation;
    let applied: u64 = if hit_cap {
        config.max_extrapolation
    } else {
        since
    };
    Some(
        Reckoned {
            position: advance(reported, course, speed, applied, cos_lat),
            extrapolated: applied,
            coasting: already_coasting || hit_cap,
        },
    )
}

/// How far along its track own-ship is drawn.
pub open spec fn own_extrapolation(received: Option<u64>, now: int, config: ReckonConfig) -> int {
    match received {
        Some(received) => lesser(
            time_since(now, received as int),
            config.max_extrapolation as int,
        ),
        None => 0,
    }
}

/// Where own-ship is drawn.
pub open spec fn own_drawn_at(
    position: LatLon,
    course: Option<Turn>,
    speed_mkt: Option<int>,
    received: Option<u64>,
    cos_lat: int,
    now: int,
    config: ReckonConfig,
) -> LatLon {
    match (course, speed_mkt) {
        (Some(course), Some(speed)) => advanced(
            position,
            course,
            speed,
            own_extrapolation(received, now, config),
            cos_lat,
        ),
        _ => position,
    }
}

/// Own-ship's drawn position, extrapolated the same way. `course` is the sine and cosine of its
/// track, `cos_lat` the cosine of its latitude.
///
/// Own-ship arrives at 10 Hz so the visible benefit is small, but it matters for consistency: if
/// traffic is extrapolated and own-ship is not, every relative position is wrong by own-ship's
/// movement during the gap. Without both a track and a speed it does not move at all.
pub fn reckon_ownship(
    position: LatLon,
    course: Option<Turn>,
    ground_speed_mkt: Option<i64>,
    received: Option<u64>,
    cos_lat: i64,
    now: u64,
    config: &ReckonConfig,
) -> (r: LatLon)
    requires
        course matches Some(course) ==> course.wf(),
        ground_speed_mkt matches Some(speed) ==> -1_000_000_000 <= speed <= 1_000_000_000,
        cos_lat <= UNIT,
    ensures
        r == own_drawn_at(
            position,
            course,
            match ground_speed_mkt {
                Some(speed) => Some(speed as int),
                None => None,
            },
            received,
            cos_lat as int,
            now as int,
            *config,
        ),
{
    match (course, ground_speed_mkt) {
        (Some(course), Some(speed)) => {
            let received: u64 = match received {
                Some(received) => received,
                None => {
                    proof {
                        standing_still_keeps_the_place(
                            position,
                            course,
                            speed as int,
                            0,
                            cos_lat as int,
                        );
                    }
                    return position;
                },
            };
            let since: u64 = elapsed(now, received);
            let applied: u64 = if since > config.max_extrapolation {
                config.max_extrapolation
            } else {
                since
            };
            advance(position, course, speed, applied, cos_lat)
        },
        _ => position,
    }
}

/// Nothing is ever drawn further ahead than the cap.
pub proof fn extrapolation_is_capped(target: Target, now: int, config: ReckonConfig)
    ensures
        0 <= extrapolation(target, now, config) <= config.max_extrapolation,
{
}

/// A stale fix is frozen and shown as a guess, never projected forward.
pub proof fn a_stale_fix_freezes(target: Target, now: int, config: ReckonConfig)
    requires
        target.age > config.max_fix_age,
    ensures
        extrapolation(target, now, config) == 0,
        is_coasting(target, now, config),
{
}

/// A target that stops reporting stays a guess from then on.
pub proof fn coasting_only_ends_with_a_report(
    target: Target,
    now: int,
    later: int,
    config: ReckonConfig,
)
    requires
        now <= later,
        is_coasting(target, now, config),
    ensures
        is_coasting(target, later, config),
{
}

/// Own-ship and traffic are extrapolated alike: given the same report, to the same place.
pub proof fn own_ship_keeps_pace_with_traffic(
    position: LatLon,
    target: Target,
    track: i32,
    speed_kt: u16,
    course: Turn,
    cos_lat: int,
    now: int,
    config: ReckonConfig,
)
    requires
        target.age <= config.max_fix_age,
        target.track_mdeg == Some(track),
        target.ground_speed_kt == Some(speed_kt),
    ensures
        own_drawn_at(
            position,
            Some(course),
            Some(speed_kt * 1000),
            Some(target.received),
            cos_lat,
            now,
            config,
        ) == drawn_at(position, target, course, cos_lat, now, config),
{
}

/// Without a velocity solution, or from a stale fix, a target is drawn where it was reported.
pub proof fn what_is_not_extrapolated_stays_put(
    position: LatLon,
    target: Target,
    course: Turn,
    cos_lat: int,
    now: int,
    config: ReckonConfig,
)
    requires
        target.track_mdeg is None || target.ground_speed_kt is None || target.age
            > config.max_fix_age,
    ensures
        drawn_at(position, target, course, cos_lat, now, config) == position,
{
    standing_still_keeps_the_place(
        position,
        course,
        match target.ground_speed_kt {
            Some(speed) => speed * 1000,
            None => 0,
        },
        0,
        cos_lat,
    );
}

/// A target that says where it goes and how fast, from a fix that is not stale, is carried on for as
/// long as it has been silent, up to the limit, and is a guess from the limit on.
pub proof fn a_silent_target_is_carried_on(target: Target, now: int, config: ReckonConfig)
    requires
        target.track_mdeg is Some,
        target.ground_speed_kt is Some,
        target.age <= config.max_fix_age,
        target.received <= now,
    ensures
        now - target.received <= config.max_extrapolation ==> extrapolation(target, now, config)
            == now - target.received && is_coasting(target, now, config) == target.extrapolated,
        now - target.received > config.max_extrapolation ==> extrapolation(target, now, config)
            == config.max_extrapolation && is_coasting(target, now, config),
{
}

/// A target that does not say where it goes or how fast is drawn where it was, and is a guess only where
/// the receiver says so or the fix is stale.
pub proof fn a_target_without_a_course_stays(target: Target, now: int, config: ReckonConfig)
    requires
        target.track_mdeg is None || target.ground_speed_kt is None,
    ensures
        extrapolation(target, now, config) == 0,
        is_coasting(target, now, config) <==> target.extrapolated || target.age > config.max_fix_age,
{
}

/// A target is carried along its own course at its own speed: drawn where that speed over the ground
/// takes it in the time since its report.
pub proof fn targets_go_their_own_way(
    position: LatLon,
    target: Target,
    speed_kt: u16,
    course: Turn,
    cos_lat: int,
    now: int,
    config: ReckonConfig,
)
    requires
        target.track_mdeg is Some,
        target.ground_speed_kt == Some(speed_kt),
        target.age <= config.max_fix_age,
        target.received <= now <= target.received + config.max_extrapolation,
    ensures
        drawn_at(position, target, course, cos_lat, now, config) == advanced(
            position,
            course,
            1000 * speed_kt,
            now - target.received,
            cos_lat,
        ),
{
}

/// Own-ship is carried on in the same way from its own fix, up to the limit, and stays where it was
/// without a course or a speed or a time of its fix.
pub proof fn own_ship_is_carried_on(
    position: LatLon,
    course: Turn,
    speed_mkt: int,
    received: u64,
    cos_lat: int,
    now: int,
    config: ReckonConfig,
)
    requires
        received <= now,
    ensures
        now - received <= config.max_extrapolation ==> own_drawn_at(
            position,
            Some(course),
            Some(speed_mkt),
            Some(received),
            cos_lat,
            now,
            config,
        ) == advanced(position, course, speed_mkt, now - received, cos_lat),
        now - received > config.max_extrapolation ==> own_drawn_at(
            position,
            Some(course),
            Some(speed_mkt),
            Some(received),
            cos_lat,
            now,
            config,
        ) == advanced(position, course, speed_mkt, config.max_extrapolation as int, cos_lat),
        own_drawn_at(position, None, Some(speed_mkt), Some(received), cos_lat, now, config) == position,
        own_drawn_at(position, Some(course), None, Some(received), cos_lat, now, config) == position,
        own_drawn_at(position, Some(course), Some(speed_mkt), None, cos_lat, now, config) == position,
{
    standing_still_keeps_the_place(position, course, speed_mkt, 0, cos_lat);
}

} // verus!
