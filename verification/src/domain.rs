//! What the receiver reports, as the display holds it.
//!
//! Times are in nanoseconds since the program started. Positions are in billionths of a degree,
//! directions in thousandths of a degree clockwise from true north.

use vstd::prelude::*;

use crate::projection::{part, part_of};

verus! {

/// A position on the ground, in billionths of a degree: north and east are positive.
#[derive(Debug, Clone, Copy, PartialEq, Eq, Structural)]
pub struct LatLon {
    pub lat_e9: i64,
    pub lon_e9: i64,
}

impl LatLon {
    /// The latitude in whole millionths of a degree, cut off towards nothing.
    pub open spec fn lat_e6(self) -> int {
        part(self.lat_e9 as int, 1000)
    }

    /// The longitude in whole millionths of a degree, cut off towards nothing.
    pub open spec fn lon_e6(self) -> int {
        part(self.lon_e9 as int, 1000)
    }

    /// The position at whole millionths of a degree.
    pub open spec fn at_millionths(lat_e6: int, lon_e6: int) -> LatLon {
        LatLon { lat_e9: (lat_e6 * 1000) as i64, lon_e9: (lon_e6 * 1000) as i64 }
    }

    /// The position at whole millionths of a degree.
    pub fn from_millionths(lat_e6: i32, lon_e6: i32) -> (r: LatLon)
        ensures
            r == LatLon::at_millionths(lat_e6 as int, lon_e6 as int),
    {
        LatLon { lat_e9: lat_e6 as i64 * 1000, lon_e9: lon_e6 as i64 * 1000 }
    }

    /// Latitude and longitude in whole millionths of a degree.
    pub fn millionths(self) -> (r: (i64, i64))
        ensures
            r.0 == self.lat_e6(),
            r.1 == self.lon_e6(),
            -9_300_000_000_000_000 <= r.0 <= 9_300_000_000_000_000,
            -9_300_000_000_000_000 <= r.1 <= 9_300_000_000_000_000,
    {
        (part_of(self.lat_e9 as i128, 1000) as i64, part_of(self.lon_e9 as i128, 1000) as i64)
    }
}

/// The nearest coordinate a position can hold, in billionths of a degree.
pub open spec fn nearest_e9(e9: int) -> i64 {
    if e9 < i64::MIN {
        i64::MIN
    } else if e9 > i64::MAX {
        i64::MAX
    } else {
        e9 as i64
    }
}

/// The nearest coordinate a position can hold.
pub fn held(e9: i128) -> (r: i64)
    ensures
        r == nearest_e9(e9 as int),
{
    if e9 < i64::MIN as i128 {
        i64::MIN
    } else if e9 > i64::MAX as i128 {
        i64::MAX
    } else {
        e9 as i64
    }
}

/// Nanoseconds in a second.
pub const SECOND: u64 = 1_000_000_000;

/// The nearest coordinate the edge of a box can hold, in millionths of a degree.
pub open spec fn nearest_coordinate(e6: int) -> i32 {
    if e6 < i32::MIN {
        i32::MIN
    } else if e6 > i32::MAX {
        i32::MAX
    } else {
        e6 as i32
    }
}

/// The nearest coordinate the edge of a box can hold.
pub fn clamped(e6: i128) -> (r: i32)
    ensures
        r == nearest_coordinate(e6 as int),
{
    if e6 < i32::MIN as i128 {
        i32::MIN
    } else if e6 > i32::MAX as i128 {
        i32::MAX
    } else {
        e6 as i32
    }
}

/// How long after `earlier` a moment is; zero if it is not after.
pub open spec fn time_since(now: int, earlier: int) -> int {
    if now > earlier {
        now - earlier
    } else {
        0
    }
}

/// How long after `earlier` a moment is; zero if it is not after.
pub fn elapsed(now: u64, earlier: u64) -> (r: u64)
    ensures
        r == time_since(now as int, earlier as int),
{
    if now > earlier {
        now - earlier
    } else {
        0
    }
}

/// One aircraft, vehicle or obstacle the receiver hears.
#[derive(Debug, Clone, Copy, PartialEq, Eq, Structural)]
pub struct Target {
    pub icao: u32,
    /// Where it last said it was. `None` for Mode-S only, and before the first position report.
    pub position: Option<LatLon>,
    /// Pressure altitude, in feet.
    pub altitude_ft: Option<i32>,
    pub on_ground: bool,
    pub track_mdeg: Option<i32>,
    pub ground_speed_kt: Option<u16>,
    pub vertical_speed_fpm: Option<i16>,
    /// GDL90 emitter category.
    pub emitter_category: u8,
    /// The receiver is already extrapolating this one.
    pub extrapolated: bool,
    /// How old the last real fix was when it was reported.
    pub age: u64,
    /// When the report arrived.
    pub received: u64,
}

/// The kinds of text product FIS-B carries.
#[derive(Debug, Clone, Copy, PartialEq, Eq, Structural)]
pub enum WeatherProduct {
    Metar,
    Taf,
    Sigmet,
    Airmet,
    Pirep,
    Winds,
    Notam,
    Other,
}

/// One text product, as received.
#[derive(Debug, PartialEq, Eq)]
pub struct WeatherText {
    pub product: WeatherProduct,
    /// The station or area it is about. May be empty.
    pub location: String,
    pub body: String,
    /// When it arrived.
    pub received: u64,
}

/// Which radar product a block belongs to.
#[derive(Debug, Clone, Copy, PartialEq, Eq, Structural)]
pub enum NexradKind {
    Regional,
    Conus,
}

/// Bins across a radar block.
pub const BINS_X: usize = 32;

/// Bins down a radar block.
pub const BINS_Y: usize = 4;

/// Bins in a radar block.
pub const BIN_COUNT: usize = 128;

/// One block of radar: a grid of intensities over a box, the first bin in its north-west corner.
/// Positions and sizes are in billionths of a degree.
#[derive(Debug, PartialEq, Eq)]
pub struct NexradBlock {
    pub kind: NexradKind,
    pub lat_north: i64,
    pub lon_west: i64,
    pub height: i64,
    pub width: i64,
    pub bins: Vec<u8>,
    /// When it arrived.
    pub received: u64,
}

impl NexradBlock {
    /// Whether a block is somewhere near the Earth and no larger than it.
    pub open spec fn wf(self) -> bool {
        &&& -1_000_000_000_000 <= self.lat_north <= 1_000_000_000_000
        &&& -1_000_000_000_000 <= self.lon_west <= 1_000_000_000_000
        &&& 0 <= self.height <= 1_000_000_000_000
        &&& 0 <= self.width <= 1_000_000_000_000
    }
}

/// What the attitude sensor reports. Angles are in thousandths of a degree.
#[derive(Debug, Clone, Copy, PartialEq, Eq, Structural)]
pub struct Ahrs {
    /// Positive nose-up.
    pub pitch_mdeg: Option<i32>,
    /// Positive right wing down.
    pub roll_mdeg: Option<i32>,
    pub slip_skid_mdeg: Option<i32>,
    pub mag_heading_mdeg: Option<i32>,
    pub gyro_heading_mdeg: Option<i32>,
    /// Thousandths of a G.
    pub g_load_mg: Option<i32>,
    /// Zero when no module is present.
    pub status: u8,
    pub received: Option<u64>,
}

impl Ahrs {
    /// A sensor that has never reported.
    pub open spec fn silent() -> Ahrs {
        Ahrs {
            pitch_mdeg: None,
            roll_mdeg: None,
            slip_skid_mdeg: None,
            mag_heading_mdeg: None,
            gyro_heading_mdeg: None,
            g_load_mg: None,
            status: 0,
            received: None,
        }
    }

    /// Pitch and roll, if there is a module and it reports both.
    pub open spec fn reading(self) -> Option<(i32, i32)> {
        match (self.pitch_mdeg, self.roll_mdeg) {
            (Some(pitch), Some(roll)) if self.status != 0 => Some((pitch, roll)),
            _ => None,
        }
    }

    /// Pitch and roll, if there is a module and it reports both.
    ///
    /// A receiver with no module reports zero pitch and zero roll, which is indistinguishable from
    /// wings level unless the status word is consulted.
    pub fn attitude(&self) -> (r: Option<(i32, i32)>)
        ensures
            r == self.reading(),
    {
        if self.status == 0 {
            return None;
        }
        match (self.pitch_mdeg, self.roll_mdeg) {
            (Some(pitch), Some(roll)) => Some((pitch, roll)),
            _ => None,
        }
    }

    /// Whether a reading is older than a time; one of no known age is.
    pub open spec fn older_than(self, now: int, limit: int) -> bool {
        match self.received {
            Some(received) => time_since(now, received as int) > limit,
            None => true,
        }
    }

    /// Whether a reading is older than a time; one of no known age is.
    pub fn is_stale(&self, now: u64, limit: u64) -> (r: bool)
        ensures
            r == self.older_than(now as int, limit as int),
    {
        match self.received {
            Some(received) => elapsed(now, received) > limit,
            None => true,
        }
    }
}

impl Default for Ahrs {
    fn default() -> (r: Ahrs)
        ensures
            r == Ahrs::silent(),
    {
        Ahrs {
            pitch_mdeg: None,
            roll_mdeg: None,
            slip_skid_mdeg: None,
            mag_heading_mdeg: None,
            gyro_heading_mdeg: None,
            g_load_mg: None,
            status: 0,
            received: None,
        }
    }
}

// --- laws ----------------------------------------------------------------------------------

/// Time since a moment runs as the clock does, and is nothing before it: waiting longer adds exactly the
/// wait.
pub proof fn time_runs_forward(now: int, later: int, earlier: int)
    requires
        now <= later,
    ensures
        time_since(earlier, earlier) == 0,
        now <= earlier ==> time_since(now, earlier) == 0,
        earlier <= now ==> time_since(later, earlier) == time_since(now, earlier) + (later - now),
        0 <= time_since(now, earlier) <= time_since(later, earlier),
{
}

/// A reading is old once it has been silent for longer than the limit, not at the limit, and one that
/// was never heard is old.
pub proof fn readings_grow_old(ahrs: Ahrs, now: int, limit: int)
    requires
        limit >= 0,
    ensures
        ahrs.received matches Some(received) ==> (ahrs.older_than(now, limit) <==> now - received
            > limit),
        ahrs.received is None ==> ahrs.older_than(now, limit),
        ahrs.reading() is Some <==> ahrs.status != 0 && ahrs.pitch_mdeg is Some && ahrs.roll_mdeg
            is Some,
        ahrs.reading() is Some ==> ahrs.reading() == Some((ahrs.pitch_mdeg->0, ahrs.roll_mdeg->0)),
        Ahrs::silent().reading() is None,
        Ahrs::silent().older_than(now, limit),
{
}

/// Millionths of a degree and back again are the same place, and a place in between is within one of
/// them, on the side of nought.
pub proof fn millionths_read_back(lat_e6: int, lon_e6: int, place: LatLon)
    requires
        -1_000_000_000 <= lat_e6 <= 1_000_000_000,
        -1_000_000_000 <= lon_e6 <= 1_000_000_000,
    ensures
        LatLon::at_millionths(lat_e6, lon_e6).lat_e6() == lat_e6,
        LatLon::at_millionths(lat_e6, lon_e6).lon_e6() == lon_e6,
        LatLon::at_millionths(lat_e6, lon_e6).lat_e9 == 1000 * lat_e6,
        LatLon::at_millionths(lat_e6, lon_e6).lon_e9 == 1000 * lon_e6,
        -1000 < place.lat_e9 - 1000 * place.lat_e6() < 1000,
        -1000 < place.lon_e9 - 1000 * place.lon_e6() < 1000,
        place.lat_e9 >= 0 ==> place.lat_e6() >= 0,
        place.lat_e9 <= 0 ==> place.lat_e6() <= 0,
{
}

} // verus!
