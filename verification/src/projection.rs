//! Mapping between geographic positions and screen pixels.
//!
//! A local tangent plane about own-ship, not a real map projection. At the ranges an ADS-B receiver
//! can see (tens of nautical miles), the error from treating the Earth as flat is far below one
//! pixel.
//!
//! Offsets are in billionths of a nautical mile, screen positions in thousandths of a pixel. Sines
//! and cosines come from outside, in billionths.

use vstd::prelude::*;

use vstd::arithmetic::mul::{
    lemma_mul_is_associative, lemma_mul_is_commutative, lemma_mul_is_distributive_add,
    lemma_mul_is_distributive_add_other_way, lemma_mul_is_distributive_sub_other_way,
    lemma_mul_unary_negation,
};

use crate::domain::{held, nearest_e9, LatLon};
use crate::layout::LONGEST_SIDE;

verus! {

/// Which way is up.
#[derive(Debug, Clone, Copy, PartialEq, Eq, Structural)]
pub enum Orientation {
    /// True north at the top of the screen.
    NorthUp,
    /// Own-ship's track at the top of the screen.
    TrackUp,
}

impl Orientation {
    /// The other orientation.
    pub open spec fn other(self) -> Orientation {
        match self {
            Orientation::NorthUp => Orientation::TrackUp,
            Orientation::TrackUp => Orientation::NorthUp,
        }
    }

    pub fn toggled(self) -> (r: Orientation)
        ensures
            r == self.other(),
    {
        match self {
            Orientation::NorthUp => Orientation::TrackUp,
            Orientation::TrackUp => Orientation::NorthUp,
        }
    }

    pub open spec fn name(self) -> Seq<char> {
        match self {
            Orientation::NorthUp => "N-UP"@,
            Orientation::TrackUp => "TRK-UP"@,
        }
    }

    pub fn label(self) -> (r: &'static str)
        ensures
            r@ == self.name(),
    {
        match self {
            Orientation::NorthUp => "N-UP",
            Orientation::TrackUp => "TRK-UP",
        }
    }

    /// How far the world is rotated: own track in track-up, nothing otherwise.
    pub open spec fn turned_by(self, own_track_mdeg: Option<i32>) -> i32 {
        match (self, own_track_mdeg) {
            (Orientation::TrackUp, Some(track)) => track,
            _ => 0,
        }
    }

    /// Thousandths of a degree the world is rotated counter-clockwise.
    ///
    /// Track-up needs a track to rotate by. With no velocity solution (stationary on the ramp, or
    /// no fix) fall back to north-up rather than freezing at a stale heading, which would silently
    /// mislabel every bearing on screen.
    pub fn rotation_mdeg(self, own_track_mdeg: Option<i32>) -> (r: i32)
        ensures
            r == self.turned_by(own_track_mdeg),
    {
        match (self, own_track_mdeg) {
            (Orientation::TrackUp, Some(track)) => track,
            _ => 0,
        }
    }

    /// How far the own-ship symbol is turned on screen: along its track in north-up, never in
    /// track-up, where the world turns instead.
    pub open spec fn symbol_turned_by(self, own_track_mdeg: Option<i32>) -> i32 {
        match (self, own_track_mdeg) {
            (Orientation::NorthUp, Some(track)) => track,
            _ => 0,
        }
    }

    /// Thousandths of a degree the own-ship symbol is turned clockwise from straight up.
    pub fn ownship_rotation_mdeg(self, own_track_mdeg: Option<i32>) -> (r: i32)
        ensures
            r == self.symbol_turned_by(own_track_mdeg),
    {
        match (self, own_track_mdeg) {
            (Orientation::NorthUp, Some(track)) => track,
            _ => 0,
        }
    }
}

// --- arithmetic ----------------------------------------------------------------------------

/// One, as a sine or cosine is held.
pub const UNIT: i64 = 1_000_000_000;

/// A quotient, rounded toward zero.
pub open spec fn part(n: int, d: int) -> int {
    if n >= 0 {
        n / d
    } else {
        -((-n) / d)
    }
}

/// A quotient, rounded toward zero.
pub fn part_of(n: i128, d: i128) -> (r: i128)
    requires
        d > 0,
        n > i128::MIN,
    ensures
        r == part(n as int, d as int),
{
    let size: i128 = if n < 0 {
        -n
    } else {
        n
    };
    proof {
        let (a, b) = (size as int, d as int);
        assert(0 <= a / b <= a) by (nonlinear_arith)
            requires
                a >= 0,
                b >= 1,
        ;
    }
    if n < 0 {
        -(size / d)
    } else {
        size / d
    }
}

/// A quotient, rounded to the nearest whole number, and away from zero between two.
pub open spec fn whole_nearest(n: int, d: int) -> int {
    part(
        2 * n + if n >= 0 {
            d
        } else {
            -d
        },
        2 * d,
    )
}

fn nearest_to(n: i128, d: i128) -> (r: i128)
    requires
        0 < d <= 1_000_000_000_000_000_000_000,
        -50_000_000_000_000_000_000_000_000_000_000_000_000 <= n
            <= 50_000_000_000_000_000_000_000_000_000_000_000_000,
    ensures
        r == whole_nearest(n as int, d as int),
{
    let half: i128 = if n >= 0 {
        d
    } else {
        -d
    };
    part_of(2 * n + half, 2 * d)
}

/// Whether a number is the whole part of a square root.
pub open spec fn is_root(r: int, n: int) -> bool {
    0 <= r && r * r <= n < (r + 1) * (r + 1)
}

/// The whole part of a square root.
pub fn root(n: u128) -> (r: u64)
    requires
        n < 0x4_0000_0000_0000 * 0x4_0000_0000_0000,
    ensures
        is_root(r as int, n as int),
        r < 0x4_0000_0000_0000,
{
    let mut low: u64 = 0;
    let mut high: u64 = 0x4_0000_0000_0000;
    while high - low > 1
        invariant
            low < high <= 0x4_0000_0000_0000,
            low as int * low as int <= n,
            n < high as int * high as int,
        decreases high - low,
    {
        let middle: u64 = low + (high - low) / 2;
        assert(middle as int * middle as int <= 0x4_0000_0000_0000 * 0x4_0000_0000_0000)
            by (nonlinear_arith)
            requires
                0 <= middle as int <= 0x4_0000_0000_0000,
        ;
        if middle as u128 * middle as u128 <= n {
            low = middle;
        } else {
            high = middle;
        }
    }
    assert(high == low + 1);
    low
}

// --- the projection ------------------------------------------------------------------------

/// An angle by its sine and its cosine, in billionths.
#[derive(Debug, Clone, Copy, PartialEq, Eq, Structural)]
pub struct Turn {
    pub sin: i64,
    pub cos: i64,
}

impl Turn {
    pub open spec fn wf(self) -> bool {
        -UNIT <= self.sin <= UNIT && -UNIT <= self.cos <= UNIT
    }

    /// No turn at all.
    pub open spec fn straight() -> Turn {
        Turn { sin: 0, cos: UNIT }
    }
}

/// The point this far from another in a direction, straight up and clockwise.
pub open spec fn point_along(from: (i64, i64), turn: Turn, length: int) -> (int, int) {
    (from.0 + part(turn.sin * length, UNIT as int), from.1 - part(turn.cos * length, UNIT as int))
}

/// How far a length reaches along one axis.
fn reach_along(v: i64, length: i64) -> (r: i64)
    requires
        -UNIT <= v <= UNIT,
        -2_000_000_000 <= length <= 2_000_000_000,
    ensures
        r == part(v * length, UNIT as int),
        -2_000_000_000 <= r <= 2_000_000_000,
{
    assert(-2_000_000_000_000_000_000 <= v * length <= 2_000_000_000_000_000_000)
        by (nonlinear_arith)
        requires
            -1_000_000_000 <= v <= 1_000_000_000,
            -2_000_000_000 <= length <= 2_000_000_000,
    ;
    part_of(v as i128 * length as i128, UNIT as i128) as i64
}

/// The point this far from another in a direction, straight up and clockwise.
pub fn along(from: (i64, i64), turn: Turn, length: i64) -> (r: (i64, i64))
    requires
        turn.wf(),
        -2_000_000_000 <= length <= 2_000_000_000,
        -2_000_000_000 <= from.0 <= 2_000_000_000,
        -2_000_000_000 <= from.1 <= 2_000_000_000,
    ensures
        (r.0 as int, r.1 as int) == point_along(from, turn, length as int),
        -4_000_000_000 <= r.0 <= 4_000_000_000,
        -4_000_000_000 <= r.1 <= 4_000_000_000,
{
    (from.0 + reach_along(turn.sin, length), from.1 - reach_along(turn.cos, length))
}

/// The smallest a cosine of a latitude is taken to be. Latitude 90 would collapse the longitude
/// scale.
pub open spec fn shrink_of(cos_lat: int) -> int {
    if cos_lat < 1_000 {
        1_000
    } else {
        cos_lat
    }
}

fn at_least_some(cos_lat: i64) -> (r: i64)
    ensures
        r == shrink_of(cos_lat as int),
{
    if cos_lat < 1_000 {
        1_000
    } else {
        cos_lat
    }
}

/// Further apart than two places on the ground can be, in billionths of a degree.
pub const FURTHEST: i64 = 4_300_000_000_000;

/// How far one coordinate is past another, in billionths of a degree, held to [`FURTHEST`].
pub open spec fn degrees_between(from: int, to: int) -> int {
    if to - from > FURTHEST {
        FURTHEST as int
    } else if to - from < -FURTHEST {
        -FURTHEST
    } else {
        to - from
    }
}

fn degrees_apart(from: i64, to: i64) -> (r: i64)
    ensures
        r == degrees_between(from as int, to as int),
        -FURTHEST <= r <= FURTHEST,
{
    let apart: i128 = to as i128 - from as i128;
    if apart > FURTHEST as i128 {
        FURTHEST
    } else if apart < -(FURTHEST as i128) {
        -FURTHEST
    } else {
        apart as i64
    }
}

/// How far north of one position another is, in billionths of a nautical mile: a degree of latitude
/// is sixty miles.
pub open spec fn north_between(from: LatLon, to: LatLon) -> int {
    degrees_between(from.lat_e9 as int, to.lat_e9 as int) * 60
}

/// How far east of one position another is, in billionths of a nautical mile. `cos_lat` is the
/// cosine of the first one's latitude.
pub open spec fn east_between(from: LatLon, to: LatLon, cos_lat: int) -> int {
    part(degrees_between(from.lon_e9 as int, to.lon_e9 as int) * 60 * cos_lat, UNIT as int)
}

/// The square of the ground distance between two nearby positions.
pub open spec fn distance_squared(from: LatLon, to: LatLon, cos_lat: int) -> int {
    let (east, north) = (east_between(from, to, cos_lat), north_between(from, to));
    east * east + north * north
}

fn offset_between(from: LatLon, to: LatLon, cos_lat: i64) -> (r: (i64, i64))
    requires
        -UNIT <= cos_lat <= UNIT,
    ensures
        r.0 == east_between(from, to, cos_lat as int),
        r.1 == north_between(from, to),
        -300_000_000_000_000 <= r.0 <= 300_000_000_000_000,
        -300_000_000_000_000 <= r.1 <= 300_000_000_000_000,
{
    let north: i64 = degrees_apart(from.lat_e9, to.lat_e9) * 60;
    let across: i64 = degrees_apart(from.lon_e9, to.lon_e9) * 60;
    proof {
        let (a, c) = (across as int, cos_lat as int);
        assert(-300_000_000_000_000 * 1_000_000_000 <= a * c <= 300_000_000_000_000 * 1_000_000_000)
            by (nonlinear_arith)
            requires
                -300_000_000_000_000 <= a <= 300_000_000_000_000,
                -1_000_000_000 <= c <= 1_000_000_000,
        ;
    }
    let east: i128 = part_of(across as i128 * cos_lat as i128, UNIT as i128);
    (east as i64, north)
}

/// Projects positions around an origin onto screen coordinates.
#[derive(Debug, Clone, Copy)]
pub struct Projection {
    pub origin: LatLon,
    pub center: (i64, i64),
    /// Thousandths of a pixel to the nautical mile.
    pub mpx_per_nm: i64,
    /// Thousandths of a degree the world is rotated counter-clockwise.
    pub rotation_mdeg: i32,
    /// Cosine of the origin's latitude, in billionths.
    pub shrink: i64,
    pub turn: Turn,
}

impl Projection {
    pub open spec fn wf(self) -> bool {
        &&& -4 * LONGEST_SIDE <= self.center.0 <= 4 * LONGEST_SIDE
        &&& -4 * LONGEST_SIDE <= self.center.1 <= 4 * LONGEST_SIDE
        &&& 0 < self.mpx_per_nm <= 1_000_000_000_000
        &&& 1_000 <= self.shrink <= UNIT
        &&& self.turn.wf()
    }

    /// A projection. Track-up turns the world by own-ship's track, if there is one.
    pub open spec fn around(
        origin: LatLon,
        center: (i64, i64),
        mpx_per_nm: i64,
        orientation: Orientation,
        cos_lat: int,
        own_track: Option<(i32, Turn)>,
    ) -> Projection {
        let turned = match (orientation, own_track) {
            (Orientation::TrackUp, Some(track)) => track,
            _ => (0i32, Turn::straight()),
        };
        Projection {
            origin,
            center,
            mpx_per_nm,
            rotation_mdeg: turned.0,
            shrink: shrink_of(cos_lat) as i64,
            turn: turned.1,
        }
    }

    /// Set a projection up. `cos_lat` is the cosine of the origin's latitude; own-ship's track comes
    /// with its sine and cosine.
    ///
    /// Track-up needs a track to rotate by. With no velocity solution (stationary on the ramp, or
    /// no fix) it falls back to north-up rather than freezing at a stale heading, which would
    /// silently mislabel every bearing on screen.
    pub fn new(
        origin: LatLon,
        center: (i64, i64),
        mpx_per_nm: i64,
        orientation: Orientation,
        cos_lat: i64,
        own_track: Option<(i32, Turn)>,
    ) -> (r: Projection)
        requires
            -4 * LONGEST_SIDE <= center.0 <= 4 * LONGEST_SIDE,
            -4 * LONGEST_SIDE <= center.1 <= 4 * LONGEST_SIDE,
            0 < mpx_per_nm <= 1_000_000_000_000,
            cos_lat <= UNIT,
            own_track matches Some(track) ==> track.1.wf(),
        ensures
            r.wf(),
            r == Projection::around(
                origin,
                center,
                mpx_per_nm,
                orientation,
                cos_lat as int,
                own_track,
            ),
    {
        let (rotation_mdeg, turn): (i32, Turn) = match (orientation, own_track) {
            (Orientation::TrackUp, Some(track)) => track,
            _ => (0, Turn { sin: 0, cos: UNIT }),
        };
        Projection {
            origin,
            center,
            mpx_per_nm,
            rotation_mdeg,
            shrink: at_least_some(cos_lat),
            turn,
        }
    }

    pub fn origin(&self) -> (r: LatLon)
        ensures
            r == self.origin,
    {
        self.origin
    }

    /// Where the origin is on screen, in thousandths of a pixel.
    pub fn center_px(&self) -> (r: (i64, i64))
        ensures
            r == self.center,
    {
        self.center
    }

    /// The scale, in thousandths of a pixel to the nautical mile.
    pub fn px_per_nm(&self) -> (r: i64)
        ensures
            r == self.mpx_per_nm,
    {
        self.mpx_per_nm
    }

    /// Rotation actually applied, in thousandths of a degree, which may be nothing even in track-up
    /// if no track was available.
    pub fn rotation_deg(&self) -> (r: i32)
        ensures
            r == self.rotation_mdeg,
    {
        self.rotation_mdeg
    }

    /// How far north of the origin a position is.
    pub open spec fn north_of(self, position: LatLon) -> int {
        north_between(self.origin, position)
    }

    /// How far east of the origin a position is.
    pub open spec fn east_of(self, position: LatLon) -> int {
        east_between(self.origin, position, self.shrink as int)
    }

    /// Offset from the origin, as `(east, north)`, in billionths of a nautical mile.
    pub fn offset_nm(&self, position: LatLon) -> (r: (i64, i64))
        requires
            self.wf(),
        ensures
            r.0 == self.east_of(position),
            r.1 == self.north_of(position),
            -300_000_000_000_000 <= r.0 <= 300_000_000_000_000,
            -300_000_000_000_000 <= r.1 <= 300_000_000_000_000,
    {
        offset_between(self.origin, position, self.shrink)
    }

    /// Where an offset is on screen, across. The rotation puts a target at true bearing `b` at
    /// screen angle `b - rotation`, measured clockwise from straight up.
    pub open spec fn across_of(self, east: int, north: int) -> int {
        self.center.0 + part(
            (east * self.turn.cos - north * self.turn.sin) * self.mpx_per_nm,
            1_000_000_000_000_000_000,
        )
    }

    /// Where an offset is on screen, down. Screen y grows downward, so north is negated.
    pub open spec fn down_of(self, east: int, north: int) -> int {
        self.center.1 - part(
            (north * self.turn.cos + east * self.turn.sin) * self.mpx_per_nm,
            1_000_000_000_000_000_000,
        )
    }

    /// Project an offset to the screen.
    pub fn project_offset(&self, east: i64, north: i64) -> (r: (i64, i64))
        requires
            self.wf(),
            -300_000_000_000_000 <= east <= 300_000_000_000_000,
            -300_000_000_000_000 <= north <= 300_000_000_000_000,
        ensures
            r.0 == self.across_of(east as int, north as int),
            r.1 == self.down_of(east as int, north as int),
    {
        let (e, n): (i128, i128) = (east as i128, north as i128);
        let (sin, cos): (i128, i128) = (self.turn.sin as i128, self.turn.cos as i128);
        let scale: i128 = self.mpx_per_nm as i128;
        proof {
            turned_fits(e as int, cos as int);
            turned_fits(n as int, sin as int);
            turned_fits(n as int, cos as int);
            turned_fits(e as int, sin as int);
            scaled_fits(e as int * cos as int - n as int * sin as int, scale as int);
            scaled_fits(n as int * cos as int + e as int * sin as int, scale as int);
        }
        let x: i128 = part_of((e * cos - n * sin) * scale, 1_000_000_000_000_000_000);
        let y: i128 = part_of((n * cos + e * sin) * scale, 1_000_000_000_000_000_000);
        (self.center.0 + x as i64, self.center.1 - y as i64)
    }

    /// Where a position is on screen.
    pub open spec fn place(self, position: LatLon) -> (int, int) {
        let (east, north) = (self.east_of(position), self.north_of(position));
        (self.across_of(east, north), self.down_of(east, north))
    }

    /// Project a position to the screen.
    pub fn project(&self, position: LatLon) -> (r: (i64, i64))
        requires
            self.wf(),
        ensures
            (r.0 as int, r.1 as int) == self.place(position),
    {
        let (east, north): (i64, i64) = self.offset_nm(position);
        self.project_offset(east, north)
    }

    /// Range from the origin, in billionths of a nautical mile.
    pub fn range(&self, position: LatLon) -> (r: u64)
        requires
            self.wf(),
        ensures
            is_root(
                r as int,
                distance_squared(self.origin, position, self.shrink as int),
            ),
    {
        let (east, north): (i64, i64) = self.offset_nm(position);
        root(squared(east, north))
    }

    /// Whether a position is further from own-ship than so many thousandths of a nautical mile.
    pub fn is_past(&self, position: LatLon, limit_mnm: i64) -> (r: bool)
        requires
            self.wf(),
        ensures
            r == further(self.origin, position, self.shrink as int, limit_mnm as int),
    {
        is_further(self.origin, position, self.shrink, limit_mnm)
    }

    /// Screen angle, in thousandths of a degree clockwise from straight up, of a true bearing or
    /// heading. Heading barbs and ring labels use this, so they follow the same rotation as target
    /// positions.
    pub fn screen_angle_mdeg(&self, true_mdeg: i32) -> (r: i64)
        ensures
            r == true_mdeg - self.rotation_mdeg,
    {
        true_mdeg as i64 - self.rotation_mdeg as i64
    }

    /// A distance on screen.
    pub fn nm_to_px(&self, mnm: u32) -> (r: i64)
        requires
            self.wf(),
        ensures
            r == mnm * self.mpx_per_nm / 1000,
    {
        let scale: i64 = self.mpx_per_nm;
        proof {
            let (m, s) = (mnm as int, scale as int);
            assert(0 <= m * s <= 4_294_967_295 * 1_000_000_000_000) by (nonlinear_arith)
                requires
                    0 <= m <= 4_294_967_295,
                    0 <= s <= 1_000_000_000_000,
            ;
        }
        (mnm as i128 * scale as i128 / 1000) as i64
    }

    /// The offset a point on screen is at, before it is a position: `(east, north)`.
    pub open spec fn offset_under(self, x: int, y: int) -> (int, int) {
        let dx = x - self.center.0;
        let dy = self.center.1 - y;
        (
            part(dx * self.turn.cos + dy * self.turn.sin, self.mpx_per_nm as int),
            part(dy * self.turn.cos - dx * self.turn.sin, self.mpx_per_nm as int),
        )
    }

    /// The position under a point on screen.
    pub open spec fn under(self, x: int, y: int) -> LatLon {
        let (east, north) = self.offset_under(x, y);
        LatLon {
            lat_e9: nearest_e9(self.origin.lat_e9 + part(north, 60)),
            lon_e9: nearest_e9(
                self.origin.lon_e9 + part(east * UNIT, 60 * self.shrink),
            ),
        }
    }

    /// Screen pixels back to a position: the inverse of [`Projection::project`].
    ///
    /// A tap arrives in pixels, and the thing it might have landed on is a polygon in degrees.
    /// Inverting here rather than projecting every boundary vertex costs one transform instead of
    /// thousands.
    pub fn unproject(&self, x: i64, y: i64) -> (r: LatLon)
        requires
            self.wf(),
        ensures
            r == self.under(x as int, y as int),
    {
        let dx: i128 = x as i128 - self.center.0 as i128;
        let dy: i128 = self.center.1 as i128 - y as i128;
        let (sin, cos): (i128, i128) = (self.turn.sin as i128, self.turn.cos as i128);
        proof {
            unturned_fits(dx as int, cos as int);
            unturned_fits(dy as int, sin as int);
            unturned_fits(dy as int, cos as int);
            unturned_fits(dx as int, sin as int);
        }
        let scale: i128 = self.mpx_per_nm as i128;
        let east: i128 = part_of(dx * cos + dy * sin, scale);
        let north: i128 = part_of(dy * cos - dx * sin, scale);
        proof {
            part_is_smaller(dx as int * cos as int + dy as int * sin as int, scale as int);
            part_is_smaller(dy as int * cos as int - dx as int * sin as int, scale as int);
            part_is_smaller(north as int, 60);
            part_is_smaller(east as int * UNIT, 60 * self.shrink as int);
        }
        let up: i128 = part_of(north, 60);
        let along: i128 = part_of(east * UNIT as i128, 60 * self.shrink as i128);
        LatLon {
            lat_e9: held(self.origin.lat_e9 as i128 + up),
            lon_e9: held(self.origin.lon_e9 as i128 + along),
        }
    }
}

proof fn turned_fits(v: int, t: int)
    requires
        -300_000_000_000_000 <= v <= 300_000_000_000_000,
        -1_000_000_000 <= t <= 1_000_000_000,
    ensures
        -300_000_000_000_000_000_000_000 <= v * t <= 300_000_000_000_000_000_000_000,
{
    assert(-300_000_000_000_000_000_000_000 <= v * t <= 300_000_000_000_000_000_000_000)
        by (nonlinear_arith)
        requires
            -300_000_000_000_000 <= v <= 300_000_000_000_000,
            -1_000_000_000 <= t <= 1_000_000_000,
    ;
}

proof fn scaled_fits(v: int, s: int)
    requires
        -600_000_000_000_000_000_000_000 <= v <= 600_000_000_000_000_000_000_000,
        0 < s <= 1_000_000_000_000,
    ensures
        -600_000_000_000_000_000_000_000_000_000_000_000 <= v * s
            <= 600_000_000_000_000_000_000_000_000_000_000_000,
        -600_000_000_000_000_000 <= part(v * s, 1_000_000_000_000_000_000) <= 600_000_000_000_000_000,
{
    assert(-600_000_000_000_000_000_000_000_000_000_000_000 <= v * s
        <= 600_000_000_000_000_000_000_000_000_000_000_000) by (nonlinear_arith)
        requires
            -600_000_000_000_000_000_000_000 <= v <= 600_000_000_000_000_000_000_000,
            0 < s <= 1_000_000_000_000,
    ;
}

proof fn unturned_fits(v: int, t: int)
    requires
        -20_000_000_000_000_000_000 <= v <= 20_000_000_000_000_000_000,
        -1_000_000_000 <= t <= 1_000_000_000,
    ensures
        -20_000_000_000_000_000_000_000_000_000 <= v * t <= 20_000_000_000_000_000_000_000_000_000,
{
    assert(-20_000_000_000_000_000_000_000_000_000 <= v * t
        <= 20_000_000_000_000_000_000_000_000_000) by (nonlinear_arith)
        requires
            -20_000_000_000_000_000_000 <= v <= 20_000_000_000_000_000_000,
            -1_000_000_000 <= t <= 1_000_000_000,
    ;
}

/// A quotient is no further from zero than what was divided, and off by less than one.
pub proof fn part_is_smaller(n: int, d: int)
    requires
        d >= 1,
    ensures
        n >= 0 ==> 0 <= part(n, d) <= n,
        n <= 0 ==> n <= part(n, d) <= 0,
        -d < n - d * part(n, d) < d,
        n >= 0 ==> 0 <= n - d * part(n, d),
        n <= 0 ==> n - d * part(n, d) <= 0,
{
    let size = if n >= 0 {
        n
    } else {
        -n
    };
    let q = size / d;
    vstd::arithmetic::div_mod::lemma_fundamental_div_mod(size, d);
    vstd::arithmetic::div_mod::lemma_mod_bound(size, d);
    assert(0 <= q <= size) by (nonlinear_arith)
        requires
            q == size / d,
            size >= 0,
            d >= 1,
    ;
    assert(d * -q == -(d * q)) by (nonlinear_arith);
}

/// The square of how far away an offset is.
fn squared(east: i64, north: i64) -> (r: u128)
    requires
        -300_000_000_000_000 <= east <= 300_000_000_000_000,
        -300_000_000_000_000 <= north <= 300_000_000_000_000,
    ensures
        r == east as int * east as int + north as int * north as int,
        r <= 2 * 300_000_000_000_000 * 300_000_000_000_000,
{
    let e: u64 = if east < 0 {
        (-east) as u64
    } else {
        east as u64
    };
    let n: u64 = if north < 0 {
        (-north) as u64
    } else {
        north as u64
    };
    proof {
        let (a, b) = (east as int, north as int);
        assert((-a) * (-a) == a * a) by (nonlinear_arith);
        assert((-b) * (-b) == b * b) by (nonlinear_arith);
        let (p, q) = (e as int, n as int);
        assert(0 <= p * p <= 300_000_000_000_000 * 300_000_000_000_000) by (nonlinear_arith)
            requires
                0 <= p <= 300_000_000_000_000,
        ;
        assert(0 <= q * q <= 300_000_000_000_000 * 300_000_000_000_000) by (nonlinear_arith)
            requires
                0 <= q <= 300_000_000_000_000,
        ;
    }
    e as u128 * e as u128 + n as u128 * n as u128
}

/// Straight-line ground distance between two nearby positions, in billionths of a nautical mile.
/// `cos_lat` is the cosine of the first one's latitude.
pub fn ground_distance_nm(from: LatLon, to: LatLon, cos_lat: i64) -> (r: u64)
    requires
        -UNIT <= cos_lat <= UNIT,
    ensures
        is_root(r as int, distance_squared(from, to, cos_lat as int)),
{
    let (east, north): (i64, i64) = offset_between(from, to, cos_lat);
    root(squared(east, north))
}

/// Whether the ground distance between two nearby positions is more than so many thousandths of a
/// nautical mile.
pub fn is_further(from: LatLon, to: LatLon, cos_lat: i64, limit_mnm: i64) -> (r: bool)
    requires
        -UNIT <= cos_lat <= UNIT,
    ensures
        r == further(from, to, cos_lat as int, limit_mnm as int),
{
    let (east, north): (i64, i64) = offset_between(from, to, cos_lat);
    let square: u128 = squared(east, north);
    if limit_mnm < 0 {
        return true;
    }
    let limit: u128 = limit_mnm as u128 * 1_000_000;
    if limit > 1_000_000_000_000_000 {
        proof {
            let l = limit as int;
            assert(l * l >= 1_000_000_000_000_000 * 1_000_000_000_000_000) by (nonlinear_arith)
                requires
                    l >= 1_000_000_000_000_000,
            ;
        }
        return false;
    }
    proof {
        let l = limit as int;
        assert(0 <= l * l <= 1_000_000_000_000_000 * 1_000_000_000_000_000) by (nonlinear_arith)
            requires
                0 <= l <= 1_000_000_000_000_000,
        ;
    }
    square > limit * limit
}

/// Whether the ground distance between two nearby positions is more than a limit.
pub open spec fn further(from: LatLon, to: LatLon, cos_lat: int, limit_mnm: int) -> bool {
    limit_mnm < 0 || distance_squared(from, to, cos_lat) > limit_mnm * 1_000_000 * (limit_mnm
        * 1_000_000)
}

// --- dead reckoning ------------------------------------------------------------------------

/// Where something is after it has moved along a course: so many thousandths of a knot, for so many
/// nanoseconds.
pub open spec fn advanced(
    from: LatLon,
    course: Turn,
    speed_mkt: int,
    elapsed: int,
    cos_lat: int,
) -> LatLon {
    LatLon {
        lat_e9: nearest_e9(
            from.lat_e9 + whole_nearest(speed_mkt * elapsed * course.cos, 216_000_000 * UNIT),
        ),
        lon_e9: nearest_e9(
            from.lon_e9 + whole_nearest(
                speed_mkt * elapsed * course.sin,
                216_000_000 * shrink_of(cos_lat),
            ),
        ),
    }
}

/// Advance a position along a course. `cos_lat` is the cosine of its latitude.
pub fn advance(from: LatLon, course: Turn, speed_mkt: i64, elapsed: u64, cos_lat: i64) -> (r: LatLon)
    requires
        course.wf(),
        -1_000_000_000 <= speed_mkt <= 1_000_000_000,
        cos_lat <= UNIT,
    ensures
        r == advanced(from, course, speed_mkt as int, elapsed as int, cos_lat as int),
{
    proof {
        let (s, t) = (speed_mkt as int, elapsed as int);
        assert(-1_000_000_000 * 0x1_0000_0000_0000_0000 <= s * t
            <= 1_000_000_000 * 0x1_0000_0000_0000_0000) by (nonlinear_arith)
            requires
                -1_000_000_000 <= s <= 1_000_000_000,
                0 <= t < 0x1_0000_0000_0000_0000,
        ;
        course_fits(s * t, course.cos as int);
        course_fits(s * t, course.sin as int);
    }
    let flown: i128 = speed_mkt as i128 * elapsed as i128;
    let shrink: i64 = at_least_some(cos_lat);
    let up: i128 = nearest_to(flown * course.cos as i128, 216_000_000 * UNIT as i128);
    let along: i128 = nearest_to(flown * course.sin as i128, 216_000_000 * shrink as i128);
    proof {
        nearest_is_modest(flown as int * course.cos, 216_000_000 * UNIT);
        nearest_is_modest(flown as int * course.sin, 216_000_000 * shrink);
    }
    LatLon {
        lat_e9: held(from.lat_e9 as i128 + up),
        lon_e9: held(from.lon_e9 as i128 + along),
    }
}

proof fn nearest_is_modest(n: int, d: int)
    requires
        d >= 1,
    ensures
        n >= 0 ==> 0 <= whole_nearest(n, d) <= 2 * n + d,
        n <= 0 ==> 2 * n - d <= whole_nearest(n, d) <= 0 || n == 0,
        n == 0 ==> whole_nearest(n, d) == 0,
{
    part_is_smaller(2 * n + d, 2 * d);
    part_is_smaller(2 * n - d, 2 * d);
    if n == 0 {
        assert(d / (2 * d) == 0) by (nonlinear_arith)
            requires
                d >= 1,
        ;
    }
}

proof fn course_fits(v: int, t: int)
    requires
        -1_000_000_000 * 0x1_0000_0000_0000_0000 <= v <= 1_000_000_000 * 0x1_0000_0000_0000_0000,
        -1_000_000_000 <= t <= 1_000_000_000,
    ensures
        -1_000_000_000_000_000_000 * 0x1_0000_0000_0000_0000 <= v * t <= 1_000_000_000_000_000_000
            * 0x1_0000_0000_0000_0000,
{
    assert(-1_000_000_000_000_000_000 * 0x1_0000_0000_0000_0000 <= v * t
        <= 1_000_000_000_000_000_000 * 0x1_0000_0000_0000_0000) by (nonlinear_arith)
        requires
            -1_000_000_000 * 0x1_0000_0000_0000_0000 <= v <= 1_000_000_000
                * 0x1_0000_0000_0000_0000,
            -1_000_000_000 <= t <= 1_000_000_000,
    ;
}

// --- laws ----------------------------------------------------------------------------------

/// Toggling twice comes back.
pub proof fn toggling_twice_changes_nothing(orientation: Orientation)
    ensures
        orientation.other() != orientation,
        orientation.other().other() == orientation,
{
}

/// The own-ship symbol always points along its track as the world is drawn: what the symbol is
/// turned by and what the world is turned by differ by exactly the track.
pub proof fn own_ship_points_along_its_track(orientation: Orientation, track: i32)
    ensures
        orientation.symbol_turned_by(Some(track)) == track - orientation.turned_by(Some(track)),
{
}

/// Without a track nothing is rotated, whatever is selected.
pub proof fn without_a_track_north_is_up(orientation: Orientation)
    ensures
        orientation.turned_by(None) == 0,
        orientation.symbol_turned_by(None) == 0,
{
}

/// Own-ship is at the centre of the screen, and the centre is where own-ship is.
pub proof fn own_ship_is_at_the_centre(p: Projection)
    requires
        p.wf(),
    ensures
        p.place(p.origin) == (p.center.0 as int, p.center.1 as int),
        p.under(p.center.0 as int, p.center.1 as int) == p.origin,
{
    let (c, s, m) = (p.turn.cos as int, p.turn.sin as int, p.mpx_per_nm as int);
    assert(0 * p.shrink == 0 && 0 * c == 0 && 0 * s == 0 && 0 * m == 0);
    assert(p.east_of(p.origin) == 0 && p.north_of(p.origin) == 0);
    let d = m;
    assert(0int / d == 0) by (nonlinear_arith)
        requires
            d > 0,
    ;
    let e = 60 * p.shrink as int;
    assert(0int / e == 0) by (nonlinear_arith)
        requires
            e > 0,
    ;
}

/// In north-up, straight up the screen is north: how far across a position is does not depend on
/// its latitude, and one further north is never lower.
pub proof fn north_up_puts_north_at_the_top(p: Projection, east: int, north: int, further: int)
    requires
        p.wf(),
        p.turn == Turn::straight(),
        north <= further,
    ensures
        p.across_of(east, north) == p.across_of(east, further),
        p.down_of(east, further) <= p.down_of(east, north),
{
    let m = p.mpx_per_nm as int;
    assert(north * 0 == 0 && further * 0 == 0 && east * 0 == 0);
    assert(north * 1_000_000_000 * m <= further * 1_000_000_000 * m) by (nonlinear_arith)
        requires
            north <= further,
            m > 0,
    ;
    part_grows(north * 1_000_000_000 * m, further * 1_000_000_000 * m, 1_000_000_000_000_000_000);
    assert((north * UNIT + east * 0) * m == north * 1_000_000_000 * m);
    assert((further * UNIT + east * 0) * m == further * 1_000_000_000 * m);
}

/// A larger number has no smaller a part.
pub proof fn part_grows(a: int, b: int, d: int)
    requires
        a <= b,
        d >= 1,
    ensures
        part(a, d) <= part(b, d),
{
    if a >= 0 {
        vstd::arithmetic::div_mod::lemma_div_is_ordered(a, b, d);
    } else if b < 0 {
        vstd::arithmetic::div_mod::lemma_div_is_ordered(-b, -a, d);
    } else {
        part_is_smaller(a, d);
        part_is_smaller(b, d);
    }
}

/// In track-up, whatever is dead ahead is straight up the screen: an offset along the track is
/// exactly above the centre.
pub proof fn track_up_puts_what_is_ahead_at_the_top(p: Projection, distance: int)
    requires
        p.wf(),
        distance >= 0,
    ensures
        p.across_of(distance * p.turn.sin, distance * p.turn.cos) == p.center.0,
        p.down_of(distance * p.turn.sin, distance * p.turn.cos) <= p.center.1,
{
    let (c, s, m) = (p.turn.cos as int, p.turn.sin as int, p.mpx_per_nm as int);
    assert((distance * s) * c - (distance * c) * s == 0) by (nonlinear_arith);
    assert(0 * m == 0);
    assert(((distance * c) * c + (distance * s) * s) * m >= 0) by (nonlinear_arith)
        requires
            distance >= 0,
            m > 0,
    ;
    part_is_smaller(((distance * c) * c + (distance * s) * s) * m, 1_000_000_000_000_000_000);
}

/// How far out a point comes back, of one that was taken to a position and projected again.
pub open spec fn round_trip_slack(p: Projection) -> int {
    p.mpx_per_nm as int / 8_000_000 + 4
}

/// Projecting undoes unprojecting, up to what a position can hold: at up to eight thousand pixels to
/// the mile a point comes back within five thousandths of a pixel. The sine and cosine have to be
/// those of an angle, as near as they can be held, and the point may not lie where positions end, nor
/// further away than positions are told apart.
pub proof fn unproject_inverts_project(p: Projection, x: int, y: int)
    requires
        p.wf(),
        -LONGEST_SIDE <= x - p.center.0 <= LONGEST_SIDE,
        -LONGEST_SIDE <= p.center.1 - y <= LONGEST_SIDE,
        UNIT * UNIT - 2 * UNIT <= p.turn.cos * p.turn.cos + p.turn.sin * p.turn.sin <= UNIT * UNIT
            + 2 * UNIT,
        i64::MIN < p.under(x, y).lat_e9 < i64::MAX,
        i64::MIN < p.under(x, y).lon_e9 < i64::MAX,
        -FURTHEST <= p.under(x, y).lat_e9 - p.origin.lat_e9 <= FURTHEST,
        -FURTHEST <= p.under(x, y).lon_e9 - p.origin.lon_e9 <= FURTHEST,
    ensures
        -round_trip_slack(p) <= p.place(p.under(x, y)).0 - x <= round_trip_slack(p),
        -round_trip_slack(p) <= p.place(p.under(x, y)).1 - y <= round_trip_slack(p),
{
    let (c, s, m) = (p.turn.cos as int, p.turn.sin as int, p.mpx_per_nm as int);
    let (dx, dy) = (x - p.center.0, p.center.1 - y);
    let d = m;
    let a = dx * c + dy * s;
    let b = dy * c - dx * s;
    let (e, n) = (part(a, d), part(b, d));
    part_is_smaller(a, d);
    part_is_smaller(b, d);
    let (r1, r2) = (a - d * e, b - d * n);

    // What a position cannot hold of the offset.
    let u = part(n, 60);
    part_is_smaller(n, 60);
    let sh = p.shrink as int;
    let unit = UNIT as int;
    let v = part(e * unit, 60 * sh);
    part_is_smaller(e * unit, 60 * sh);
    let back = p.under(x, y);
    assert(back.lat_e9 == p.origin.lat_e9 + u);
    assert(back.lon_e9 == p.origin.lon_e9 + v);
    let north = p.north_of(back);
    let east = p.east_of(back);
    assert(north == u * 60);
    assert(v * 60 * sh == (60 * sh) * v) by (nonlinear_arith);
    assert(east == part((60 * sh) * v, unit));
    part_is_smaller((60 * sh) * v, unit);
    let (e1, e2) = (e - east, n - north);
    assert(-60 < e2 < 60);
    assert(e * unit - unit * east == unit * e1) by (nonlinear_arith)
        requires
            e1 == e - east,
    ;
    assert(-61 * unit < unit * e1 < 61 * unit) by {
        assert(60 * sh <= 60 * unit);
    }
    assert(-61 < e1 < 61);

    // And what that makes of the point.
    let across = (east * c - north * s) * m;
    let down = (north * c + east * s) * m;
    turned_back(dx, dy, c, s, m, e, n, r1, r2, e1, e2);
    let q = c * c + s * s;
    part_is_smaller(across, 1_000_000_000_000_000_000);
    part_is_smaller(down, 1_000_000_000_000_000_000);
    let (k1, k2) = (
        (r1 * c - r2 * s) + m * (e1 * c - e2 * s),
        (r2 * c + r1 * s) + m * (e2 * c + e1 * s),
    );
    slack_is_small(r1, r2, e1, e2, c, s, m);
    comes_back(dx, q, k1, m, across, part(across, 1_000_000_000_000_000_000));
    comes_back(dy, q, k2, m, down, part(down, 1_000_000_000_000_000_000));
}

/// Turning there and back multiplies by the square of the turn's length.
proof fn turned_back(
    dx: int,
    dy: int,
    c: int,
    s: int,
    m: int,
    e: int,
    n: int,
    r1: int,
    r2: int,
    e1: int,
    e2: int,
)
    requires
        r1 == dx * c + dy * s - m * e,
        r2 == dy * c - dx * s - m * n,
    ensures
        ((e - e1) * c - (n - e2) * s) * m == dx * (c * c + s * s) - ((r1 * c - r2 * s) + m * (e1 * c
            - e2 * s)),
        ((n - e2) * c + (e - e1) * s) * m == dy * (c * c + s * s) - ((r2 * c + r1 * s) + m * (e2 * c
            + e1 * s)),
{
    let (f, g) = (m * e, m * n);
    let (ec, es, nc, ns) = (e * c, e * s, n * c, n * s);
    let d = m;
    less(e, e1, c);
    less(e, e1, s);
    less(n, e2, c);
    less(n, e2, s);
    lemma_mul_is_associative(d, e, c);
    lemma_mul_is_associative(d, e, s);
    lemma_mul_is_associative(d, n, c);
    lemma_mul_is_associative(d, n, s);
    spread(m, ec, -ns, e1 * c - e2 * s);
    spread(m, nc, es, e2 * c + e1 * s);
    lemma_mul_unary_negation(d, ns);
    // The square of the turn's length.
    assert(f == dx * c + dy * s - r1 && g == dy * c - dx * s - r2);
    sum_of_three(dx * c, dy * s, -r1, c);
    sum_of_three(dx * c, dy * s, -r1, s);
    sum_of_three(dy * c, -(dx * s), -r2, c);
    sum_of_three(dy * c, -(dx * s), -r2, s);
    lemma_mul_is_associative(dx, c, c);
    lemma_mul_is_associative(dx, c, s);
    lemma_mul_is_associative(dx, s, c);
    lemma_mul_is_associative(dx, s, s);
    lemma_mul_is_associative(dy, c, c);
    lemma_mul_is_associative(dy, c, s);
    lemma_mul_is_associative(dy, s, c);
    lemma_mul_is_associative(dy, s, s);
    lemma_mul_is_commutative(c, s);
    lemma_mul_unary_negation(dx * s, c);
    lemma_mul_unary_negation(dx * s, s);
    lemma_mul_unary_negation(r1, c);
    lemma_mul_unary_negation(r1, s);
    lemma_mul_unary_negation(r2, c);
    lemma_mul_unary_negation(r2, s);
    lemma_mul_is_distributive_add(dx, c * c, s * s);
    lemma_mul_is_distributive_add(dy, c * c, s * s);
}

proof fn less(a: int, b: int, t: int)
    ensures
        (a - b) * t == a * t - b * t,
{
    lemma_mul_is_distributive_sub_other_way(t, a, b);
}

proof fn sum_of_three(a: int, b: int, k: int, t: int)
    ensures
        (a + b + k) * t == a * t + b * t + k * t,
{
    lemma_mul_is_distributive_add_other_way(t, a + b, k);
    lemma_mul_is_distributive_add_other_way(t, a, b);
}

proof fn spread(m: int, a: int, b: int, k: int)
    ensures
        ((a + b) - k) * m == m * a + m * b - m * k,
{
    sum_of_three(a, b, -k, m);
    lemma_mul_unary_negation(k, m);
    lemma_mul_is_commutative(a, m);
    lemma_mul_is_commutative(b, m);
    lemma_mul_is_commutative(k, m);
}

proof fn product_is_bounded(v: int, most: int, t: int)
    requires
        -most <= v <= most,
        -1_000_000_000 <= t <= 1_000_000_000,
        most >= 0,
    ensures
        -(most * 1_000_000_000) <= v * t <= most * 1_000_000_000,
{
    assert(-(most * 1_000_000_000) <= v * t <= most * 1_000_000_000) by (nonlinear_arith)
        requires
            -most <= v <= most,
            -1_000_000_000 <= t <= 1_000_000_000,
            most >= 0,
    ;
}

proof fn slack_is_small(r1: int, r2: int, e1: int, e2: int, c: int, s: int, m: int)
    requires
        m >= 1,
        -m <= r1 <= m,
        -m <= r2 <= m,
        -61 <= e1 <= 61,
        -61 <= e2 <= 61,
        -1_000_000_000 <= c <= 1_000_000_000,
        -1_000_000_000 <= s <= 1_000_000_000,
    ensures
        -(m * 124 * 1_000_000_000) <= (r1 * c - r2 * s) + m * (e1 * c - e2 * s) <= m * 124
            * 1_000_000_000,
        -(m * 124 * 1_000_000_000) <= (r2 * c + r1 * s) + m * (e2 * c + e1 * s) <= m * 124
            * 1_000_000_000,
{
    product_is_bounded(r1, m, c);
    product_is_bounded(r2, m, s);
    product_is_bounded(r2, m, c);
    product_is_bounded(r1, m, s);
    product_is_bounded(e1, 61, c);
    product_is_bounded(e2, 61, s);
    product_is_bounded(e2, 61, c);
    product_is_bounded(e1, 61, s);
    let (a, b) = (e1 * c - e2 * s, e2 * c + e1 * s);
    let most = 122 * 1_000_000_000;
    assert(-(m * most) <= m * a <= m * most) by (nonlinear_arith)
        requires
            -most <= a <= most,
            m >= 1,
    ;
    assert(-(m * most) <= m * b <= m * most) by (nonlinear_arith)
        requires
            -most <= b <= most,
            m >= 1,
    ;
}

proof fn comes_back(d: int, q: int, k: int, m: int, n: int, t: int)
    requires
        -1_000_000_000 <= d <= 1_000_000_000,
        -2_000_000_000 <= q - 1_000_000_000_000_000_000 <= 2_000_000_000,
        m >= 1,
        -(m * 124 * 1_000_000_000) <= k <= m * 124 * 1_000_000_000,
        n == d * q - k,
        -1_000_000_000_000_000_000 < n - 1_000_000_000_000_000_000 * t < 1_000_000_000_000_000_000,
    ensures
        -(m / 8_000_000 + 4) <= t - d <= m / 8_000_000 + 4,
{
    let off = q - 1_000_000_000_000_000_000;
    assert(d * q == d * 1_000_000_000_000_000_000 + d * off) by (nonlinear_arith)
        requires
            off == q - 1_000_000_000_000_000_000,
    ;
    assert(-2_000_000_000_000_000_000 <= d * off <= 2_000_000_000_000_000_000) by (nonlinear_arith)
        requires
            -1_000_000_000 <= d <= 1_000_000_000,
            -2_000_000_000 <= off <= 2_000_000_000,
    ;
}

/// Nothing moves in no time, nor at no speed.
pub proof fn standing_still_keeps_the_place(from: LatLon, course: Turn, speed: int, t: int, cos: int)
    requires
        speed == 0 || t == 0,
    ensures
        advanced(from, course, speed, t, cos) == from,
{
    assert(speed * t == 0) by (nonlinear_arith)
        requires
            speed == 0 || t == 0,
    ;
    assert(0 * course.cos == 0 && 0 * course.sin == 0);
    nearest_is_modest(0, 216_000_000 * UNIT);
    nearest_is_modest(0, 216_000_000 * shrink_of(cos));
}

/// A course due north keeps its longitude, whatever the speed.
pub proof fn due_north_keeps_the_longitude(from: LatLon, speed: int, t: int, cos: int)
    ensures
        advanced(from, Turn::straight(), speed, t, cos).lon_e9 == from.lon_e9,
{
    assert(speed * t * 0 == 0) by (nonlinear_arith);
    nearest_is_modest(0, 216_000_000 * UNIT);
    nearest_is_modest(0, 216_000_000 * shrink_of(cos));
}

/// Track-up turns the world by own-ship's track and leaves its symbol upright; north-up leaves the world
/// and turns the symbol. Each is named for what is up.
pub proof fn what_is_up(track: i32)
    ensures
        Orientation::TrackUp.turned_by(Some(track)) == track,
        Orientation::NorthUp.turned_by(Some(track)) == 0,
        Orientation::TrackUp.symbol_turned_by(Some(track)) == 0,
        Orientation::NorthUp.symbol_turned_by(Some(track)) == track,
        Orientation::TrackUp.name() == "TRK-UP"@,
        Orientation::NorthUp.name() == "N-UP"@,
{
}

/// A projection is turned by what its orientation asks for, by the same angle as it says it is, and
/// stands on own-ship.
pub proof fn projections_turn_as_asked(
    origin: LatLon,
    center: (i64, i64),
    mpx_per_nm: i64,
    cos_lat: int,
    track: (i32, Turn),
)
    requires
        cos_lat <= UNIT,
    ensures
        ({
            let north = Projection::around(
                origin,
                center,
                mpx_per_nm,
                Orientation::NorthUp,
                cos_lat,
                Some(track),
            );
            let up = Projection::around(
                origin,
                center,
                mpx_per_nm,
                Orientation::TrackUp,
                cos_lat,
                Some(track),
            );
            let lost = Projection::around(
                origin,
                center,
                mpx_per_nm,
                Orientation::TrackUp,
                cos_lat,
                None,
            );
            &&& north.rotation_mdeg == 0 && north.turn.sin == 0 && north.turn.cos == UNIT
            &&& up.rotation_mdeg == track.0 && up.turn == track.1
            &&& lost == north
            &&& up.origin == origin && up.center == center && up.mpx_per_nm == mpx_per_nm
            &&& cos_lat >= 1_000 ==> up.shrink == cos_lat && north.shrink == cos_lat
            &&& cos_lat < 1_000 ==> up.shrink == 1_000
        }),
{
}

/// With north up the screen is a chart: a mile north is that much up, a mile east as much to the right.
pub proof fn north_up_is_a_chart(p: Projection, miles_east: int, miles_north: int)
    requires
        p.wf(),
        p.turn == Turn::straight(),
    ensures
        p.across_of(1_000_000_000 * miles_east, 1_000_000_000 * miles_north) == p.center.0
            + miles_east * p.mpx_per_nm,
        p.down_of(1_000_000_000 * miles_east, 1_000_000_000 * miles_north) == p.center.1
            - miles_north * p.mpx_per_nm,
{
    let m = p.mpx_per_nm as int;
    let (e, n) = (1_000_000_000 * miles_east, 1_000_000_000 * miles_north);
    assert(n * 0 == 0 && e * 0 == 0);
    assert((e * UNIT - n * 0) * m == (miles_east * m) * 1_000_000_000_000_000_000)
        by (nonlinear_arith)
        requires
            e == 1_000_000_000 * miles_east,
            UNIT == 1_000_000_000,
    ;
    assert((n * UNIT + e * 0) * m == (miles_north * m) * 1_000_000_000_000_000_000)
        by (nonlinear_arith)
        requires
            n == 1_000_000_000 * miles_north,
            UNIT == 1_000_000_000,
    ;
}

/// In track-up, what is abeam is level with own-ship, to the right on the right-hand side of the track
/// and to the left on the left.
pub proof fn track_up_puts_what_is_abeam_at_the_side(p: Projection, distance: int)
    requires
        p.wf(),
    ensures
        p.down_of(distance * p.turn.cos, -distance * p.turn.sin) == p.center.1,
        distance >= 0 ==> p.across_of(distance * p.turn.cos, -distance * p.turn.sin) >= p.center.0,
        distance <= 0 ==> p.across_of(distance * p.turn.cos, -distance * p.turn.sin) <= p.center.0,
{
    let (c, s, m) = (p.turn.cos as int, p.turn.sin as int, p.mpx_per_nm as int);
    assert((-distance * s) * c + (distance * c) * s == 0) by (nonlinear_arith);
    assert(0 * m == 0);
    let whole = ((distance * c) * c - (-distance * s) * s) * m;
    assert(distance >= 0 ==> whole >= 0) by (nonlinear_arith)
        requires
            whole == ((distance * c) * c - (-distance * s) * s) * m,
            m > 0,
    ;
    assert(distance <= 0 ==> whole <= 0) by (nonlinear_arith)
        requires
            whole == ((distance * c) * c - (-distance * s) * s) * m,
            m > 0,
    ;
    part_is_smaller(whole, 1_000_000_000_000_000_000);
}

/// A degree of latitude is sixty miles. A degree of longitude is as many on the equator and shrinks with
/// the cosine of the latitude. North and east are positive, and the way back is the way there reversed.
pub proof fn a_degree_is_sixty_miles(from: LatLon, to: LatLon, cos_lat: int)
    requires
        -FURTHEST <= to.lat_e9 - from.lat_e9 <= FURTHEST,
        -FURTHEST <= to.lon_e9 - from.lon_e9 <= FURTHEST,
        0 <= cos_lat <= 1_000_000_000,
    ensures
        north_between(from, to) == 60 * (to.lat_e9 - from.lat_e9),
        cos_lat == 1_000_000_000 ==> east_between(from, to, cos_lat) == 60 * (to.lon_e9
            - from.lon_e9),
        -1_000_000_000 < 60 * (to.lon_e9 - from.lon_e9) * cos_lat - 1_000_000_000 * east_between(
            from,
            to,
            cos_lat,
        ) < 1_000_000_000,
        to.lon_e9 >= from.lon_e9 ==> east_between(from, to, cos_lat) >= 0,
        to.lon_e9 <= from.lon_e9 ==> east_between(from, to, cos_lat) <= 0,
        north_between(to, from) == -north_between(from, to),
        east_between(to, from, cos_lat) == -east_between(from, to, cos_lat),
{
    let d = to.lon_e9 - from.lon_e9;
    part_is_smaller(d * 60 * cos_lat, UNIT as int);
    assert(d * 60 * cos_lat == 60 * d * cos_lat) by (nonlinear_arith);
    assert((-d) * 60 * cos_lat == -(d * 60 * cos_lat)) by (nonlinear_arith);
    assert(d >= 0 ==> d * 60 * cos_lat >= 0) by (nonlinear_arith)
        requires
            cos_lat >= 0,
    ;
    assert(d <= 0 ==> d * 60 * cos_lat <= 0) by (nonlinear_arith)
        requires
            cos_lat >= 0,
    ;
    if cos_lat == 1_000_000_000 {
        assert(d * 60 * cos_lat == (60 * d) * 1_000_000_000) by (nonlinear_arith)
            requires
                cos_lat == 1_000_000_000,
        ;
    }
}

/// Distance is the same both ways, nothing to where one is, and along a meridian all in latitude.
pub proof fn distances_are_the_same_both_ways(from: LatLon, to: LatLon, cos_lat: int)
    requires
        -FURTHEST <= to.lat_e9 - from.lat_e9 <= FURTHEST,
        -FURTHEST <= to.lon_e9 - from.lon_e9 <= FURTHEST,
        0 <= cos_lat <= 1_000_000_000,
    ensures
        distance_squared(from, to, cos_lat) == distance_squared(to, from, cos_lat),
        distance_squared(from, from, cos_lat) == 0,
        to.lon_e9 == from.lon_e9 ==> distance_squared(from, to, cos_lat) == (60 * (to.lat_e9
            - from.lat_e9)) * (60 * (to.lat_e9 - from.lat_e9)),
        distance_squared(from, to, cos_lat) >= 0,
{
    a_degree_is_sixty_miles(from, to, cos_lat);
    a_degree_is_sixty_miles(from, from, cos_lat);
    let (e, n) = (east_between(from, to, cos_lat), north_between(from, to));
    assert((-e) * (-e) == e * e && (-n) * (-n) == n * n && e * e >= 0 && n * n >= 0)
        by (nonlinear_arith);
    assert(0int * 0 == 0);
    if to.lon_e9 == from.lon_e9 {
        assert(0 * 60 * cos_lat == 0) by (nonlinear_arith);
    }
}

/// A knot is a mile an hour: an hour due north at so many knots is that many minutes of latitude, and an
/// hour due east on the equator that many of longitude. At a latitude whose cosine is a half, it is twice
/// as many.
pub proof fn a_knot_is_a_mile_an_hour(from: LatLon, knots: int)
    requires
        0 <= knots <= 10_000,
        -1_000_000_000_000 <= from.lat_e9 <= 1_000_000_000_000,
        -1_000_000_000_000 <= from.lon_e9 <= 1_000_000_000_000,
    ensures
        ({
            let hour = 3_600_000_000_000int;
            let north = advanced(from, Turn { sin: 0, cos: 1_000_000_000 }, 1000 * knots, hour, 500_000_000);
            let east = advanced(from, Turn { sin: 1_000_000_000, cos: 0 }, 1000 * knots, hour, 1_000_000_000);
            let far = advanced(from, Turn { sin: 1_000_000_000, cos: 0 }, 1000 * knots, hour, 500_000_000);
            &&& north.lon_e9 == from.lon_e9 && east.lat_e9 == from.lat_e9
            &&& -30 <= 60 * (north.lat_e9 - from.lat_e9) - 1_000_000_000 * knots <= 30
            &&& -30 <= 60 * (east.lon_e9 - from.lon_e9) - 1_000_000_000 * knots <= 30
            &&& -30 <= 60 * (far.lon_e9 - from.lon_e9) - 2_000_000_000 * knots <= 30
        }),
{
    let n = 1000 * knots * 3_600_000_000_000;
    assert(n * 0 == 0);
    assert(n * 1_000_000_000 == (50_000_000 * knots) * 72_000_000_000_000_000);
    assert(216_000_000 * UNIT == 216_000_000_000_000_000);
    assert(216_000_000 * shrink_of(500_000_000) == 108_000_000_000_000_000);
    assert(216_000_000 * shrink_of(1_000_000_000) == 216_000_000_000_000_000);
    assert(whole_nearest(0, 216_000_000_000_000_000) == 0);
    assert(whole_nearest(0, 108_000_000_000_000_000) == 0);
}

/// Moving goes the way of the course: north where its cosine is positive, east where its sine is, and
/// the other way where they are negative.
pub proof fn moving_goes_the_way_of_the_course(
    from: LatLon,
    course: Turn,
    speed_mkt: int,
    elapsed: int,
    cos_lat: int,
)
    requires
        0 <= speed_mkt,
        0 <= elapsed,
    ensures
        ({
            let to = advanced(from, course, speed_mkt, elapsed, cos_lat);
            &&& course.cos >= 0 ==> to.lat_e9 >= from.lat_e9
            &&& course.cos <= 0 ==> to.lat_e9 <= from.lat_e9
            &&& course.sin >= 0 ==> to.lon_e9 >= from.lon_e9
            &&& course.sin <= 0 ==> to.lon_e9 <= from.lon_e9
        }),
{
    let gone = speed_mkt * elapsed;
    let (c, s) = (course.cos as int, course.sin as int);
    assert(gone >= 0) by (nonlinear_arith)
        requires
            gone == speed_mkt * elapsed,
            speed_mkt >= 0,
            elapsed >= 0,
    ;
    assert((c >= 0 ==> gone * c >= 0) && (c <= 0 ==> gone * c <= 0)) by (nonlinear_arith)
        requires
            gone >= 0,
    ;
    assert((s >= 0 ==> gone * s >= 0) && (s <= 0 ==> gone * s <= 0)) by (nonlinear_arith)
        requires
            gone >= 0,
    ;
    rounding_keeps_the_side(gone * c, 216_000_000 * UNIT);
    rounding_keeps_the_side(gone * s, 216_000_000 * shrink_of(cos_lat));
}

proof fn rounding_keeps_the_side(n: int, d: int)
    requires
        d > 0,
    ensures
        n >= 0 ==> whole_nearest(n, d) >= 0,
        n <= 0 ==> whole_nearest(n, d) <= 0,
{
    if n >= 0 {
        part_is_smaller(2 * n + d, 2 * d);
    } else {
        part_is_smaller(2 * n - d, 2 * d);
    }
    assert(d / (2 * d) == 0) by (nonlinear_arith)
        requires
            d > 0,
    ;
}

/// A point along a direction is that far from where it starts: straight up for no turn, to the right for
/// a quarter turn.
pub proof fn points_lie_along_their_direction(from: (i64, i64), length: int)
    ensures
        point_along(from, Turn { sin: 0, cos: 1_000_000_000 }, length) == (
            from.0 as int,
            from.1 - length,
        ),
        point_along(from, Turn { sin: 1_000_000_000, cos: 0 }, length) == (
            from.0 + length,
            from.1 as int,
        ),
        point_along(from, Turn { sin: 0, cos: -1_000_000_000i64 }, length) == (
            from.0 as int,
            from.1 + length,
        ),
{
    assert(0 * length == 0);
    assert(-1_000_000_000 * length == -(1_000_000_000 * length));
    assert(UNIT == 1_000_000_000);
}

/// Further than so many miles begins past them: a position due north at exactly that distance is not
/// further, one a billionth of a degree beyond it is, and nothing is within less than none.
pub proof fn further_begins_past_the_limit(from: LatLon, to: LatLon, cos_lat: int, miles: int)
    requires
        0 <= miles <= 60_000,
        0 <= cos_lat <= 1_000_000_000,
        from.lon_e9 == to.lon_e9,
        0 <= to.lat_e9 - from.lat_e9 <= FURTHEST,
    ensures
        60 * (to.lat_e9 - from.lat_e9) <= 1_000_000_000 * miles <==> !further(
            from,
            to,
            cos_lat,
            1000 * miles,
        ),
        further(from, to, cos_lat, -1),
{
    distances_are_the_same_both_ways(from, to, cos_lat);
    let d = 60 * (to.lat_e9 - from.lat_e9);
    let l = 1000 * miles * 1_000_000;
    assert(d * d > l * l <==> d > l) by (nonlinear_arith)
        requires
            d >= 0,
            l >= 0,
    ;
}

} // verus!
