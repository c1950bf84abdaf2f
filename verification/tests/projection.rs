use avionics::domain::LatLon;
use avionics::projection::{advance, ground_distance_nm, root, Orientation, Projection, Turn, UNIT};

/// An angle in degrees, by its sine and cosine.
fn turn(deg: f64) -> Turn {
    let (sin, cos) = deg.to_radians().sin_cos();
    Turn {
        sin: (sin * UNIT as f64).round() as i64,
        cos: (cos * UNIT as f64).round() as i64,
    }
}

fn cosine(lat: f64) -> i64 {
    (lat.to_radians().cos() * UNIT as f64).round() as i64
}

fn position(lat: f64, lon: f64) -> LatLon {
    LatLon {
        lat_e9: (lat * 1e9).round() as i64,
        lon_e9: (lon * 1e9).round() as i64,
    }
}

const LAT: f64 = 39.9088;
const LON: f64 = -105.1172;
const CENTER: (i64, i64) = (400_000, 250_000);
/// 10 px per nautical mile: a 20 nm ring in 200 px.
const MPX_PER_NM: i64 = 10_000;

fn origin() -> LatLon {
    position(LAT, LON)
}

fn around(orientation: Orientation, track: Option<f64>) -> Projection {
    Projection::new(
        origin(),
        CENTER,
        MPX_PER_NM,
        orientation,
        cosine(LAT),
        track.map(|deg| ((deg * 1000.0) as i32, turn(deg))),
    )
}

/// A position `range_nm` away from the origin on the given true bearing.
fn at_bearing(bearing_deg: f64, range_nm: f64) -> LatLon {
    advance(
        origin(),
        turn(bearing_deg),
        (range_nm * 3_600_000.0) as i64,
        1_000_000_000,
        cosine(LAT),
    )
}

fn px(p: (i64, i64)) -> (f64, f64) {
    (p.0 as f64 / 1000.0, p.1 as f64 / 1000.0)
}

#[test]
fn north_up_puts_north_at_the_top_and_east_to_the_right() {
    let p = around(Orientation::NorthUp, Some(43.0));
    let center = px(CENTER);

    let (nx, ny) = px(p.project(at_bearing(0.0, 5.0)));
    assert!((nx - center.0).abs() < 1.0, "due north should be directly above");
    assert!(ny < center.1 - 40.0, "due north should be above centre");

    let (ex, ey) = px(p.project(at_bearing(90.0, 5.0)));
    assert!(ex > center.0 + 40.0, "due east should be to the right");
    assert!((ey - center.1).abs() < 1.0, "due east should be level");

    // In north-up the own-ship track must not rotate the world.
    assert_eq!(p.rotation_mdeg, 0);
}

#[test]
fn track_up_puts_whatever_is_ahead_at_the_top() {
    // Own-ship tracking 043; a target dead ahead is on bearing 043 and must appear straight up.
    let p = around(Orientation::TrackUp, Some(43.0));
    let center = px(CENTER);
    let (x, y) = px(p.project(at_bearing(43.0, 5.0)));

    assert!((x - center.0).abs() < 1.5, "target ahead should be directly above, x={x}");
    assert!(y < center.1 - 40.0, "target ahead should be above centre");

    // And something behind must appear below.
    let (_, behind_y) = px(p.project(at_bearing(43.0 + 180.0, 5.0)));
    assert!(behind_y > center.1 + 40.0);
}

#[test]
fn track_up_falls_back_to_north_up_without_a_track() {
    // Stationary on the ramp there is no usable track. Rotating by a stale or zero heading would
    // silently mislabel every bearing on screen, so the projection must decline to rotate.
    let p = around(Orientation::TrackUp, None);
    let center = px(CENTER);
    assert_eq!(p.rotation_mdeg, 0);

    let (x, y) = px(p.project(at_bearing(0.0, 5.0)));
    assert!((x - center.0).abs() < 1.0);
    assert!(y < center.1);
}

#[test]
fn range_and_bearing_round_trip() {
    let p = around(Orientation::NorthUp, None);
    for (bearing, range) in [(0.0, 1.0), (90.0, 7.5), (217.0, 18.0), (359.0, 40.0)] {
        let at = at_bearing(bearing, range);
        let got_range = p.range(at) as f64 / 1e9;
        assert!((got_range - range).abs() < 0.02, "range {range} -> {got_range}");
        let (east, north) = p.offset_nm(at);
        let got_bearing = (east as f64).atan2(north as f64).to_degrees().rem_euclid(360.0);
        let error = ((got_bearing - bearing + 540.0) % 360.0 - 180.0).abs();
        assert!(error < 0.2, "bearing {bearing} -> {got_bearing}");
    }
}

#[test]
fn scale_is_linear_in_range() {
    let p = around(Orientation::NorthUp, None);
    let center = px(CENTER);
    let near = px(p.project(at_bearing(0.0, 5.0)));
    let far = px(p.project(at_bearing(0.0, 10.0)));
    let near_px = center.1 - near.1;
    let far_px = center.1 - far.1;
    assert!(
        (far_px / near_px - 2.0).abs() < 0.02,
        "doubling range should double pixel offset: {near_px} vs {far_px}"
    );
    assert_eq!(p.nm_to_px(3_000), 30_000);
}

#[test]
fn rotation_is_consistent_between_positions_and_screen_angles() {
    // Heading barbs are drawn with the screen angle while positions come from project(); if the two
    // disagree, every barb points somewhere plausible but wrong.
    let p = around(Orientation::TrackUp, Some(120.0));
    let center = px(CENTER);
    for bearing in [0.0f64, 45.0, 137.0, 250.0, 355.0] {
        let (x, y) = px(p.project(at_bearing(bearing, 6.0)));
        let angle = (p.screen_angle_mdeg((bearing * 1000.0) as i32) as f64 / 1000.0).to_radians();
        let expected_x = center.0 + angle.sin() * 6.0 * 10.0;
        let expected_y = center.1 - angle.cos() * 6.0 * 10.0;
        assert!(
            (x - expected_x).abs() < 1.5 && (y - expected_y).abs() < 1.5,
            "bearing {bearing}: project=({x:.1},{y:.1}) angle=({expected_x:.1},{expected_y:.1})"
        );
    }
}

#[test]
fn advance_moves_the_expected_distance_in_the_expected_direction() {
    // 120 kt for 30 s is 1 nm.
    let north = advance(origin(), turn(0.0), 120_000, 30_000_000_000, cosine(LAT));
    assert!(north.lat_e9 > origin().lat_e9);
    assert_eq!(north.lon_e9, origin().lon_e9);
    let moved = (north.lat_e9 - origin().lat_e9) as f64 / 1e9 * 60.0;
    assert!((moved - 1.0).abs() < 1e-6, "moved {moved} nm");

    let east = advance(origin(), turn(90.0), 120_000, 30_000_000_000, cosine(LAT));
    assert!(east.lon_e9 > origin().lon_e9);
    assert_eq!(east.lat_e9, origin().lat_e9);
}

fn probe(orientation: Orientation, track: Option<f64>) -> Projection {
    Projection::new(
        position(40.7784, -74.3343),
        (400_000, 240_000),
        18_750,
        orientation,
        cosine(40.7784),
        track.map(|deg| ((deg * 1000.0) as i32, turn(deg))),
    )
}

#[test]
fn unproject_inverts_project_in_both_orientations() {
    // A tap arrives in pixels and the polygon it might have hit is in degrees, so this has to be
    // exact enough that a point near a boundary lands on the right side of it. Half a pixel at the
    // tightest range is about 10 m; the tolerance below is far inside that.
    for (orientation, track) in [
        (Orientation::NorthUp, None),
        (Orientation::NorthUp, Some(42.0)),
        (Orientation::TrackUp, Some(42.0)),
        (Orientation::TrackUp, Some(287.0)),
        (Orientation::TrackUp, None),
    ] {
        let p = probe(orientation, track);
        for (x, y) in [
            (400_000, 240_000),
            (120_000, 90_000),
            (700_000, 430_000),
            (401_500, 239_500),
        ] {
            let back = p.project(p.unproject(x, y));
            assert!(
                (back.0 - x).abs() < 10 && (back.1 - y).abs() < 10,
                "{orientation:?} track {track:?}: ({x}, {y}) -> ({}, {})",
                back.0,
                back.1
            );
        }
    }
}

#[test]
fn unprojecting_the_centre_gives_own_ship() {
    let p = probe(Orientation::TrackUp, Some(200.0));
    assert_eq!(p.unproject(400_000, 240_000), p.origin);
}

#[test]
fn a_point_above_the_centre_is_north_in_north_up() {
    let p = probe(Orientation::NorthUp, None);
    let above = p.unproject(400_000, 240_000 - 18_750); // one nautical mile up the screen
    assert!(above.lat_e9 > p.origin.lat_e9, "up the screen should be north");
    assert_eq!(above.lon_e9, p.origin.lon_e9, "and not east or west");
    let moved = (above.lat_e9 - p.origin.lat_e9) as f64 / 1e9 * 60.0;
    assert!((moved - 1.0).abs() < 1e-6, "one nm");
}

#[test]
fn range_between_two_known_fields_is_right() {
    // Morristown to Newark.
    let mmu = position(40.799, -74.415);
    let ewr = position(40.692, -74.169);
    let d = ground_distance_nm(mmu, ewr, cosine(40.799)) as f64 / 1e9;
    assert!((d - 13.9).abs() < 1.5, "got {d} nm");
}

#[test]
fn roots_are_whole() {
    assert_eq!(root(0), 0);
    assert_eq!(root(15), 3);
    assert_eq!(root(16), 4);
    assert_eq!(root(1_000_000_000_000), 1_000_000);
}

#[test]
fn own_ship_is_turned_only_where_the_world_is_not() {
    assert_eq!(Orientation::NorthUp.rotation_mdeg(Some(43_000)), 0);
    assert_eq!(Orientation::TrackUp.rotation_mdeg(Some(43_000)), 43_000);
    assert_eq!(Orientation::NorthUp.ownship_rotation_mdeg(Some(43_000)), 43_000);
    assert_eq!(Orientation::TrackUp.ownship_rotation_mdeg(Some(43_000)), 0);
}
