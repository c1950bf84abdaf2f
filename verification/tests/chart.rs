use avionics::chart::{
    bounds_around, div_floor, max_tier_for_range, Airport, Bounds, Chart, ChartError, Class,
    FreqKind, Frequency, Kind, Runway, Section, Tier, HEADER_LEN,
};
use avionics::domain::{LatLon, WeatherProduct, WeatherText};
use avionics::interact::{handle_tap, MapTap};
use avionics::layout::Layout;
use avionics::maplayer::{
    self, airport_marks, airports_on_map, airspace_line, airspace_on_map, draw_airport_card,
    draw_inspect, hit_airport, on_panel, range_nm, station_weather, visible_radius_nm, CardData,
    INSPECT_HIT,
};
use avionics::marks::Mark;
use avionics::planview::make_projection;
use avionics::projection::{Projection, UNIT};
use avionics::theme::Theme;
use avionics::view::{Inspected, MapLayers, ViewState};

/// One airport of a chart under construction.
struct Field {
    label: &'static str,
    lat_e6: i32,
    lon_e6: i32,
    elevation_ft: i16,
    runway_ft: u16,
    kind: u8,
    tier: u8,
    flags: u8,
    name: &'static str,
    runways: Vec<(u16, u16)>,
    frequencies: Vec<(u32, u8)>,
}

/// One airspace volume of a chart under construction.
struct Volume {
    label: &'static str,
    class: u8,
    flags: u8,
    lower_ft: i32,
    upper_ft: i32,
    rings: Vec<Vec<(i32, i32)>>,
}

fn label_bytes(label: &str) -> [u8; 8] {
    let mut out = [0u8; 8];
    for (i, b) in label.bytes().enumerate() {
        out[i] = b;
    }
    out
}

/// Lay a chart out: a grid of whole degrees from `(lat0, lon0)`, everything else behind it.
fn chart_bytes(
    lat0: i16,
    lon0: i16,
    rows: u16,
    cols: u16,
    mut fields: Vec<Field>,
    volumes: Vec<Volume>,
) -> Vec<u8> {
    let cell = |f: &Field| {
        let row = div_floor(f.lat_e6, 1_000_000) - lat0 as i32;
        let col = div_floor(f.lon_e6, 1_000_000) - lon0 as i32;
        row as usize * cols as usize + col as usize
    };
    fields.sort_by_key(|f| cell(f));
    let cells = rows as usize * cols as usize;
    let mut buckets = vec![(0u32, 0u32); cells];
    for (i, f) in fields.iter().enumerate() {
        let c = cell(f);
        if buckets[c].1 == 0 {
            buckets[c].0 = i as u32;
        }
        buckets[c].1 += 1;
    }

    let (mut airports, mut runways, mut frequencies, mut strings) =
        (Vec::new(), Vec::new(), Vec::new(), Vec::new());
    let (mut runway_count, mut frequency_count) = (0u32, 0u32);
    for f in &fields {
        airports.extend(f.lat_e6.to_le_bytes());
        airports.extend(f.lon_e6.to_le_bytes());
        airports.extend(label_bytes(f.label));
        airports.extend(f.elevation_ft.to_le_bytes());
        airports.extend(f.runway_ft.to_le_bytes());
        airports.push(f.kind);
        airports.push(f.tier);
        airports.push(f.flags);
        airports.push(f.runways.len() as u8);
        airports.extend(runway_count.to_le_bytes());
        airports.extend(frequency_count.to_le_bytes());
        airports.extend((strings.len() as u32).to_le_bytes());
        airports.push(f.name.len() as u8);
        airports.push(f.frequencies.len() as u8);
        airports.extend([0u8; 2]);
        for (heading, length) in &f.runways {
            runways.extend(heading.to_le_bytes());
            runways.extend(length.to_le_bytes());
            runway_count += 1;
        }
        for (khz, kind) in &f.frequencies {
            frequencies.extend(khz.to_le_bytes());
            frequencies.push(*kind);
            frequencies.extend([0u8; 3]);
            frequency_count += 1;
        }
        strings.extend(f.name.bytes());
    }

    let (mut airspace, mut rings, mut vertices) = (Vec::new(), Vec::new(), Vec::new());
    let (mut ring_count, mut vertex_count) = (0u32, 0u32);
    for v in &volumes {
        let all: Vec<(i32, i32)> = v.rings.iter().flatten().copied().collect();
        let lats: Vec<i32> = all.iter().map(|p| p.0).collect();
        let lons: Vec<i32> = all.iter().map(|p| p.1).collect();
        for edge in [
            lats.iter().min(),
            lats.iter().max(),
            lons.iter().min(),
            lons.iter().max(),
        ] {
            airspace.extend(edge.copied().unwrap_or(0).to_le_bytes());
        }
        airspace.extend(ring_count.to_le_bytes());
        airspace.extend((v.rings.len() as u16).to_le_bytes());
        airspace.push(v.class);
        airspace.push(v.flags);
        airspace.extend(v.lower_ft.to_le_bytes());
        airspace.extend(v.upper_ft.to_le_bytes());
        airspace.extend(label_bytes(v.label));
        for ring in &v.rings {
            rings.extend(vertex_count.to_le_bytes());
            rings.extend((ring.len() as u32).to_le_bytes());
            ring_count += 1;
            for (lat, lon) in ring {
                vertices.extend(lat.to_le_bytes());
                vertices.extend(lon.to_le_bytes());
                vertex_count += 1;
            }
        }
    }

    let mut out = Vec::new();
    out.extend(b"AVCHART1");
    out.extend(2u16.to_le_bytes());
    out.extend(0u16.to_le_bytes());
    out.extend(20_643u32.to_le_bytes());
    for count in [
        fields.len() as u32,
        volumes.len() as u32,
        ring_count,
        vertex_count,
        runway_count,
        frequency_count,
        strings.len() as u32,
        0,
    ] {
        out.extend(count.to_le_bytes());
    }
    out.extend(lat0.to_le_bytes());
    out.extend(lon0.to_le_bytes());
    out.extend(rows.to_le_bytes());
    out.extend(cols.to_le_bytes());
    let bucket_bytes: Vec<u8> = buckets
        .iter()
        .flat_map(|(first, count)| [first.to_le_bytes(), count.to_le_bytes()].concat())
        .collect();
    let sections = [
        bucket_bytes,
        airports,
        airspace,
        rings,
        vertices,
        runways,
        frequencies,
        strings,
    ];
    let mut offset = HEADER_LEN as u32;
    for section in &sections {
        out.extend(offset.to_le_bytes());
        offset += section.len() as u32;
    }
    out.resize(HEADER_LEN, 0);
    for section in &sections {
        out.extend(section);
    }
    out
}

fn field(label: &'static str, lat_e6: i32, lon_e6: i32, kind: u8, tier: u8) -> Field {
    Field {
        label,
        lat_e6,
        lon_e6,
        elevation_ft: 100,
        runway_ft: 3000,
        kind,
        tier,
        flags: 1,
        name: "",
        runways: vec![],
        frequencies: vec![],
    }
}

/// The north-east, with Morristown in it, and downtown Los Angeles with its heliports.
fn sample_bytes() -> Vec<u8> {
    let mut fields = vec![
        Field {
            elevation_ft: 187,
            runway_ft: 5998,
            name: "Morristown Municipal Airport",
            runways: vec![(50, 5998), (120, 3997)],
            frequencies: vec![(118_100, 1), (124_250, 3)],
            ..field("MMU", 40_799_000, -74_415_000, 1, 0)
        },
        Field {
            name: "Newark Liberty International Airport",
            runways: vec![(40, 11_000), (110, 6_726)],
            frequencies: vec![(118_300, 1), (121_800, 2), (134_825, 3)],
            ..field("EWR", 40_692_000, -74_169_000, 0, 0)
        },
        field("CDW", 40_875_000, -74_281_000, 2, 1),
        field("3N6", 40_845_000, -74_200_000, 2, 2),
        field("AAA", 40_100_000, -74_900_000, 2, 1),
        field("LAX", 33_942_000, -118_408_000, 0, 0),
    ];
    for i in 0..40 {
        fields.push(field("HELI", 34_000_000 + i * 3_000, -118_265_000, 3, 3));
    }
    let volumes = vec![
        Volume {
            label: "EWR B",
            class: 0,
            flags: 1,
            // On the surface, whatever is written here.
            lower_ft: 9_000,
            upper_ft: 7000,
            rings: vec![vec![
                (40_600_000, -74_300_000),
                (40_800_000, -74_300_000),
                (40_800_000, -74_000_000),
                (40_600_000, -74_000_000),
            ]],
        },
        Volume {
            label: "EWR B2",
            class: 0,
            flags: 0,
            lower_ft: 1500,
            upper_ft: 7000,
            rings: vec![vec![
                (40_500_000, -74_400_000),
                (40_900_000, -74_400_000),
                (40_700_000, -73_900_000),
            ]],
        },
    ];
    chart_bytes(24, -125, 26, 60, fields, volumes)
}

fn sample() -> Chart {
    Chart::from_bytes(sample_bytes()).expect("a good chart")
}

fn everywhere() -> Bounds {
    Bounds {
        lat_min: i32::MIN,
        lat_max: i32::MAX,
        lon_min: i32::MIN,
        lon_max: i32::MAX,
    }
}

/// A box around a position given in degrees, reaching so many nautical miles.
fn box_around(lat: f64, lon: f64, radius_nm: f64) -> Bounds {
    let cos = lat.to_radians().cos().abs();
    bounds_around(
        LatLon {
            lat_e9: (lat * 1e9).round() as i64,
            lon_e9: (lon * 1e9).round() as i64,
        },
        (radius_nm * 1000.0) as u64,
        (cos * 1e9) as i64,
    )
}

fn find(chart: &Chart, label: &str) -> Airport {
    (0..chart.airport_count())
        .filter_map(|i| chart.airport_at(i))
        .find(|a| a.label() == label)
        .expect("that airport")
}

fn points(chart: &Chart, space: &avionics::chart::Airspace, ring: usize) -> Vec<LatLon> {
    let mut walk = chart.ring(space, ring);
    let mut out = Vec::new();
    while let Some(p) = walk.next() {
        out.push(p);
    }
    out
}

#[test]
fn a_good_file_loads_and_says_what_it_holds() {
    let chart = sample();
    assert_eq!(chart.airport_count(), 46);
    assert_eq!(chart.airspace_count(), 2);
    assert_eq!(chart.effective_days(), 20_643);
}

#[test]
fn morristowns_full_record_is_readable() {
    // One airport checked end to end, so a shift in any of the three variable-length tables shows
    // up as wrong content rather than as a load failure.
    let chart = sample();
    let bounds = box_around(40.7784, -74.3343, 10.0);
    let mmu = chart
        .airports_in(&bounds, Tier::Minor)
        .into_iter()
        .find(|a| a.label() == "MMU")
        .expect("MMU");

    assert_eq!(chart.name(&mmu), "Morristown Municipal Airport");
    assert!(
        mmu.elevation_ft > 100 && mmu.elevation_ft < 400,
        "{}",
        mmu.elevation_ft
    );

    let runways = chart.runways(&mmu);
    assert!(!runways.is_empty(), "MMU has runways");
    // Longest first, and 5/23 is the long one.
    assert!(runways[0].length_ft >= 5000, "{:?}", runways[0]);
    assert!(
        runways.iter().any(|r| r.designator() == "05/23"),
        "got {:?}",
        runways.iter().map(|r| r.designator()).collect::<Vec<_>>()
    );

    let freqs = chart.frequencies(&mmu);
    assert!(!freqs.is_empty(), "MMU is towered and has frequencies");
    assert!(
        freqs.iter().any(|f| f.kind == FreqKind::Atis),
        "got {:?}",
        freqs
            .iter()
            .map(|f| (f.kind, f.mhz_text()))
            .collect::<Vec<_>>()
    );
}

#[test]
fn a_field_with_nothing_attached_reads_back_empty() {
    // The failure mode of the variable-length tables is borrowing a neighbour's data, which looks
    // entirely plausible. Every airport with a zero count must read back empty.
    let chart = sample();
    let bounds = box_around(40.7784, -74.3343, 20.0);
    let mut checked = 0usize;
    for airport in chart.airports_in(&bounds, Tier::Heliport) {
        if airport.frequency_count() == 0 {
            assert!(chart.frequencies(&airport).is_empty(), "{}", airport.label());
            checked += 1;
        }
        if airport.runway_count() == 0 {
            assert!(chart.runways(&airport).is_empty(), "{}", airport.label());
        }
        assert_eq!(chart.runways(&airport).len(), airport.runway_count());
        assert_eq!(chart.frequencies(&airport).len(), airport.frequency_count());
    }
    assert!(checked > 0, "expected some fields with no frequencies");
}

#[test]
fn an_index_past_the_end_yields_nothing() {
    let chart = sample();
    assert!(chart.airport_at(chart.airport_count()).is_none());
    assert!(chart.airport_at(usize::MAX).is_none());
}

#[test]
fn frequencies_format_without_losing_the_last_digit() {
    // 121.975 is a real 25 kHz channel. Formatting it as 121.97 or 121.98 would put a pilot one
    // click off, which is the whole reason the file stores kilohertz.
    for (khz, want) in [
        (121_975, "121.975"),
        (118_100, "118.1"),
        (122_800, "122.8"),
        (124_250, "124.25"),
        (120_000, "120.0"),
    ] {
        let f = Frequency {
            khz,
            kind: FreqKind::Ctaf,
        };
        assert_eq!(f.mhz_text(), want, "{khz} kHz");
    }
}

#[test]
fn runway_designators_read_the_way_they_are_painted() {
    for (heading, want) in [
        (50u16, "05/23"),
        (230, "23/05"),
        (90, "09/27"),
        (270, "27/09"),
        (180, "18/36"),
        (0, "01/19"),
    ] {
        let r = Runway {
            heading_deg: heading,
            length_ft: 5000,
        };
        assert_eq!(r.designator(), want, "{heading} degrees");
    }
}

#[test]
fn morristown_is_where_it_should_be() {
    let chart = sample();
    let bounds = box_around(40.7784, -74.3343, 10.0);
    let found = chart.airports_in(&bounds, Tier::Minor);

    let mmu = found
        .iter()
        .find(|a| a.label() == "MMU")
        .expect("MMU within 10 nm");
    assert!((mmu.position.lat_e9 - 40_799_000_000).abs() < 10_000_000);
    assert!((mmu.position.lon_e9 + 74_415_000_000).abs() < 10_000_000);
    assert_eq!(mmu.kind, Kind::Medium);
    assert_eq!(mmu.tier, Tier::Major);
    assert!(mmu.hard_surface());
    assert!(!mmu.lighted());
    assert!(mmu.runway_ft > 5000, "MMU's runway is about 6000 ft");
}

#[test]
fn a_query_returns_only_what_is_inside_the_box() {
    // The grid cell is a whole degree, 60 nm of latitude, so most of what a cell holds is outside a
    // 10 nm box. Without the second test this would return a square of countryside.
    let chart = sample();
    let bounds = box_around(40.7784, -74.3343, 10.0);
    let found = chart.airports_in(&bounds, Tier::Minor);
    assert!(found.iter().all(|a| a.label() != "AAA"));
    for airport in found {
        assert!(bounds.contains(airport.position), "{}", airport.label());
    }
}

#[test]
fn the_tier_filter_only_ever_removes() {
    let chart = sample();
    let bounds = box_around(40.7784, -74.3343, 20.0);
    let major = chart.airports_in(&bounds, Tier::Major).len();
    let paved = chart.airports_in(&bounds, Tier::Paved).len();
    let minor = chart.airports_in(&bounds, Tier::Minor).len();
    assert!(major <= paved && paved <= minor, "{major} {paved} {minor}");
    assert!(major > 0, "the New York area has major airports");
    assert_eq!((major, paved, minor), (2, 3, 4));
}

#[test]
fn heliports_are_in_the_file_and_never_in_a_default_query() {
    let chart = sample();
    let bounds = box_around(34.055, -118.265, 10.0);

    let with = chart.airports_in(&bounds, Tier::Heliport);
    let without = chart.airports_in(&bounds, Tier::Minor);
    assert!(
        with.len() > without.len() * 8,
        "expected heliports to dominate downtown LA, got {} vs {}",
        with.len(),
        without.len()
    );
    for range in ViewState::RANGES {
        assert_ne!(
            max_tier_for_range(range),
            Tier::Heliport,
            "range {range} would draw heliports"
        );
    }
}

#[test]
fn tiers_follow_the_range() {
    assert_eq!(max_tier_for_range(5_000), Tier::Minor);
    assert_eq!(max_tier_for_range(10_000), Tier::Paved);
    assert_eq!(max_tier_for_range(20_000), Tier::Paved);
    assert_eq!(max_tier_for_range(40_000), Tier::Major);
}

#[test]
fn class_b_around_newark_is_found_and_has_real_geometry() {
    let chart = sample();
    let bounds = box_around(40.6895, -74.1745, 20.0);
    let spaces = chart.airspace_in(&bounds);
    assert!(!spaces.is_empty(), "the New York area has class airspace");

    let b = spaces
        .iter()
        .find(|s| s.class == Class::B)
        .expect("Newark sits under the New York Class B");
    assert!(b.ring_count() >= 1);
    let ring = points(&chart, b, 0);
    assert!(ring.len() >= 3, "a ring needs three points to enclose anything");
    assert_ne!(
        ring.first(),
        ring.last(),
        "the closing point should have been dropped at build time"
    );
    assert!(b.upper_ft > 1000, "a Class B has a real ceiling: {}", b.upper_ft);
}

#[test]
fn every_ring_of_every_volume_is_walkable() {
    // Guards the ring-and-vertex indirection end to end. A miscounted ring range reads one volume's
    // geometry into the next, which draws as a boundary in the wrong place.
    let chart = sample();
    let all = chart.airspace_in(&everywhere());
    assert_eq!(all.len(), chart.airspace_count());
    let mut vertices = 0usize;
    for space in &all {
        assert!(space.ring_count() >= 1, "{} has no rings", space.label());
        for ring in 0..space.ring_count() {
            let walked = points(&chart, space, ring);
            assert!(walked.len() >= 3, "{} ring {ring} is degenerate", space.label());
            assert_eq!(chart.ring(space, ring).len(), walked.len() as u64);
            vertices += walked.len();
        }
    }
    assert_eq!(vertices, 7, "every vertex in the file should be reachable");
}

#[test]
fn a_ring_index_past_the_end_yields_nothing_rather_than_another_volumes_geometry() {
    let chart = sample();
    let bounds = box_around(40.6895, -74.1745, 20.0);
    let space = chart.airspace_in(&bounds).into_iter().next().unwrap();
    assert_eq!(points(&chart, &space, space.ring_count()).len(), 0);
    assert_eq!(points(&chart, &space, 999).len(), 0);
}

#[test]
fn western_longitudes_do_not_round_toward_zero() {
    assert_eq!(div_floor(-74_500_000, 1_000_000), -75);
    assert_eq!(div_floor(-74_000_000, 1_000_000), -74);
    assert_eq!(div_floor(40_500_000, 1_000_000), 40);
}

#[test]
fn the_range_box_is_widened_for_latitude() {
    let b = box_around(40.0, -74.0, 10.0);
    let lat_span = b.lat_max - b.lat_min;
    let lon_span = b.lon_max - b.lon_min;
    assert!(
        lon_span > lat_span,
        "longitude span {lon_span} should exceed latitude span {lat_span} at 40N"
    );
    assert_eq!(lat_span, 2 * (10_000 * 1_000 / 60));
}

#[test]
fn a_corrupt_file_is_refused_rather_than_read_as_geometry() {
    let good = sample_bytes();

    assert!(
        Chart::from_bytes(good[..HEADER_LEN - 1].to_vec()).is_err(),
        "short"
    );
    assert!(
        Chart::from_bytes(good[..good.len() - 8].to_vec()).is_err(),
        "truncated"
    );

    let mut magic = good.clone();
    magic[0] = b'X';
    assert!(Chart::from_bytes(magic).is_err(), "bad magic");

    let mut version = good.clone();
    version[8] = 99;
    assert!(Chart::from_bytes(version).is_err(), "unknown version");

    // A count that disagrees with the offsets must be caught at load, not at the first draw.
    let mut count = good;
    count[16] = count[16].wrapping_add(1);
    assert!(
        Chart::from_bytes(count).is_err(),
        "airport count vs offsets"
    );
}

fn refused(bytes: Vec<u8>) -> ChartError {
    match Chart::from_bytes(bytes) {
        Ok(_) => panic!("expected a refusal"),
        Err(e) => e,
    }
}

#[test]
fn a_refusal_says_why() {
    let good = sample_bytes();
    let short = refused(good[..10].to_vec());
    assert_eq!(short, ChartError::TooShort);
    assert_eq!(short.message(), "shorter than its header");

    let mut magic = good.clone();
    magic[7] = b'2';
    assert_eq!(refused(magic).message(), "not a chart file");

    let mut version = good.clone();
    version[8] = 99;
    assert_eq!(refused(version).message(), "unsupported chart version 99");

    let mut rows = good.clone();
    rows[52] = 0;
    assert_eq!(refused(rows), ChartError::EmptyGrid);
    assert_eq!(ChartError::EmptyGrid.message(), "empty grid");

    let mut moved = good.clone();
    moved[60] = moved[60].wrapping_add(4);
    let airports_at = (HEADER_LEN + 26 * 60 * 8) as u64;
    let e = refused(moved);
    assert_eq!(
        e,
        ChartError::MisplacedSection {
            section: Section::Airports,
            stated: airports_at + 4,
            expected: airports_at
        }
    );
    assert_eq!(e.message(), "airports section is at 12580, expected 12576");

    let length = good.len();
    let e = refused(good[..length - 1].to_vec());
    assert_eq!(
        e.message(),
        format!(
            "file is {} bytes, sections account for {}",
            length - 1,
            length
        )
    );
}

#[test]
fn a_label_that_is_no_text_reads_back_empty() {
    // The bytes go through the decoder of the standard library: a name comes back as characters,
    // and bytes that are no text come back as nothing.
    let mut bytes = sample_bytes();
    let chart = Chart::from_bytes(bytes.clone()).expect("a good chart");
    let mmu = find(&chart, "MMU");
    let at = HEADER_LEN + 26 * 60 * 8 + mmu.index as usize * 40 + 8;
    bytes[at] = 0xff;
    let chart = Chart::from_bytes(bytes).expect("still a chart");
    let mmu = chart.airport_at(mmu.index as usize).expect("the same record");
    assert_eq!(mmu.label(), "");
    assert_eq!(chart.name(&mmu), "Morristown Municipal Airport");
}

#[test]
fn airspace_is_found_where_it_covers() {
    let chart = sample();
    let at = |lat_e6, lon_e6| chart.airspace_at(LatLon::from_millionths(lat_e6, lon_e6));
    let stack: Vec<String> = at(40_690_000, -74_170_000)
        .iter()
        .map(|s| s.label().to_string())
        .collect();
    // Lowest floor first: the order they would be met climbing.
    assert_eq!(stack, vec!["EWR B", "EWR B2"]);
    assert!(at(41_500_000, -74_170_000).is_empty());
    // Inside the second volume's box and outside the volume itself.
    assert!(at(40_890_000, -73_950_000).is_empty());
}

#[test]
fn airspace_knows_its_floor_and_its_box() {
    let chart = sample();
    let all = chart.airspace_in(&everywhere());
    assert!(all[0].lower_is_surface());
    assert!(!all[1].lower_is_surface());
    assert_eq!(all[0].class.label(), "B");
    assert!(all[0].bounds.overlaps(&all[1].bounds));
    assert!(!all[0].bounds.overlaps(&Bounds {
        lat_min: 0,
        lat_max: 1,
        lon_min: 0,
        lon_max: 1
    }));
}

#[test]
fn kinds_of_frequency_are_ranked_and_named() {
    assert!(FreqKind::Ctaf < FreqKind::Tower);
    assert_eq!(FreqKind::Tower.label(), "TWR");
    assert_eq!(Tier::Heliport.rank(), 3);
}

// --- the chart on screen ------------------------------------------------------------------

const NOW: u64 = 1_000_000_000_000;

fn layout() -> Layout {
    Layout::for_size(800_000, 480_000, &Theme::dark())
}

fn view_at(range_mnm: u32, map_layers: MapLayers) -> ViewState {
    ViewState {
        range_mnm,
        map_layers,
        ..ViewState::default()
    }
}

fn cosine(lat: f64) -> i64 {
    (lat.to_radians().cos() * 1e9) as i64
}

/// North-up around a position.
fn around(lat: f64, lon: f64, range_mnm: u32) -> Projection {
    make_projection(
        LatLon { lat_e9: (lat * 1e9).round() as i64, lon_e9: (lon * 1e9).round() as i64 },
        cosine(lat),
        None,
        &view_at(range_mnm, MapLayers::Full),
        &layout(),
    )
}

fn morristown(range_mnm: u32) -> Projection {
    around(40.7784, -74.3343, range_mnm)
}

#[test]
fn a_tap_on_a_symbol_finds_that_airport() {
    let chart = sample();
    let l = layout();
    let p = morristown(10_000);
    let view = view_at(10_000, MapLayers::Airports);
    let mmu = find(&chart, "MMU");
    let (x, y) = p.project(mmu.position);

    let hit = hit_airport(&chart, &view, &l, &p, x, y).expect("a tap on the symbol");
    assert_eq!(hit.label(), "MMU");
    assert_eq!(hit.index, mmu.index);

    // A fingertip is not a pixel: near enough still counts.
    let near = hit_airport(&chart, &view, &l, &p, x + 6_000, y - 6_000).expect("near enough");
    assert_eq!(near.label(), "MMU");
}

#[test]
fn a_tap_on_empty_sky_finds_nothing() {
    // The property that keeps the body effectively inert: a hand steadying itself against the panel
    // lands nowhere near a symbol almost every time, and nothing happens.
    let chart = sample();
    let l = layout();
    let p = morristown(10_000);
    let view = view_at(10_000, MapLayers::Airports);
    let (x, y) = p.project(find(&chart, "MMU").position);
    assert!(
        hit_airport(&chart, &view, &l, &p, x + INSPECT_HIT + 4_000, y).is_none(),
        "just outside the hit radius should miss"
    );
}

#[test]
fn nothing_is_tappable_while_the_layer_is_off() {
    // You cannot inspect what is not drawn. Otherwise a pilot who turned the map off would still
    // get cards from invisible symbols.
    let chart = sample();
    let l = layout();
    let p = morristown(10_000);
    let (x, y) = p.project(find(&chart, "MMU").position);

    let off = view_at(10_000, MapLayers::Off);
    assert!(hit_airport(&chart, &off, &l, &p, x, y).is_none());

    let on = view_at(10_000, MapLayers::Airports);
    assert!(hit_airport(&chart, &on, &l, &p, x, y).is_some());
}

#[test]
fn an_airport_the_range_declutters_away_is_not_tappable() {
    // The hit test goes by what is drawn, so a symbol that is not on screen at 40 nm cannot be
    // found by tapping where it would have been at 5 nm.
    let chart = sample();
    let l = layout();

    // A minor field near Morristown, drawn only at 5 nm and in, and on the panel at that range:
    // the hit test culls off-panel symbols too.
    let p5 = morristown(5_000);
    let minor = chart
        .airports_in(&box_around(40.7784, -74.3343, 10.0), Tier::Minor)
        .into_iter()
        .find(|a| {
            let (x, y) = p5.project(a.position);
            a.tier == Tier::Minor && on_panel(&l, x, y)
        })
        .expect("a minor field");

    let (x, y) = p5.project(minor.position);
    assert!(
        hit_airport(&chart, &view_at(5_000, MapLayers::Airports), &l, &p5, x, y).is_some(),
        "{} should be tappable at 5 nm",
        minor.label()
    );

    let p40 = morristown(40_000);
    let (x, y) = p40.project(minor.position);
    assert!(
        hit_airport(&chart, &view_at(40_000, MapLayers::Airports), &l, &p40, x, y).is_none(),
        "{} is decluttered at 40 nm and must not be tappable",
        minor.label()
    );
}

#[test]
fn every_symbol_on_the_map_is_where_the_chart_says() {
    let chart = sample();
    let l = layout();
    let theme = Theme::dark();
    let p = morristown(20_000);
    let view = view_at(20_000, MapLayers::Airports);
    let (airports, points) = airports_on_map(&chart, &view, &l, &p);
    let labels: Vec<&str> = airports.iter().map(|a| a.label()).collect();
    assert_eq!(airports.len(), points.len());
    for label in ["MMU", "EWR", "CDW"] {
        assert!(labels.contains(&label), "{label} is missing from {labels:?}");
    }
    for (airport, point) in airports.iter().zip(&points) {
        assert_eq!(*point, p.project(airport.position));
    }
    let marks = airport_marks(&airports, &points, &view, &l, &theme);
    let mmu = marks.iter().find(|m| m.airport.label() == "MMU").expect("a mark");
    assert_eq!(mmu.radius, 5_000);
    assert_eq!(mmu.ticks, 2);
    assert!(!mmu.labelled, "labels are for close in");

    let off = view_at(20_000, MapLayers::Off);
    assert!(airports_on_map(&chart, &off, &l, &p).0.is_empty());
}

#[test]
fn airspace_is_drawn_only_when_it_is_selected() {
    let chart = sample();
    let l = layout();
    let theme = Theme::dark();
    let p = morristown(20_000);
    let full = view_at(20_000, MapLayers::Full);
    assert_eq!(airspace_on_map(&chart, &full, &l, &p).len(), 2);
    let airports = view_at(20_000, MapLayers::Airports);
    assert!(airspace_on_map(&chart, &airports, &l, &p).is_empty());
    assert_eq!(airspace_line(Class::B, &theme), (1_840, false));
    assert_eq!(airspace_line(Class::C, &theme), (1_600, false));
    assert_eq!(airspace_line(Class::D, &theme), (1_360, true));
}

#[test]
fn a_tap_prefers_the_airport_to_the_airspace_around_it() {
    let chart = sample();
    let l = layout();
    let theme = Theme::dark();
    let p = morristown(20_000);
    let map = || Some(MapTap { chart: &chart, projection: p });
    let mut view = view_at(20_000, MapLayers::Full);
    let ewr = find(&chart, "EWR");
    let (x, y) = p.project(ewr.position);
    handle_tap(&theme, &l, &mut view, map(), x, y, 0, NOW);
    assert_eq!(view.inspect.expect("a card").subject, Inspected::Airport(ewr.index));

    let beside = (x + 30_000, y);
    handle_tap(&theme, &l, &mut view, map(), beside.0, beside.1, 0, NOW);
    assert_eq!(
        view.inspect.expect("a card").subject,
        Inspected::Airspace(p.unproject(beside.0, beside.1))
    );
}

#[test]
fn morristown_to_newark_is_about_thirteen_miles() {
    let chart = sample();
    let mmu = find(&chart, "MMU").position;
    let ewr = find(&chart, "EWR").position;
    let d = range_nm(mmu, ewr, cosine(40.799)) as f64 / 1e9;
    assert!((12.0..14.0).contains(&d), "{d}");
}

/// Every text of a picture, in order.
fn texts(list: &[Mark]) -> Vec<String> {
    list.iter()
        .filter_map(|mark| match mark {
            Mark::Text { text, .. } => Some(text.clone()),
            _ => None,
        })
        .collect()
}

#[test]
fn the_map_draws_boundaries_under_symbols_and_names_over_both() {
    let chart = sample();
    let p = morristown(10_000);
    let (marks, counted) =
        maplayer::draw(&chart, &view_at(10_000, MapLayers::Full), &layout(), &p, &Theme::dark());
    assert_eq!(counted.airspace, 2);
    let rings = marks.iter().filter(|m| matches!(m, Mark::Ring { .. })).count();
    assert_eq!(rings, counted.airports, "every airport has one outline");
    assert!(counted.airports >= 2);
    assert!(matches!(&marks[0], Mark::Boundary { points, dashed: false, .. } if points.len() == 4));

    // Morristown's two runways, each a line about its symbol turned to the runway's heading.
    let at = p.project(find(&chart, "MMU").position);
    let headings: Vec<i64> = marks
        .iter()
        .filter_map(|m| match m {
            Mark::Turn { at: here, mdeg, .. } if *here == at => Some(*mdeg),
            _ => None,
        })
        .collect();
    assert_eq!(headings, [50_000, 120_000]);
    assert!(texts(&marks).contains(&"MMU".to_string()));

    let (none, counted) =
        maplayer::draw(&chart, &view_at(10_000, MapLayers::Off), &layout(), &p, &Theme::dark());
    assert!(none.is_empty());
    assert_eq!((counted.airports, counted.airspace), (0, 0));
}

#[test]
fn the_airport_card_says_what_the_chart_and_the_station_say() {
    let chart = sample();
    let theme = Theme::dark();
    let mmu = find(&chart, "MMU");
    let reports = [WeatherText {
        product: WeatherProduct::Metar,
        location: "MMU".to_string(),
        body: "MMU 121853Z 27010KT 2SM OVC008".to_string(),
        received: NOW,
    }];
    let weather = station_weather(&reports, "MMU", NOW).expect("a report");
    let widths = [40_000, 80_000];
    let marks = draw_airport_card(
        &chart,
        &mmu,
        &widths,
        Some(&weather),
        Some((89_600, 12_340)),
        &layout(),
        &theme,
    );
    let said = texts(&marks);
    assert_eq!(said[0], "MMU");
    assert!(said[1].starts_with("090\u{00B0}"), "{said:?}");
    assert_eq!(said[2], "Morristown Municipal Airport");
    assert!(said[3].contains("187"), "{said:?}");
    assert!(said[4].contains("118.1"), "{said:?}");
    assert_eq!(said[5], "IFR");
    assert_eq!(said.len(), 7);

    // Most fields have no frequency, and a blank line would read as an unfinished picture.
    let cdw = find(&chart, "CDW");
    let bare = draw_airport_card(&chart, &cdw, &[], None, None, &layout(), &theme);
    assert!(texts(&bare).contains(&"no published frequency".to_string()));
}

#[test]
fn a_card_of_an_airport_the_chart_does_not_hold_is_not_drawn() {
    let chart = sample();
    let data = CardData { place: None, weather: None, widths: &[] };
    let none = draw_inspect(&chart, Inspected::Airport(46), &data, &layout(), &Theme::dark());
    assert!(none.is_empty());

    let over = LatLon::from_millionths(40_700_000, -74_200_000);
    let both = draw_inspect(&chart, Inspected::Airspace(over), &data, &layout(), &Theme::dark());
    assert_eq!(texts(&both)[0], "AIRSPACE");
    assert_eq!(texts(&both).len(), 5, "a title and two layers");
}

#[test]
fn every_name_frequency_and_runway_in_the_file_is_reachable_and_sane() {
    // Walks every record rather than one. A span that runs past the end of a table is the one bug
    // this format can have that no single spot check would find.
    let chart = sample();
    let mut names = 0usize;
    let mut freqs = 0usize;
    let mut runways = 0usize;
    for index in 0..chart.airport_count() {
        let airport = chart.airport_at(index).expect("index in range");
        let name = chart.name(&airport);
        assert!(name.len() <= 40, "{} has a {}-byte name", airport.label(), name.len());
        if !name.is_empty() {
            names += 1;
        }
        for f in chart.frequencies(&airport) {
            assert!(
                (50_000..=400_000).contains(&f.khz),
                "{} has {} kHz",
                airport.label(),
                f.khz
            );
            freqs += 1;
        }
        for r in chart.runways(&airport) {
            assert!(r.heading_deg < 360, "{} has {} deg", airport.label(), r.heading_deg);
            runways += 1;
        }
    }
    assert_eq!(freqs, 5, "every frequency in the file should be reachable");
    assert_eq!(runways, 4, "every runway orientation should be reachable");
    assert_eq!(names, 2, "only {names} airports have a name");
}

#[test]
fn no_airspace_upper_limit_was_left_in_flight_levels() {
    let chart = sample();
    let all = chart.airspace_in(&everywhere());
    assert_eq!(all.len(), chart.airspace_count());
    for space in &all {
        assert!(
            space.upper_ft >= 500,
            "{} tops out at {} ft, which looks like an unconverted flight level",
            space.label(),
            space.upper_ft
        );
    }
}

#[test]
fn the_busiest_view_in_the_country_stays_drawable() {
    // What decides render cost is not the size of the file, it is how much of it reaches the
    // screen, and the query covers the *corners* of the panel, which are nearly twice the selected
    // range out.
    let chart = sample();
    let l = layout();
    let mut worst = (0usize, String::new());
    for (place, lat, lon) in [
        ("Los Angeles", 34.055, -118.265),
        ("New York", 40.7784, -74.3343),
        ("Denton TX", 33.232, -97.338),
        ("Chicago", 41.9, -87.9),
    ] {
        for range in ViewState::RANGES {
            let projection = around(lat, lon, range);
            let radius = visible_radius_nm(&l, &projection);
            let bounds = bounds_around(projection.origin(), radius, cosine(lat));
            let n = chart.airports_in(&bounds, max_tier_for_range(range)).len();
            if n > worst.0 {
                worst = (n, format!("{place} at {range} mnm"));
            }
        }
    }
    assert!(
        worst.0 <= 120,
        "{} would query {} airports, which is past what the panel can show",
        worst.1,
        worst.0
    );
    assert!(worst.0 > 0, "no airports anywhere, which means the query is broken");
}

#[test]
fn the_edges_of_the_range_box_are_cut_off_where_they_fall() {
    let at = LatLon::from_millionths(40_000_000, -74_000_000);
    let b = bounds_around(at, 1_000, UNIT / 2);
    assert_eq!((b.lat_min, b.lat_max), (39_983_333, 40_016_666));
    assert_eq!((b.lon_min, b.lon_max), (-74_033_333, -73_966_666));
    let half_way = LatLon { lat_e9: 1_500, lon_e9: -1_500 };
    let b = bounds_around(half_way, 0, UNIT);
    assert_eq!((b.lat_min, b.lat_max, b.lon_min, b.lon_max), (1, 1, -1, -1));
}

#[test]
fn the_range_box_goes_by_the_size_of_the_cosine() {
    let centre = LatLon::from_millionths(40_000_000, -74_000_000);
    assert_eq!(
        bounds_around(centre, 10_000, -766_044_443),
        bounds_around(centre, 10_000, 766_044_443)
    );
}

#[test]
fn frequencies_read_back_from_their_text() {
    let mut seen: Vec<String> = Vec::new();
    for khz in [121_975u32, 121_970, 121_900, 121_000, 121_097, 121_009, 12_197] {
        let text = Frequency { khz, kind: FreqKind::Ctaf }.mhz_text();
        let (whole, decimals) = text.split_once('.').expect("a point");
        let scale = 10u32.pow(3 - decimals.len() as u32);
        let read: u32 = whole.parse::<u32>().expect("megahertz") * 1000
            + decimals.parse::<u32>().expect("decimals") * scale;
        assert_eq!(read, khz, "{text}");
        assert!(!seen.contains(&text), "{text} twice");
        seen.push(text);
    }
}

#[test]
fn a_changed_byte_of_the_header_is_refused() {
    let good = sample_bytes();
    for at in (0..10).chain(56..88) {
        let mut bad = good.clone();
        bad[at] ^= 0x40;
        let why = refused(bad);
        if at < 8 {
            assert_eq!(why, ChartError::NotAChart, "byte {at}");
        } else if at < 10 {
            assert!(matches!(why, ChartError::UnsupportedVersion(_)), "byte {at}");
        } else {
            assert!(matches!(why, ChartError::MisplacedSection { .. }), "byte {at}");
        }
    }
}

#[test]
fn a_changed_count_or_length_is_refused() {
    let good = sample_bytes();
    for at in 16..44 {
        for flip in [0x01u8, 0x80] {
            let mut bad = good.clone();
            bad[at] ^= flip;
            assert!(Chart::from_bytes(bad).is_err(), "byte {at}");
        }
    }
    for n in [0, 1, 95, 96, 200, good.len() - 1] {
        assert!(Chart::from_bytes(good[..n].to_vec()).is_err(), "{n} bytes");
    }
    let mut long = good.clone();
    long.push(0);
    assert!(Chart::from_bytes(long).is_err(), "one byte more");
}
