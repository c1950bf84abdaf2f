use avionics::domain::{LatLon, NexradBlock, NexradKind, BINS_X, BINS_Y, BIN_COUNT};
use avionics::interact::{self, apply_key_at, two_finger_tap, zone_for, TapZone};
use avionics::layout::Layout;
use avionics::nexrad::{
    age_alpha, colour, fade_bucket, fade_fingerprint, reach_in_longitude, Mosaic, MosaicConfig,
    MosaicStep, Patch,
};
use avionics::projection::{advance, ground_distance_nm, Orientation, Turn, UNIT};
use avionics::softkeys::SoftKey;
use avionics::theme::Theme;
use avionics::view::{Page, ViewState};
use avionics::weatherpage::{format_age, row_at, row_center, rows_per_page};

const SECOND: u64 = 1_000_000_000;
const NOW: u64 = 1_000_000 * SECOND;

const CENTRE: LatLon = LatLon {
    lat_e9: 40_000_000_000,
    lon_e9: -105_000_000_000,
};

/// Cosine of the centre's latitude.
const COS: i64 = 766_044_443;

/// Regional block geometry below 60 degrees latitude: 48 arcminutes of longitude by 4 of latitude,
/// subdivided 32 x 4.
const BLOCK_WIDTH: i64 = 800_000_000;
const BLOCK_HEIGHT: i64 = 66_666_667;

fn block(
    kind: NexradKind,
    lat_north: i64,
    lon_west: i64,
    bins: Vec<u8>,
    received: u64,
) -> NexradBlock {
    NexradBlock {
        kind,
        lat_north,
        lon_west,
        height: BLOCK_HEIGHT,
        width: BLOCK_WIDTH,
        bins,
        received,
    }
}

/// The middle of a bin.
fn bin_middle(b: &NexradBlock, bx: usize, by: usize) -> LatLon {
    LatLon {
        lat_e9: b.lat_north - b.height * (2 * by as i64 + 1) / 8,
        lon_e9: b.lon_west + b.width * (2 * bx as i64 + 1) / 64,
    }
}

fn small_config() -> MosaicConfig {
    MosaicConfig {
        // Small and tight so one block spans many texels and the arithmetic is easy to reason
        // about; the default is 1024 over 120 nm.
        texture_size: 256,
        half_span_mnm: 30_000,
        ..Default::default()
    }
}

fn build(config: &MosaicConfig, blocks: &[NexradBlock], now: u64) -> Patch {
    Patch::build(config, blocks, CENTRE, COS, now)
}

// --- colours ---------------------------------------------------------------------------

#[test]
fn regional_and_conus_intensity_scales_are_offset_by_one() {
    // This is the single most likely thing to be silently wrong. The receiver fills an empty regional
    // block with 0 and an empty CONUS block with 1, which means CONUS shifts the whole scale up by
    // one. Treating them alike paints phantom precipitation or punches holes through real coverage.
    assert_eq!(
        colour(NexradKind::Regional, 0),
        None,
        "regional 0 is <5 dBZ"
    );
    assert!(
        colour(NexradKind::Regional, 1).is_some(),
        "regional 1 is real return"
    );

    assert_eq!(colour(NexradKind::Conus, 0), None, "CONUS 0 is no data");
    assert_eq!(
        colour(NexradKind::Conus, 1),
        None,
        "CONUS 1 is no precipitation"
    );
    assert!(
        colour(NexradKind::Conus, 2).is_some(),
        "CONUS 2 is the first real return"
    );

    // The lightest visible colour is the same on both products, just reached at a different level.
    assert_eq!(
        colour(NexradKind::Regional, 1),
        colour(NexradKind::Conus, 2)
    );
    assert_eq!(
        colour(NexradKind::Regional, 7),
        colour(NexradKind::Conus, 8)
    );
}

#[test]
fn intensity_ramps_monotonically_and_never_indexes_off_the_end() {
    // The decoder clamps to 0..=7, but an out-of-range value must degrade rather than panic.
    let mut previous = None;
    for intensity in 1..=7u8 {
        let current = colour(NexradKind::Regional, intensity).expect("visible level");
        assert_ne!(
            Some(current),
            previous,
            "level {intensity} duplicates the previous colour"
        );
        previous = Some(current);
    }
    for intensity in 8..=255u8 {
        // Off the end of the ramp: no colour rather than a wrapped index.
        let _ = colour(NexradKind::Regional, intensity);
        let _ = colour(NexradKind::Conus, intensity);
    }
}

// --- ageing -------------------------------------------------------------------------------

#[test]
fn older_weather_is_drawn_fainter_but_never_invisible() {
    let fresh = age_alpha(60 * SECOND);
    let aging = age_alpha(7 * 60 * SECOND);
    let stale = age_alpha(13 * 60 * SECOND);

    assert_eq!(fresh, 100);
    assert!(aging < fresh, "aging weather must fade");
    assert!(stale < aging, "stale weather must fade further");
    // Precipitation that was there ten minutes ago is still worth knowing about, provided the pilot
    // can see it is not current.
    assert!(stale > 0, "stale weather must remain visible");

    // Three steps, so at most two fade-driven rebuilds per block lifetime.
    assert_eq!(fade_bucket(60 * SECOND), 0);
    assert_eq!(fade_bucket(7 * 60 * SECOND), 1);
    assert_eq!(fade_bucket(13 * 60 * SECOND), 2);
}

#[test]
fn age_is_formatted_compactly() {
    assert_eq!(format_age(0), "0s");
    assert_eq!(format_age(45 * SECOND), "45s");
    assert_eq!(format_age(60 * SECOND), "1m");
    assert_eq!(format_age((11 * 60 + 30) * SECOND), "11m");
    assert_eq!(format_age(3600 * SECOND), "1h00m");
    assert_eq!(format_age((3600 + 25 * 60) * SECOND), "1h25m");
}

// --- geo-referencing ----------------------------------------------------------------------

#[test]
fn a_bin_lands_at_its_own_latitude_and_longitude() {
    let now = NOW;
    let config = small_config();

    // One block whose bins are all intensity 5, positioned so it straddles the patch centre.
    let bins = vec![5u8; BIN_COUNT];
    let b = block(
        NexradKind::Regional,
        CENTRE.lat_e9 + BLOCK_HEIGHT / 2,
        CENTRE.lon_e9 - BLOCK_WIDTH / 2,
        bins,
        now,
    );
    let expected = colour(NexradKind::Regional, 5).expect("level 5 is visible");

    let patch = build(&config, std::slice::from_ref(&b), now);
    assert!(!patch.is_empty());
    assert_eq!(patch.stats.blocks_composited, 1);

    // Sample the centre of every bin and confirm the colour is there.
    for by in 0..BINS_Y {
        for bx in 0..BINS_X {
            let mid = bin_middle(&b, bx, by);
            let texel = patch.texel_at(mid).expect("bin centre inside the patch");
            assert_eq!(
                (texel.r, texel.g, texel.b),
                expected,
                "bin ({bx},{by}) at {mid:?} did not land where expected"
            );
            assert!(texel.a > 0, "bin ({bx},{by}) should be opaque");
        }
    }
}

#[test]
fn the_mosaic_is_not_transposed_or_mirrored() {
    // A transposed or flipped mosaic still looks like coherent weather, so this is checked
    // explicitly: give one block a single hot bin in a known corner and find it.
    let now = NOW;
    let config = small_config();

    // Bin (0, 0) is the block's north-west corner.
    let mut bins = vec![0u8; BIN_COUNT];
    bins[0] = 7;

    let lat_north = CENTRE.lat_e9 + BLOCK_HEIGHT / 2;
    let lon_west = CENTRE.lon_e9 - BLOCK_WIDTH / 2;
    let b = block(NexradKind::Regional, lat_north, lon_west, bins, now);
    let patch = build(&config, std::slice::from_ref(&b), now);

    let hot = colour(NexradKind::Regional, 7).unwrap();

    // The painted bin is the north-west one.
    let inside = bin_middle(&b, 0, 0);
    let texel = patch.texel_at(inside).unwrap();
    assert_eq!(
        (texel.r, texel.g, texel.b),
        hot,
        "the hot bin should be at the NW corner"
    );

    // Its east neighbour, its south neighbour, and the SE corner must all be blank. If the mosaic
    // were transposed or mirrored, at least one of these would be painted instead.
    for (bx, by, label) in [
        (1, 0, "east neighbour"),
        (0, 1, "south neighbour"),
        (31, 3, "SE corner"),
    ] {
        let mid = bin_middle(&b, bx, by);
        let texel = patch.texel_at(mid).unwrap();
        assert_eq!(texel.a, 0, "{label} should be transparent, got {texel:?}");
    }
}

#[test]
fn the_patch_covers_a_square_patch_of_ground() {
    // The longitude span is divided by cos(latitude) so one texel is a constant ground distance in
    // both axes. If that were dropped, the mosaic would be stretched east-west by ~30% at these
    // latitudes and weather would appear displaced along track.
    let config = small_config();
    let patch = build(&config, &[], NOW);

    let south = LatLon {
        lat_e9: patch.ground.north - patch.ground.lat_span,
        ..CENTRE
    };
    let north = LatLon {
        lat_e9: patch.ground.north,
        ..CENTRE
    };
    let west = LatLon {
        lon_e9: patch.ground.west,
        ..CENTRE
    };
    let east = LatLon {
        lon_e9: patch.ground.west + patch.ground.lon_span,
        ..CENTRE
    };
    let ns_nm = ground_distance_nm(south, north, COS) as f64 / 1e9;
    let ew_nm = ground_distance_nm(west, east, COS) as f64 / 1e9;

    assert!(
        (ns_nm - ew_nm).abs() / ns_nm < 0.01,
        "patch should be square on the ground: {ns_nm:.2} nm N-S vs {ew_nm:.2} nm E-W"
    );
    assert!(
        (ns_nm - config.half_span_mnm as f64 / 1000.0 * 2.0).abs() < 0.1,
        "patch should span twice the half-span: {ns_nm:.2} nm"
    );
}

#[test]
fn blocks_outside_the_patch_are_skipped_not_wrapped() {
    let now = NOW;
    let config = small_config();
    let bins = vec![6u8; BIN_COUNT];

    // Far away in both axes — well outside a 30 nm half-span.
    let far = block(
        NexradKind::Regional,
        CENTRE.lat_e9 + 20_000_000_000,
        CENTRE.lon_e9 + 20_000_000_000,
        bins,
        now,
    );
    let patch = build(&config, &[far], now);

    assert!(patch.is_empty(), "a distant block must not paint anything");
    assert_eq!(patch.stats.blocks_skipped_outside, 1);
    assert_eq!(patch.stats.blocks_composited, 0);
    // And nothing wrapped around into the patch.
    assert!(patch.pixels.iter().all(|p| p.a == 0));
}

#[test]
fn an_all_empty_block_paints_nothing() {
    let now = NOW;
    let config = small_config();

    // Regional empty is 0; CONUS empty is 1. Both must produce a blank patch.
    for (kind, empty) in [(NexradKind::Regional, 0u8), (NexradKind::Conus, 1u8)] {
        let bins = vec![empty; BIN_COUNT];
        let b = block(kind, CENTRE.lat_e9, CENTRE.lon_e9, bins, now);
        let patch = build(&config, &[b], now);
        assert!(
            patch.is_empty(),
            "{kind:?} empty block should paint nothing"
        );
    }
}

#[test]
fn stale_blocks_are_composited_more_faintly_than_fresh_ones() {
    let now = NOW;
    let config = small_config();
    let bins = vec![5u8; BIN_COUNT];

    let sample = CENTRE;
    let position = (
        CENTRE.lat_e9 + BLOCK_HEIGHT / 2,
        CENTRE.lon_e9 - BLOCK_WIDTH / 2,
    );

    let fresh = build(&config, &[block(
            NexradKind::Regional,
            position.0,
            position.1,
            bins.clone(),
            now,
        )], now);
    let stale = build(&config, &[block(
            NexradKind::Regional,
            position.0,
            position.1,
            bins,
            now - 12 * 60 * SECOND,
        )], now);

    let fresh_alpha = fresh.texel_at(sample).unwrap().a;
    let stale_alpha = stale.texel_at(sample).unwrap().a;
    assert!(fresh_alpha > 0 && stale_alpha > 0);
    assert!(
        stale_alpha < fresh_alpha,
        "stale weather must be fainter: {stale_alpha} vs {fresh_alpha}"
    );
}

#[test]
fn positions_outside_the_patch_have_no_texel() {
    let patch = build(&small_config(), &[], NOW);
    assert!(patch
        .texel_at(LatLon {
            lat_e9: CENTRE.lat_e9 + 30_000_000_000,
            ..CENTRE
        })
        .is_none());
    assert!(patch
        .texel_at(LatLon {
            lon_e9: CENTRE.lon_e9 + 30_000_000_000,
            ..CENTRE
        })
        .is_none());
    assert!(patch.texel_at(CENTRE).is_some());
}

// --- cache invalidation -------------------------------------------------------------------

#[test]
fn an_uncomposited_mosaic_always_needs_a_composite() {
    let mosaic = Mosaic::new(small_config());
    assert!(mosaic.needs_composite(false, 1, 0, CENTRE, COS, NOW));
}

#[test]
fn the_fade_fingerprint_changes_only_when_a_block_crosses_a_fade_step() {
    // If it changed continuously, the texture would be rebuilt every frame.
    let now = NOW;
    let bins = vec![5u8; BIN_COUNT];
    let blocks = [block(
        NexradKind::Regional,
        CENTRE.lat_e9,
        CENTRE.lon_e9,
        bins,
        now,
    )];

    let base = fade_fingerprint(&blocks, now);

    // Still inside the "fresh" step a minute later: no rebuild.
    assert_eq!(
        base,
        fade_fingerprint(&blocks, now + 60 * SECOND),
        "ageing within a step must not invalidate the cache"
    );
    assert_eq!(
        base,
        fade_fingerprint(&blocks, now + 4 * 60 * SECOND),
    );

    // Crossing into "aging" and then "stale" must each invalidate exactly once.
    let aging = fade_fingerprint(&blocks, now + 6 * 60 * SECOND);
    let stale = fade_fingerprint(&blocks, now + 12 * 60 * SECOND);
    assert_ne!(base, aging, "crossing into the aging step must invalidate");
    assert_ne!(aging, stale, "crossing into the stale step must invalidate");
}

#[test]
fn the_fade_fingerprint_does_not_depend_on_iteration_order() {
    // Blocks live in a HashMap, whose iteration order is not stable. If the fingerprint depended on
    // it, the texture would be rebuilt at random.
    let now = NOW;
    let a = || {
        block(
            NexradKind::Regional,
            CENTRE.lat_e9,
            CENTRE.lon_e9,
            vec![4u8; BIN_COUNT],
            now,
        )
    };
    let b = || {
        block(
            NexradKind::Regional,
            CENTRE.lat_e9 + BLOCK_HEIGHT,
            CENTRE.lon_e9,
            vec![4u8; BIN_COUNT],
            now - 7 * 60 * SECOND,
        )
    };

    let forward = [a(), b()];
    let backward = [b(), a()];
    assert_eq!(
        fade_fingerprint(&forward, now),
        fade_fingerprint(&backward, now)
    );
}

#[test]
fn moving_far_enough_forces_a_recentre() {
    let config = small_config();
    let east = Turn { sin: UNIT, cos: 0 };
    let moved = |nm: u64| advance(CENTRE, east, 3_600_000, nm * SECOND, COS);
    let near = ground_distance_nm(CENTRE, moved(1), COS) as i64 / 1_000_000;
    assert!((near - 1_000).abs() < 10, "1 nm displacement, got {near}");
    assert!(
        config.recentre_after_mnm > 1_000,
        "1 nm should not force a recentre"
    );
    let far = ground_distance_nm(CENTRE, moved(25), COS) as i64 / 1_000_000;
    assert!(
        far > config.recentre_after_mnm,
        "25 nm must force a recentre"
    );

    let mut mosaic = Mosaic::new(small_config());
    mosaic.install(build(&small_config(), &[], NOW), 7, 9, NOW);
    assert!(!mosaic.needs_composite(true, 7, 9, moved(1), COS, NOW));
    assert!(mosaic.needs_composite(true, 7, 9, moved(25), COS, NOW));
}

#[test]
fn a_mosaic_is_rebuilt_only_for_a_reason() {
    let config = small_config();
    let mut mosaic = Mosaic::new(small_config());
    assert_eq!(mosaic.step(false, 0, 1, 0, CENTRE, COS, NOW), MosaicStep::Nothing);
    assert_eq!(mosaic.centre(), None);

    mosaic.install(build(&config, &[], NOW), 7, 9, NOW);
    assert_eq!(mosaic.centre(), Some(CENTRE));
    assert_eq!(mosaic.stats().composites, 1);
    assert!(!mosaic.needs_composite(true, 7, 9, CENTRE, COS, NOW + SECOND));
    assert!(mosaic.needs_composite(true, 8, 9, CENTRE, COS, NOW), "new data");
    assert!(mosaic.needs_composite(true, 7, 10, CENTRE, COS, NOW), "a fade step");
    assert!(mosaic.needs_composite(false, 7, 9, CENTRE, COS, NOW), "no texture");
    assert!(
        mosaic.needs_composite(true, 7, 9, CENTRE, COS, NOW + config.refresh_interval + SECOND),
        "the backstop"
    );
}

// --- interaction --------------------------------------------------------------------------

fn tap(
    theme: &Theme,
    view: &mut ViewState,
    layout: &Layout,
    x: i64,
    y: i64,
    rows: usize,
    total: usize,
) {
    interact::tap(theme, view, layout, x, y, rows, total, NOW);
}

fn layout() -> Layout {
    Layout::for_size(800_000, 480_000, &Theme::dark())
}

#[test]
fn tap_zones_split_the_screen_as_expected() {
    let l = layout();
    assert_eq!(zone_for(&l, 400_000, 4_000), TapZone::StatusBar);
    assert_eq!(zone_for(&l, 400_000, l.height - 2_000), TapZone::Footer);
    assert_eq!(
        zone_for(&l, 400_000, l.status_bar_height + 10_000),
        TapZone::BodyUpper
    );
    assert_eq!(
        zone_for(&l, 400_000, l.height - l.footer_height - 10_000),
        TapZone::BodyLower
    );
}

#[test]
fn the_status_bar_is_inert() {
    let l = layout();
    let mut view = ViewState::default();
    let x = l.content_x0 + l.content_width() / 2;

    for _ in 0..3 {
        tap(&Theme::dark(), &mut view, &l, x, 4_000, 8, 0);
        assert_eq!(
            view.page,
            Page::PlanView,
            "the status bar must not change page"
        );
    }
}

#[test]
fn tapping_the_plan_view_body_changes_nothing() {
    // A hand steadying itself against the panel in turbulence must not silently change the range
    // scale. Range moves only via RNG+/RNG-.
    let l = layout();
    let mut view = ViewState::default();
    let before = view.range_mnm;

    tap(&Theme::dark(), &mut view, &l, 400_000, 240_000, 8, 0);
    assert_eq!(view.range_mnm, before, "body taps must not change range");
    assert_eq!(view.page, Page::PlanView);
}

#[test]
fn tapping_a_weather_row_opens_that_report() {
    // The whole point of the gesture: the report that opens must be the one under the finger.
    let theme = Theme::dark();
    let l = layout();
    let rows = rows_per_page(&theme, &l);
    let total = 30;
    let range = ViewState::default().range_mnm;

    for row in [0, 1, rows - 1] {
        let mut view = ViewState {
            page: Page::Weather,
            ..Default::default()
        };
        tap(
            &theme,
            &mut view,
            &l,
            400_000,
            row_center(&theme, &l, row),
            rows,
            total,
        );
        assert!(view.weather_decode, "row {row} should open decoded");
        assert_eq!(
            view.weather_scroll, row,
            "row {row} selected the wrong report"
        );
        assert_eq!(view.range_mnm, range, "range must not change on this page");
    }
}

#[test]
fn tapping_a_row_on_a_scrolled_page_accounts_for_the_offset() {
    // The failure this guards against is silent and dangerous in exactly the wrong way: you tap
    // the row that says KTTN and read a report for somewhere else. Nothing on the decoded page
    // would look wrong, because it correctly describes the station it actually opened.
    let theme = Theme::dark();
    let l = layout();
    let rows = rows_per_page(&theme, &l);
    let mut view = ViewState {
        page: Page::Weather,
        weather_scroll: rows,
        ..Default::default()
    };

    tap(
        &theme,
        &mut view,
        &l,
        400_000,
        row_center(&theme, &l, 2),
        rows,
        40,
    );
    assert_eq!(view.weather_scroll, rows + 2);
}

#[test]
fn tapping_a_decoded_report_returns_to_its_page_of_the_list() {
    // Entering by tap has to be undoable by tap, or the gesture is a one-way door. Coming back to
    // the *page* the report was on rather than to the report's own index is what makes it a round
    // trip: otherwise closing the last report on a page leaves it stranded at the top of the list.
    let theme = Theme::dark();
    let l = layout();
    let rows = rows_per_page(&theme, &l);
    let mut view = ViewState {
        page: Page::Weather,
        weather_scroll: rows,
        ..Default::default()
    };
    let last = row_center(&theme, &l, rows - 1);

    tap(&theme, &mut view, &l, 400_000, last, rows, 40);
    assert!(view.weather_decode);
    assert_eq!(view.weather_scroll, rows * 2 - 1);

    tap(&theme, &mut view, &l, 400_000, last, rows, 40);
    assert!(!view.weather_decode, "a second tap comes back out");
    assert_eq!(view.weather_scroll, rows, "and to the page it came from");
}

#[test]
fn scrolling_past_the_end_wraps_to_the_top() {
    // With no scrollbar to drag, a key that does nothing looks like the display has frozen.
    let mut view = ViewState {
        page: Page::Weather,
        ..Default::default()
    };
    let (rows, total) = (8usize, 10usize);

    apply_key_at(&mut view, SoftKey::ScrollDown, rows, total, NOW);
    assert_eq!(view.weather_scroll, total - rows, "clamps to the last page");
    apply_key_at(&mut view, SoftKey::ScrollDown, rows, total, NOW);
    assert_eq!(view.weather_scroll, 0, "then wraps");
}

#[test]
fn tapping_below_the_last_report_does_nothing() {
    // Three reports on a page that holds fifteen leaves most of the body empty. There is no report
    // under that space, and opening the nearest one would open a report the finger was not on.
    let theme = Theme::dark();
    let l = layout();
    let rows = rows_per_page(&theme, &l);
    let mut view = ViewState {
        page: Page::Weather,
        ..Default::default()
    };

    tap(
        &theme,
        &mut view,
        &l,
        400_000,
        row_center(&theme, &l, rows - 1),
        rows,
        3,
    );
    assert!(!view.weather_decode);
    assert_eq!(view.weather_scroll, 0);
}

#[test]
fn the_header_row_is_not_a_report() {
    // `row_at` counts from the first entry, not from the top of the body. Getting this wrong by
    // one row would mean every tap on the page opened its neighbour.
    let theme = Theme::dark();
    let l = layout();
    assert_eq!(row_at(&theme, &l, l.status_bar_height + 2_000), None);
    assert_eq!(row_at(&theme, &l, row_center(&theme, &l, 0)), Some(0));
    assert_eq!(row_at(&theme, &l, row_center(&theme, &l, 4)), Some(4));
}

#[test]
fn rows_tile_without_gaps_between_them() {
    // A dead strip between two touch targets reads as a frozen display. Sweep the whole band of
    // rows and check every pixel belongs to one, in order.
    let theme = Theme::dark();
    let l = layout();
    let rows = rows_per_page(&theme, &l);
    let mut previous = 0;

    let top =
        row_center(&theme, &l, 0) - (row_center(&theme, &l, 1) - row_center(&theme, &l, 0)) / 2;
    let mut y = top + 500;
    while y < row_center(&theme, &l, rows - 1) {
        let row = row_at(&theme, &l, y).unwrap_or_else(|| panic!("no row at y = {y}"));
        assert!(
            row == previous || row == previous + 1,
            "y = {y} jumped from row {previous} to {row}"
        );
        previous = row;
        y += 1_000;
    }
    assert_eq!(previous, rows - 1, "the sweep should reach the last row");
}

#[test]
fn two_finger_tap_toggles_orientation_only_on_the_plan_view() {
    let mut view = ViewState::default();
    two_finger_tap(&mut view);
    assert_eq!(view.orientation, Orientation::TrackUp);

    // On the text page there is nothing sensible to toggle, so it must do nothing rather than
    // silently change the orientation of a screen the pilot cannot see.
    let mut view = ViewState {
        page: Page::Weather,
        orientation: Orientation::NorthUp,
        ..Default::default()
    };
    two_finger_tap(&mut view);
    assert_eq!(view.orientation, Orientation::NorthUp);
}

#[test]
fn tapping_the_footer_does_nothing() {
    let l = layout();
    let mut view = ViewState::default();
    let before = view.clone();
    tap(&Theme::dark(), &mut view, &l, 400_000, l.height - 2_000, 8, 30);
    assert_eq!(view.page, before.page);
    assert_eq!(view.range_mnm, before.range_mnm);
    assert_eq!(view.weather_scroll, before.weather_scroll);
}

#[test]
fn a_patch_near_a_pole_reaches_as_far_as_its_span_takes_it() {
    let config = MosaicConfig { half_span_mnm: 60_000, ..MosaicConfig::default() };
    assert_eq!(reach_in_longitude(&config, UNIT), 1_000_000_000);
    assert_eq!(reach_in_longitude(&config, UNIT / 2), 2_000_000_000);
    // The meridians are never taken to be closer together than a millionth of what they are apart
    // at the equator.
    assert_eq!(reach_in_longitude(&config, 1_000), 1_000_000_000_000_000);
    assert_eq!(reach_in_longitude(&config, 0), 1_000_000_000_000_000);
}
