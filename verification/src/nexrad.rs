//! The NEXRAD precipitation underlay.
//!
//! # Why one texture
//!
//! A full picture is on the order of a hundred blocks of 128 bins each, over ten thousand little
//! rectangles. Drawing those as paths would be ten thousand draw calls per frame. Instead every
//! block is composited into a single RGBA texture, uploaded once, and drawn as **one** quad.
//!
//! The texture is laid out in latitude/longitude, not screen space. If it were screen-aligned,
//! every heading change in track-up would invalidate it; in lat/lon it stays valid until the
//! blocks themselves change, and rotation becomes a transform on the single quad.
//!
//! The longitude span is widened by the cosine of the latitude so the texture covers a *square
//! patch of ground*.
//!
//! # Intensity scales differ between the two products
//!
//! This is the part most likely to be silently wrong. Product 63 (regional) and product 64 (CONUS)
//! do not share an intensity scale: on the regional product 0 means "looked, below 5 dBZ", whereas
//! on CONUS that state is 1 and 0 means "no data at all". So the CONUS scale is offset by one, and
//! treating them alike paints either phantom precipitation everywhere or holes through real
//! coverage.

use vstd::prelude::*;

use crate::domain::{elapsed, time_since, LatLon, NexradBlock, NexradKind, BIN_COUNT, SECOND};
use crate::projection::{further, is_further, shrink_of, UNIT};

verus! {

// --- colour and age ------------------------------------------------------------------------

/// Visible intensity colours, lightest to heaviest.
///
/// The conventional green / yellow / orange / red / magenta radar ramp, saturated a little harder
/// than a desktop palette would be because it has to survive daylight on a 7" panel.
pub const RAMP: [(u8, u8, u8); 7] = [
    (16, 150, 24),
    (10, 120, 16),
    (235, 215, 60),
    (240, 160, 35),
    (235, 60, 45),
    (185, 28, 28),
    (210, 45, 195),
];

/// Which step of the ramp an intensity is, counted from zero; negative for nothing to draw.
pub open spec fn ramp_step(kind: NexradKind, intensity: int) -> int {
    match kind {
        // 0 = valid data below 5 dBZ, i.e. nothing worth drawing.
        NexradKind::Regional => intensity - 1,
        // 0 = no data, 1 = valid but no precipitation. Both are blank.
        NexradKind::Conus => intensity - 2,
    }
}

/// The colour of an intensity, if it is drawn at all.
pub open spec fn colour_of(kind: NexradKind, intensity: int) -> Option<(u8, u8, u8)> {
    let step = ramp_step(kind, intensity);
    if 0 <= step < 7 {
        Some(RAMP[step])
    } else {
        None
    }
}

/// Colour for an intensity on a given product, or `None` for "draw nothing here".
pub fn colour(kind: NexradKind, intensity: u8) -> (r: Option<(u8, u8, u8)>)
    ensures
        r == colour_of(kind, intensity as int),
{
    let offset: u8 = match kind {
        NexradKind::Regional => 1,
        NexradKind::Conus => 2,
    };
    if intensity < offset || intensity - offset >= 7 {
        None
    } else {
        Some(RAMP[(intensity - offset) as usize])
    }
}

/// Which fade step an age in nanoseconds is in.
pub open spec fn fade_step(age: int) -> int {
    if age <= 300 * SECOND {
        0
    } else if age <= 600 * SECOND {
        1
    } else {
        2
    }
}

/// Which fade step a block is in: 0 fresh, 1 aging, 2 stale.
///
/// Coarse on purpose. Fading is what drives re-compositing, and a continuous fade would mean
/// rebuilding the whole texture every frame. Three steps over the fifteen minutes a block lives
/// means at most two rebuilds per block for fade reasons.
pub fn fade_bucket(age: u64) -> (r: u8)
    ensures
        r == fade_step(age as int),
{
    if age <= 300 * SECOND {
        0
    } else if age <= 600 * SECOND {
        1
    } else {
        2
    }
}

/// How opaque a fade step is, in per cent.
pub open spec fn step_alpha(step: int) -> int {
    if step == 0 {
        100
    } else if step == 1 {
        70
    } else {
        45
    }
}

/// How opaque a block should be, in per cent, given how long ago it arrived.
///
/// Fades rather than hides: precipitation that was there five minutes ago is still useful
/// information, provided the pilot can see that it is not current.
pub fn age_alpha(age: u64) -> (r: u8)
    ensures
        r == step_alpha(fade_step(age as int)),
{
    match fade_bucket(age) {
        0 => 100,
        1 => 70,
        _ => 45,
    }
}

/// The fade step of a block at a moment.
pub open spec fn block_step(block: NexradBlock, now: int) -> int {
    fade_step(time_since(now, block.received as int))
}

/// The fade steps of a list of blocks, added up.
pub open spec fn steps_total(blocks: Seq<NexradBlock>, now: int) -> int
    decreases blocks.len(),
{
    if blocks.len() == 0 {
        0
    } else {
        steps_total(blocks.drop_last(), now) + block_step(blocks.last(), now)
    }
}

/// What one fade step adds to the fingerprint.
pub const FADE_WEIGHT: u64 = 0x9E37_79B9_7F4A_7C15;

/// The fingerprint of a list of blocks.
pub open spec fn fingerprint_of(blocks: Seq<NexradBlock>, now: int) -> int {
    steps_total(blocks, now) * FADE_WEIGHT as int % 0x1_0000_0000_0000_0000
}

/// A cheap fingerprint of every block's fade step.
///
/// Compositing is the one expensive thing this module does. Driving fade updates off an actual
/// change in this fingerprint rather than off a clock cuts fade-driven rebuilds to at most two per
/// block lifetime.
pub fn fade_fingerprint(blocks: &[NexradBlock], now: u64) -> (r: u64)
    ensures
        r == fingerprint_of(blocks@, now as int),
{
    let mut sum: u64 = 0;
    let mut i: usize = 0;
    assert(blocks@.take(0) =~= seq![]);
    assert(fingerprint_of(blocks@.take(0), now as int) == 0);
    while i < blocks.len()
        invariant
            i <= blocks.len(),
            sum == fingerprint_of(blocks@.take(i as int), now as int),
        decreases blocks.len() - i,
    {
        let bucket: u64 = fade_bucket(elapsed(now, blocks[i].received)) as u64;
        let ghost total = steps_total(blocks@.take(i as int), now as int);
        proof {
            assert(blocks@.take(i + 1).drop_last() =~= blocks@.take(i as int));
            assert(blocks@.take(i + 1).last() == blocks@[i as int]);
            assert(bucket == block_step(blocks@[i as int], now as int));
            let m = 0x1_0000_0000_0000_0000int;
            vstd::arithmetic::div_mod::lemma_add_mod_noop(
                total * FADE_WEIGHT as int,
                bucket as int * FADE_WEIGHT as int,
                m,
            );
            assert((total + bucket as int) * FADE_WEIGHT as int == total * FADE_WEIGHT as int
                + bucket as int * FADE_WEIGHT as int) by (nonlinear_arith);
            assert(bucket == 0 || bucket == 1 || bucket == 2);
        }
        // Order-independent so the order blocks are held in cannot cause spurious rebuilds.
        sum = sum.wrapping_add(bucket.wrapping_mul(FADE_WEIGHT));
        i = i + 1;
    }
    assert(blocks@.take(i as int) =~= blocks@);
    sum
}

// --- the patch of ground -------------------------------------------------------------------

#[derive(Debug, Clone, Copy, PartialEq, Eq, Structural)]
pub struct MosaicConfig {
    /// Texture edge length in pixels. Kept a power of two: GLES 2.0 only guarantees
    /// non-power-of-two textures with restrictions there is no reason to depend on here.
    pub texture_size: usize,
    /// Half the ground extent covered, in thousandths of a nautical mile. Must exceed the largest
    /// range ring.
    pub half_span_mnm: i64,
    /// Re-centre and re-composite once own-ship has moved this far from the patch centre.
    pub recentre_after_mnm: i64,
    /// Backstop rebuild interval.
    ///
    /// Fading is handled by [`fade_fingerprint`], so this exists only to catch anything the
    /// invalidation checks miss. Deliberately long: a rebuild is expensive.
    pub refresh_interval: u64,
}

impl Default for MosaicConfig {
    fn default() -> (r: MosaicConfig)
        ensures
            r.texture_size == 1024,
            r.half_span_mnm == 60_000,
            r.recentre_after_mnm == 10_000,
            r.refresh_interval == 300 * SECOND,
    {
        MosaicConfig {
            // 1024 x 1024 RGBA is 4 MB, and at 120 nm across gives ~8.5 px per nautical mile,
            // which is more than the data actually resolves.
            texture_size: 1024,
            // The largest range ring is 40 nm; 60 leaves margin so the patch does not need
            // re-centring for every small manoeuvre.
            half_span_mnm: 60_000,
            recentre_after_mnm: 10_000,
            refresh_interval: 300 * SECOND,
        }
    }
}

/// Statistics from the last composite.
#[derive(Debug, Clone, Copy, PartialEq, Eq, Structural)]
pub struct MosaicStats {
    pub blocks_composited: usize,
    pub blocks_skipped_outside: usize,
    pub bins_painted: usize,
    pub composites: u64,
}

impl Default for MosaicStats {
    fn default() -> (r: MosaicStats)
        ensures
            r == (MosaicStats {
                blocks_composited: 0,
                blocks_skipped_outside: 0,
                bins_painted: 0,
                composites: 0,
            }),
    {
        MosaicStats {
            blocks_composited: 0,
            blocks_skipped_outside: 0,
            bins_painted: 0,
            composites: 0,
        }
    }
}

/// One pixel of the texture.
#[derive(Debug, Clone, Copy, PartialEq, Eq, Structural)]
pub struct Texel {
    pub r: u8,
    pub g: u8,
    pub b: u8,
    pub a: u8,
}

/// A pixel nothing was painted on.
pub open spec fn blank() -> Texel {
    Texel { r: 0, g: 0, b: 0, a: 0 }
}

/// The most a patch spans in longitude, in billionths of a degree. Close to a pole a patch reaches
/// round the world many times over.
pub const WIDEST: i64 = 400_000_000_000_000_000;

/// A square of texels laid over a box of latitudes and longitudes, the first in its north-west
/// corner. Positions are in billionths of a degree.
#[derive(Debug, Clone, Copy, PartialEq, Eq, Structural)]
pub struct Ground {
    pub north: i64,
    pub west: i64,
    pub lat_span: i64,
    pub lon_span: i64,
    pub size: usize,
}

impl Ground {
    pub open spec fn wf(self) -> bool {
        &&& -2_000_000_000_000 <= self.north <= 2_000_000_000_000
        &&& -WIDEST <= self.west <= WIDEST
        &&& 0 < self.lat_span <= 2_000_000_000_000
        &&& 0 < self.lon_span <= WIDEST
        &&& 0 < self.size <= 16_384
    }
}

/// The texel an offset into a span falls in: the number of whole texels before it, never less than
/// none nor more than all.
pub open spec fn texel_floor(offset: int, span: int, size: int) -> int {
    if offset <= 0 {
        0
    } else if offset * size / span > size {
        size
    } else {
        offset * size / span
    }
}

/// The texel an offset into a span falls in, rounded up.
pub open spec fn texel_ceil(offset: int, span: int, size: int) -> int {
    if offset <= 0 {
        0
    } else if (offset * size + span - 1) / span > size {
        size
    } else {
        (offset * size + span - 1) / span
    }
}

fn floor_texel(offset: i64, span: i64, size: usize) -> (r: usize)
    requires
        -WIDEST - 8_000_000_000_000 <= offset <= WIDEST + 8_000_000_000_000,
        0 < span <= WIDEST,
        size <= 16_384,
    ensures
        r == texel_floor(offset as int, span as int, size as int),
        r <= size,
{
    if offset <= 0 {
        return 0;
    }
    assert(0 <= offset * size <= 400_008_000_000_000_000 * 16_384) by (nonlinear_arith)
        requires
            0 <= offset <= 400_008_000_000_000_000,
            0 <= size <= 16_384,
    ;
    proof {
        let (n, d) = (offset * size, span as int);
        assert(0 <= n / d) by (nonlinear_arith)
            requires
                0 <= n,
                0 < d,
        ;
    }
    let at: i128 = offset as i128 * (size as i128) / span as i128;
    if at > size as i128 {
        size
    } else {
        at as usize
    }
}

fn ceil_texel(offset: i64, span: i64, size: usize) -> (r: usize)
    requires
        -WIDEST - 8_000_000_000_000 <= offset <= WIDEST + 8_000_000_000_000,
        0 < span <= WIDEST,
        size <= 16_384,
    ensures
        r == texel_ceil(offset as int, span as int, size as int),
        r <= size,
{
    if offset <= 0 {
        return 0;
    }
    assert(0 <= offset * size <= 400_008_000_000_000_000 * 16_384) by (nonlinear_arith)
        requires
            0 <= offset <= 400_008_000_000_000_000,
            0 <= size <= 16_384,
    ;
    proof {
        let (n, d) = (offset * size + span - 1, span as int);
        assert(0 <= n / d) by (nonlinear_arith)
            requires
                0 <= n,
                0 < d,
        ;
    }
    let at: i128 = (offset as i128 * (size as i128) + span as i128 - 1) / span as i128;
    if at > size as i128 {
        size
    } else {
        at as usize
    }
}

/// The west edge of a column of bins.
pub open spec fn column_west(block: NexradBlock, column: int) -> int {
    block.lon_west + block.width * column / 32
}

/// The north edge of a row of bins.
pub open spec fn row_north(block: NexradBlock, row: int) -> int {
    block.lat_north - block.height * row / 4
}

/// The texels a bin covers: `(x0, x1, y0, y1)`, the upper ends left out. Row 0 is the north edge.
pub open spec fn bin_texels(block: NexradBlock, bin: int, ground: Ground) -> (int, int, int, int) {
    let (column, row) = (bin % 32, bin / 32);
    let size = ground.size as int;
    (
        texel_floor(column_west(block, column) - ground.west, ground.lon_span as int, size),
        texel_ceil(column_west(block, column + 1) - ground.west, ground.lon_span as int, size),
        texel_floor(ground.north - row_north(block, row), ground.lat_span as int, size),
        texel_ceil(ground.north - row_north(block, row + 1), ground.lat_span as int, size),
    )
}

fn texels_of_bin(block: &NexradBlock, bin: usize, ground: &Ground) -> (r: (
    usize,
    usize,
    usize,
    usize,
))
    requires
        block.wf(),
        ground.wf(),
        bin < BIN_COUNT,
    ensures
        (r.0 as int, r.1 as int, r.2 as int, r.3 as int) == bin_texels(
            *block,
            bin as int,
            *ground,
        ),
        r.0 <= ground.size && r.1 <= ground.size && r.2 <= ground.size && r.3 <= ground.size,
{
    let column: i64 = (bin % 32) as i64;
    let row: i64 = (bin / 32) as i64;
    let (width, height): (i64, i64) = (block.width, block.height);
    assert(0 <= width * column <= 32_000_000_000_000 && 0 <= width * (column + 1)
        <= 32_000_000_000_000 && 0 <= height * row <= 4_000_000_000_000 && 0 <= height * (row + 1)
        <= 4_000_000_000_000)
        by (nonlinear_arith)
        requires
            0 <= width <= 1_000_000_000_000,
            0 <= height <= 1_000_000_000_000,
            0 <= column <= 31,
            0 <= row <= 3,
    ;
    let west: i64 = block.lon_west + width * column / 32;
    let east: i64 = block.lon_west + width * (column + 1) / 32;
    let north: i64 = block.lat_north - height * row / 4;
    let south: i64 = block.lat_north - height * (row + 1) / 4;
    (
        floor_texel(west - ground.west, ground.lon_span, ground.size),
        ceil_texel(east - ground.west, ground.lon_span, ground.size),
        floor_texel(ground.north - north, ground.lat_span, ground.size),
        ceil_texel(ground.north - south, ground.lat_span, ground.size),
    )
}

/// Whether a block lies wholly outside a patch.
pub open spec fn is_outside(block: NexradBlock, ground: Ground) -> bool {
    ||| block.lat_north - block.height > ground.north
    ||| block.lat_north < ground.north - ground.lat_span
    ||| block.lon_west + block.width < ground.west
    ||| block.lon_west > ground.west + ground.lon_span
}

/// Whether a bin is painted: its block is not outside, it has an intensity that is drawn, and it
/// covers some texel.
pub open spec fn is_painted(block: NexradBlock, bin: int, ground: Ground) -> bool {
    let (x0, x1, y0, y1) = bin_texels(block, bin, ground);
    &&& !is_outside(block, ground)
    &&& bin < block.bins@.len()
    &&& colour_of(block.kind, block.bins@[bin] as int) is Some
    &&& x0 < x1
    &&& y0 < y1
}

/// How opaque a texel is: 72% of what its age calls for. Weather must never obscure a traffic
/// symbol.
pub open spec fn texel_alpha(percent: int) -> int {
    255 * 72 * percent / 10_000
}

/// The texel a painted bin leaves.
pub open spec fn bin_texel(block: NexradBlock, bin: int, now: int) -> Texel {
    let (r, g, b) = colour_of(block.kind, block.bins@[bin] as int)->0;
    Texel { r, g, b, a: texel_alpha(step_alpha(block_step(block, now))) as u8 }
}

/// Whether a bin covers a texel.
pub open spec fn bin_covers(block: NexradBlock, bin: int, ground: Ground, row: int, col: int) -> bool {
    let (x0, x1, y0, y1) = bin_texels(block, bin, ground);
    x0 <= col < x1 && y0 <= row < y1
}

/// What is on a texel once the first `count` bins, counted through all the blocks, are painted:
/// what the last of them to cover it left there.
pub open spec fn texel_after(
    blocks: Seq<NexradBlock>,
    ground: Ground,
    now: int,
    count: int,
    row: int,
    col: int,
) -> Texel
    decreases count,
{
    if count <= 0 {
        blank()
    } else {
        let block = blocks[(count - 1) / 128];
        let bin = (count - 1) % 128;
        if is_painted(block, bin, ground) && bin_covers(block, bin, ground, row, col) {
            bin_texel(block, bin, now)
        } else {
            texel_after(blocks, ground, now, count - 1, row, col)
        }
    }
}

/// How many of the first `count` bins of a block are painted.
pub open spec fn bins_of_block(block: NexradBlock, ground: Ground, count: int) -> nat
    decreases count,
{
    if count <= 0 {
        0
    } else {
        bins_of_block(block, ground, count - 1) + if is_painted(block, count - 1, ground) {
            1nat
        } else {
            0nat
        }
    }
}

/// How many bins of the first `count` blocks are painted.
pub open spec fn bins_total(blocks: Seq<NexradBlock>, ground: Ground, count: int) -> nat
    decreases count,
{
    if count <= 0 {
        0
    } else {
        bins_total(blocks, ground, count - 1) + bins_of_block(blocks[count - 1], ground, 128)
    }
}

/// How many of the first `count` blocks have a bin painted.
pub open spec fn blocks_painted(blocks: Seq<NexradBlock>, ground: Ground, count: int) -> nat
    decreases count,
{
    if count <= 0 {
        0
    } else {
        blocks_painted(blocks, ground, count - 1) + if bins_of_block(
            blocks[count - 1],
            ground,
            128,
        ) > 0 {
            1nat
        } else {
            0nat
        }
    }
}

/// How many of the first `count` blocks lie wholly outside.
pub open spec fn blocks_outside(blocks: Seq<NexradBlock>, ground: Ground, count: int) -> nat
    decreases count,
{
    if count <= 0 {
        0
    } else {
        blocks_outside(blocks, ground, count - 1) + if is_outside(blocks[count - 1], ground) {
            1nat
        } else {
            0nat
        }
    }
}

/// A composited square patch of ground, in RGBA, ready to upload.
///
/// Getting where things land wrong produces a picture that looks entirely plausible while being in
/// the wrong place, which is the single worst failure mode for a weather overlay.
pub struct Patch {
    pub pixels: Vec<Texel>,
    pub ground: Ground,
    pub centre: LatLon,
    pub stats: MosaicStats,
}

/// How far a patch reaches north and south of its centre, in billionths of a degree.
pub open spec fn reach_of(config: MosaicConfig) -> int {
    config.half_span_mnm * 50_000 / 3
}

/// How far a patch reaches east and west of its centre, in billionths of a degree: the reach in
/// latitude divided by the cosine of the latitude, so that one texel is a constant ground distance
/// both ways and the patch stays square on screen.
pub open spec fn reach_across(config: MosaicConfig, cos_lat: int) -> int {
    reach_of(config) * UNIT / shrink_of(cos_lat)
}

/// How far a patch reaches east and west of its centre, in billionths of a degree.
pub fn reach_in_longitude(config: &MosaicConfig, cos_lat: i64) -> (r: i64)
    requires
        0 < config.half_span_mnm <= 10_000_000,
        cos_lat <= UNIT,
    ensures
        r == reach_across(*config, cos_lat as int),
        0 < r <= WIDEST / 2,
{
    let shrink: i64 = if cos_lat < 1_000 {
        1_000
    } else {
        cos_lat
    };
    let reach: i64 = config.half_span_mnm * 50_000 / 3;
    proof {
        let n = reach as int * UNIT;
        let d = shrink as int;
        assert(1 <= n / d <= n / 1_000) by (nonlinear_arith)
            requires
                n >= 1_000_000_000,
                1_000 <= d <= 1_000_000_000,
        ;
    }
    (reach as i128 * UNIT as i128 / shrink as i128) as i64
}

impl Patch {
    /// Whether there is a texel for every place on the ground.
    pub open spec fn wf(self) -> bool {
        self.ground.wf() && self.pixels@.len() == self.ground.size * self.ground.size
    }

    /// The texel in a row and a column.
    pub open spec fn texel(self, row: int, col: int) -> Texel {
        self.pixels@[row * self.ground.size + col]
    }
}

/// The ground a patch covers.
pub open spec fn ground_of(config: MosaicConfig, centre: LatLon, half_span_lon: int) -> Ground {
    let half_lat = config.half_span_mnm * 50_000 / 3;
    Ground {
        north: (centre.lat_e9 + half_lat) as i64,
        west: (centre.lon_e9 - half_span_lon) as i64,
        lat_span: (2 * half_lat) as i64,
        lon_span: (2 * half_span_lon) as i64,
        size: config.texture_size,
    }
}

/// Whether a row and a column are where an index into a square of texels is.
proof fn index_splits(row: int, col: int, size: int)
    requires
        0 <= row,
        0 <= col < size,
    ensures
        (row * size + col) / size == row,
        (row * size + col) % size == col,
        0 <= row * size,
{
    vstd::arithmetic::div_mod::lemma_fundamental_div_mod_converse(row * size + col, size, row, col);
    assert(0 <= row * size) by (nonlinear_arith)
        requires
            0 <= row,
            0 < size,
    ;
}

/// A row and a column of a square of texels have a place in it.
proof fn index_inside(row: int, col: int, size: int)
    requires
        0 <= row < size,
        0 <= col < size,
    ensures
        0 <= row * size + col < size * size,
{
    assert(0 <= row * size + col < size * size) by (nonlinear_arith)
        requires
            0 <= row < size,
            0 <= col < size,
    ;
}

/// Paint a rectangle of texels.
fn fill_rect(
    pixels: &mut Vec<Texel>,
    size: usize,
    x0: usize,
    x1: usize,
    y0: usize,
    y1: usize,
    texel: Texel,
)
    requires
        0 < size <= 16_384,
        old(pixels)@.len() == size * size,
        x0 <= size && x1 <= size && y0 <= size && y1 <= size,
    ensures
        final(pixels)@.len() == size * size,
        forall|row: int, col: int|
            0 <= row < size && 0 <= col < size ==> #[trigger] final(pixels)@[row * size + col]
                == if x0 <= col < x1 && y0 <= row < y1 {
                texel
            } else {
                old(pixels)@[row * size + col]
            },
{
    let ghost before = pixels@;
    let mut y: usize = y0;
    while y < y1
        invariant
            y0 <= y,
            y <= y1 || y == y0,
            y1 <= size,
            x1 <= size,
            0 < size <= 16_384,
            pixels@.len() == size * size,
            before.len() == size * size,
            forall|i: int|
                0 <= i < size * size ==> #[trigger] pixels@[i] == if x0 <= i % (size as int) < x1
                    && y0 <= i / (size as int) < y {
                    texel
                } else {
                    before[i]
                },
        decreases y1 - y,
    {
        let mut x: usize = x0;
        while x < x1
            invariant
                y0 <= y < y1 <= size,
                x0 <= x,
                x <= x1 || x == x0,
                x1 <= size,
                0 < size <= 16_384,
                pixels@.len() == size * size,
                before.len() == size * size,
                forall|i: int|
                    0 <= i < size * size ==> #[trigger] pixels@[i] == if x0 <= i % (size as int)
                        < x1 && (y0 <= i / (size as int) < y || (i / (size as int) == y && i % (
                    size as int) < x)) {
                        texel
                    } else {
                        before[i]
                    },
            decreases x1 - x,
        {
            proof {
                index_splits(y as int, x as int, size as int);
                index_inside(y as int, x as int, size as int);
                assert(size * size <= 16_384 * 16_384) by (nonlinear_arith)
                    requires
                        0 < size <= 16_384,
                ;
            }
            let at: usize = y * size + x;
            let ghost had = pixels@;
            pixels.set(at, texel);
            assert forall|i: int| 0 <= i < size * size implies #[trigger] pixels@[i] == if x0 <= i
                % (size as int) < x1 && (y0 <= i / (size as int) < y || (i / (size as int) == y && i
                % (size as int) < x + 1)) {
                texel
            } else {
                before[i]
            } by {
                if i != at {
                    assert(pixels@[i] == had[i]);
                    if i / (size as int) == y && i % (size as int) == x {
                        vstd::arithmetic::div_mod::lemma_fundamental_div_mod(i, size as int);
                        assert(size * y == y * size) by (nonlinear_arith);
                    }
                }
            }
            x = x + 1;
        }
        y = y + 1;
    }
    assert forall|row: int, col: int| 0 <= row < size && 0 <= col < size implies #[trigger] pixels@[
    row * size + col] == if x0 <= col < x1 && y0 <= row < y1 {
        texel
    } else {
        before[row * size + col]
    } by {
        index_splits(row, col, size as int);
        index_inside(row, col, size as int);
        let i = row * size + col;
        assert(pixels@[i] == if x0 <= i % (size as int) < x1 && y0 <= i / (size as int) < y {
            texel
        } else {
            before[i]
        });
    }
}

/// A square of blank texels.
fn blank_square(size: usize) -> (r: Vec<Texel>)
    requires
        0 < size <= 16_384,
    ensures
        r@.len() == size * size,
        forall|i: int| 0 <= i < r@.len() ==> #[trigger] r@[i] == blank(),
{
    assert(0 <= size * size <= 16_384 * 16_384) by (nonlinear_arith)
        requires
            0 < size <= 16_384,
    ;
    let count: usize = size * size;
    let mut out: Vec<Texel> = Vec::new();
    while out.len() < count
        invariant
            out@.len() <= count,
            forall|i: int| 0 <= i < out@.len() ==> #[trigger] out@[i] == blank(),
        decreases count - out.len(),
    {
        out.push(Texel { r: 0, g: 0, b: 0, a: 0 });
    }
    out
}

fn outside(block: &NexradBlock, ground: &Ground) -> (r: bool)
    requires
        block.wf(),
        ground.wf(),
    ensures
        r == is_outside(*block, *ground),
{
    block.lat_north - block.height > ground.north || block.lat_north < ground.north
        - ground.lat_span || block.lon_west + block.width < ground.west || block.lon_west
        > ground.west + ground.lon_span
}

/// Whether the texels are those of the first `count` bins, counted through all the blocks.
pub open spec fn shows(
    pixels: Seq<Texel>,
    blocks: Seq<NexradBlock>,
    ground: Ground,
    now: int,
    count: int,
) -> bool {
    &&& pixels.len() == ground.size * ground.size
    &&& forall|row: int, col: int|
        0 <= row < ground.size && 0 <= col < ground.size ==> #[trigger] pixels[row * ground.size
            + col] == texel_after(blocks, ground, now, count, row, col)
}

/// Paint one bin, and say whether it was.
fn paint_bin(
    pixels: &mut Vec<Texel>,
    blocks: &[NexradBlock],
    index: usize,
    bin: usize,
    ground: &Ground,
    alpha: u8,
    Ghost(now): Ghost<int>,
) -> (r: bool)
    requires
        index < blocks@.len(),
        blocks@[index as int].wf(),
        ground.wf(),
        bin < BIN_COUNT,
        !is_outside(blocks@[index as int], *ground),
        alpha == step_alpha(block_step(blocks@[index as int], now)),
        shows(old(pixels)@, blocks@, *ground, now, index * 128 + bin),
    ensures
        r == is_painted(blocks@[index as int], bin as int, *ground),
        shows(final(pixels)@, blocks@, *ground, now, index * 128 + bin + 1),
{
    let block: &NexradBlock = &blocks[index];
    let ghost count = index * 128 + bin + 1;
    assert((count - 1) / 128 == index && (count - 1) % 128 == bin);
    if bin >= block.bins.len() {
        return false;
    }
    match colour(block.kind, block.bins[bin]) {
        None => false,
        Some((r, g, b)) => {
            let (x0, x1, y0, y1): (usize, usize, usize, usize) = texels_of_bin(block, bin, ground);
            if x0 >= x1 || y0 >= y1 {
                return false;
            }
            assert(alpha == 100 || alpha == 70 || alpha == 45);
            let a: u8 = (255u64 * 72 * (alpha as u64) / 10_000) as u8;
            let texel: Texel = Texel { r, g, b, a };
            assert(texel == bin_texel(*block, bin as int, now));
            fill_rect(pixels, ground.size, x0, x1, y0, y1, texel);
            true
        },
    }
}

impl Patch {
    /// Composite every visible bin of every block into a fresh patch centred on `centre`.
    /// `cos_lat` is the cosine of its latitude.
    pub fn build(
        config: &MosaicConfig,
        blocks: &[NexradBlock],
        centre: LatLon,
        cos_lat: i64,
        now: u64,
    ) -> (r: Patch)
        requires
            0 < config.texture_size <= 16_384,
            0 < config.half_span_mnm <= 10_000_000,
            cos_lat <= UNIT,
            -1_000_000_000_000 <= centre.lat_e9 <= 1_000_000_000_000,
            -1_000_000_000_000 <= centre.lon_e9 <= 1_000_000_000_000,
            forall|i: int| 0 <= i < blocks@.len() ==> (#[trigger] blocks@[i]).wf(),
            blocks@.len() <= usize::MAX / 128,
        ensures
            r.wf(),
            r.centre == centre,
            r.ground == ground_of(*config, centre, reach_across(*config, cos_lat as int)),
            shows(r.pixels@, blocks@, r.ground, now as int, blocks@.len() as int * 128),
            r.stats.bins_painted == bins_total(blocks@, r.ground, blocks@.len() as int),
            r.stats.blocks_composited == blocks_painted(blocks@, r.ground, blocks@.len() as int),
            r.stats.blocks_skipped_outside == blocks_outside(
                blocks@,
                r.ground,
                blocks@.len() as int,
            ),
            r.stats.composites == 0,
    {
        let half_lat: i64 = config.half_span_mnm * 50_000 / 3;
        let half_span_lon: i64 = reach_in_longitude(config, cos_lat);
        let ground: Ground = Ground {
            north: centre.lat_e9 + half_lat,
            west: centre.lon_e9 - half_span_lon,
            lat_span: 2 * half_lat,
            lon_span: 2 * half_span_lon,
            size: config.texture_size,
        };
        assert(ground == ground_of(*config, centre, half_span_lon as int));
        let mut pixels: Vec<Texel> = blank_square(ground.size);
        let mut bins_painted: usize = 0;
        let mut composited: usize = 0;
        let mut skipped: usize = 0;
        let mut i: usize = 0;
        assert forall|row: int, col: int|
            0 <= row < ground.size && 0 <= col < ground.size implies #[trigger] pixels@[row
            * ground.size + col] == texel_after(blocks@, ground, now as int, 0, row, col) by {
            index_inside(row, col, ground.size as int);
        }
        while i < blocks.len()
            invariant
                i <= blocks.len(),
                ground.wf(),
                blocks@.len() <= usize::MAX / 128,
                forall|k: int| 0 <= k < blocks@.len() ==> (#[trigger] blocks@[k]).wf(),
                shows(pixels@, blocks@, ground, now as int, i * 128),
                bins_painted == bins_total(blocks@, ground, i as int),
                composited == blocks_painted(blocks@, ground, i as int),
                skipped == blocks_outside(blocks@, ground, i as int),
                bins_painted <= i * 128,
                composited <= i,
                skipped <= i,
            decreases blocks.len() - i,
        {
            let block: &NexradBlock = &blocks[i];
            assert(blocks@[i as int].wf());
            // Cheap reject: does the block overlap the patch at all?
            if outside(block, &ground) {
                proof {
                    nothing_outside_is_painted(blocks@, ground, now as int, i as int, 128);
                    assert forall|row: int, col: int|
                        0 <= row < ground.size && 0 <= col < ground.size implies #[trigger] pixels@[
                        row * ground.size + col] == texel_after(
                        blocks@,
                        ground,
                        now as int,
                        (i + 1) * 128,
                        row,
                        col,
                    ) by {
                        nothing_outside_changes(
                            blocks@,
                            ground,
                            now as int,
                            i as int,
                            128,
                            row,
                            col,
                        );
                    }
                }
                skipped = skipped + 1;
                i = i + 1;
                continue;
            }
            let alpha: u8 = age_alpha(elapsed(now, block.received));
            let mut painted: usize = 0;
            let mut bin: usize = 0;
            while bin < BIN_COUNT
                invariant
                    bin <= 128,
                    i < blocks.len(),
                    ground.wf(),
                    blocks@[i as int].wf(),
                    !is_outside(blocks@[i as int], ground),
                    alpha == step_alpha(block_step(blocks@[i as int], now as int)),
                    shows(pixels@, blocks@, ground, now as int, i * 128 + bin),
                    painted == bins_of_block(blocks@[i as int], ground, bin as int),
                    painted <= bin,
                decreases 128 - bin,
            {
                if paint_bin(&mut pixels, blocks, i, bin, &ground, alpha, Ghost(now as int)) {
                    painted = painted + 1;
                }
                bin = bin + 1;
            }
            bins_painted = bins_painted + painted;
            if painted > 0 {
                composited = composited + 1;
            }
            i = i + 1;
        }
        let stats: MosaicStats = MosaicStats {
            blocks_composited: composited,
            blocks_skipped_outside: skipped,
            bins_painted,
            composites: 0,
        };
        Patch { pixels, ground, centre, stats }
    }

    pub fn is_empty(&self) -> (r: bool)
        ensures
            r == (self.stats.bins_painted == 0),
    {
        self.stats.bins_painted == 0
    }

    /// Where a position lands, as a row and a column, if it is on the patch.
    pub open spec fn place_of(self, position: LatLon) -> Option<(int, int)> {
        let east = position.lon_e9 - self.ground.west;
        let south = self.ground.north - position.lat_e9;
        if 0 <= east < self.ground.lon_span && 0 <= south < self.ground.lat_span {
            Some(
                (
                    south * self.ground.size / self.ground.lat_span as int,
                    east * self.ground.size / self.ground.lon_span as int,
                ),
            )
        } else {
            None
        }
    }

    /// Texel index for a position, or `None` if it falls outside the patch.
    pub fn texel_index(&self, position: LatLon) -> (r: Option<usize>)
        requires
            self.wf(),
        ensures
            match (r, self.place_of(position)) {
                (Some(i), Some((row, col))) => {
                    &&& i == row * self.ground.size + col
                    &&& i < self.pixels@.len()
                    &&& 0 <= row < self.ground.size
                    &&& 0 <= col < self.ground.size
                },
                (None, None) => true,
                _ => false,
            },
    {
        let east: i128 = position.lon_e9 as i128 - self.ground.west as i128;
        let south: i128 = self.ground.north as i128 - position.lat_e9 as i128;
        let (wide, tall): (i128, i128) = (
            self.ground.lon_span as i128,
            self.ground.lat_span as i128,
        );
        if east < 0 || east >= wide || south < 0 || south >= tall {
            return None;
        }
        let size: i128 = self.ground.size as i128;
        proof {
            lands_inside(east as int, self.ground.lon_span as int, size as int);
            lands_inside(south as int, self.ground.lat_span as int, size as int);
            index_inside(
                south * size / self.ground.lat_span as int,
                east * size / self.ground.lon_span as int,
                size as int,
            );
            assert(size * size <= 16_384 * 16_384) by (nonlinear_arith)
                requires
                    0 < size <= 16_384,
            ;
        }
        let col: usize = (east * size / wide) as usize;
        let row: usize = (south * size / tall) as usize;
        proof {
            index_splits(row as int, col as int, size as int);
        }
        Some(row * self.ground.size + col)
    }

    /// The composited colour at a position.
    pub fn texel_at(&self, position: LatLon) -> (r: Option<Texel>)
        requires
            self.wf(),
        ensures
            match (r, self.place_of(position)) {
                (Some(texel), Some((row, col))) => texel == self.texel(row, col),
                (None, None) => true,
                _ => false,
            },
    {
        match self.texel_index(position) {
            Some(i) => Some(self.pixels[i]),
            None => None,
        }
    }
}

proof fn lands_inside(offset: int, span: int, size: int)
    requires
        0 <= offset < span,
        span <= WIDEST,
        0 < size <= 16_384,
    ensures
        0 <= offset * size <= WIDEST * 16_384,
        0 <= offset * size / span < size,
{
    assert(0 <= offset * size <= WIDEST * 16_384) by (nonlinear_arith)
        requires
            0 <= offset < WIDEST,
            0 < size <= 16_384,
    ;
    let n = offset * size;
    assert(n < size * span) by (nonlinear_arith)
        requires
            n == offset * size,
            offset < span,
            0 < size,
    ;
    assert(0 <= n / span < size) by (nonlinear_arith)
        requires
            0 <= n < size * span,
            0 < span,
    ;
}

proof fn nothing_outside_is_painted(
    blocks: Seq<NexradBlock>,
    ground: Ground,
    now: int,
    i: int,
    count: int,
)
    requires
        0 <= i < blocks.len(),
        0 <= count <= 128,
        is_outside(blocks[i], ground),
    ensures
        bins_of_block(blocks[i], ground, count) == 0,
    decreases count,
{
    if count > 0 {
        nothing_outside_is_painted(blocks, ground, now, i, count - 1);
    }
}

proof fn nothing_outside_changes(
    blocks: Seq<NexradBlock>,
    ground: Ground,
    now: int,
    i: int,
    count: int,
    row: int,
    col: int,
)
    requires
        0 <= i < blocks.len(),
        0 <= count <= 128,
        is_outside(blocks[i], ground),
    ensures
        texel_after(blocks, ground, now, i * 128 + count, row, col) == texel_after(
            blocks,
            ground,
            now,
            i * 128,
            row,
            col,
        ),
    decreases count,
{
    if count > 0 {
        nothing_outside_changes(blocks, ground, now, i, count - 1, row, col);
        let n = i * 128 + count;
        assert((n - 1) / 128 == i && (n - 1) % 128 == count - 1);
    }
}

// --- the cache -----------------------------------------------------------------------------

/// What to do about the texture this frame.
#[derive(Debug, Clone, Copy, PartialEq, Eq, Structural)]
pub enum MosaicStep {
    /// There is no radar to draw.
    Nothing,
    /// The texture is still good; whether it has anything on it.
    Keep { content: bool },
    /// Build a patch, upload it if it has anything on it, and hand it to [`Mosaic::install`].
    Rebuild,
}

/// The cached precipitation texture. Whether it has been uploaded is for the caller to know.
pub struct Mosaic {
    pub config: MosaicConfig,
    pub patch: Option<Patch>,
    pub composited_revision: Option<u64>,
    pub composited_fade: Option<u64>,
    pub last_composite: Option<u64>,
    pub composites: u64,
}

impl Mosaic {
    pub fn new(config: MosaicConfig) -> (r: Mosaic)
        ensures
            r.config == config,
            r.patch is None,
            r.composited_revision is None,
            r.composited_fade is None,
            r.last_composite is None,
            r.composites == 0,
    {
        Mosaic {
            config,
            patch: None,
            composited_revision: None,
            composited_fade: None,
            last_composite: None,
            composites: 0,
        }
    }

    pub fn config(&self) -> (r: &MosaicConfig)
        ensures
            *r == self.config,
    {
        &self.config
    }

    /// What the last composite did, and how many there have been.
    pub fn stats(&self) -> (r: MosaicStats)
        ensures
            r == (MosaicStats {
                composites: self.composites,
                ..match self.patch {
                    Some(patch) => patch.stats,
                    None => MosaicStats {
                        blocks_composited: 0,
                        blocks_skipped_outside: 0,
                        bins_painted: 0,
                        composites: 0,
                    },
                }
            }),
    {
        let stats: MosaicStats = match &self.patch {
            Some(patch) => patch.stats,
            None => MosaicStats::default(),
        };
        MosaicStats {
            blocks_composited: stats.blocks_composited,
            blocks_skipped_outside: stats.blocks_skipped_outside,
            bins_painted: stats.bins_painted,
            composites: self.composites,
        }
    }

    /// Where the patch is centred, if there is one: own-ship's distance from it decides whether it
    /// still covers the view.
    pub fn centre(&self) -> (r: Option<LatLon>)
        ensures
            match (r, self.patch) {
                (Some(centre), Some(patch)) => centre == patch.centre,
                (None, None) => true,
                _ => false,
            },
    {
        match &self.patch {
            Some(patch) => Some(patch.centre),
            None => None,
        }
    }

    /// Whether the texture has to be rebuilt: it has never been, the blocks or their fade steps
    /// have changed, own-ship has moved too far, or it is time.
    pub open spec fn is_due(
        self,
        uploaded: bool,
        revision: u64,
        fade: u64,
        own: LatLon,
        cos_lat: int,
        now: int,
    ) -> bool {
        ||| !uploaded
        ||| self.patch is None
        ||| self.composited_revision != Some(revision)
        ||| self.composited_fade != Some(fade)
        ||| (self.patch matches Some(patch) && further(
            patch.centre,
            own,
            cos_lat,
            self.config.recentre_after_mnm as int,
        ))
        ||| match self.last_composite {
            Some(last) => time_since(now, last as int) >= self.config.refresh_interval,
            None => true,
        }
    }

    /// Whether the cached texture needs rebuilding. `uploaded` says whether there is a texture at
    /// all; `cos_lat` is the cosine of the latitude of [`Mosaic::centre`].
    pub fn needs_composite(
        &self,
        uploaded: bool,
        revision: u64,
        fade: u64,
        own: LatLon,
        cos_lat: i64,
        now: u64,
    ) -> (r: bool)
        requires
            -UNIT <= cos_lat <= UNIT,
        ensures
            r == self.is_due(uploaded, revision, fade, own, cos_lat as int, now as int),
    {
        let centre: LatLon = match &self.patch {
            Some(patch) => patch.centre,
            None => return true,
        };
        if !uploaded {
            return true;
        }
        match self.composited_revision {
            Some(had) => {
                if had != revision {
                    return true;
                }
            },
            None => return true,
        }
        match self.composited_fade {
            Some(had) => {
                if had != fade {
                    return true;
                }
            },
            None => return true,
        }
        if is_further(centre, own, cos_lat, self.config.recentre_after_mnm) {
            return true;
        }
        match self.last_composite {
            Some(last) => elapsed(now, last) >= self.config.refresh_interval,
            None => true,
        }
    }

    /// Decide what to do about the texture this frame. `held` is how many blocks there are.
    pub fn step(
        &mut self,
        uploaded: bool,
        held: usize,
        revision: u64,
        fade: u64,
        own: LatLon,
        cos_lat: i64,
        now: u64,
    ) -> (r: MosaicStep)
        requires
            -UNIT <= cos_lat <= UNIT,
        ensures
            held == 0 ==> r == MosaicStep::Nothing && final(self).patch is None && *final(self) == (
            Mosaic { patch: final(self).patch, ..*old(self) }),
            held > 0 ==> *final(self) == *old(self),
            held > 0 && old(self).is_due(uploaded, revision, fade, own, cos_lat as int, now as int)
                ==> r == MosaicStep::Rebuild,
            held > 0 && !old(self).is_due(uploaded, revision, fade, own, cos_lat as int, now as int)
                ==> r == (MosaicStep::Keep {
                content: old(self).patch->0.stats.bins_painted > 0,
            }),
    {
        if held == 0 {
            self.patch = None;
            return MosaicStep::Nothing;
        }
        if self.needs_composite(uploaded, revision, fade, own, cos_lat, now) {
            return MosaicStep::Rebuild;
        }
        match &self.patch {
            Some(patch) => MosaicStep::Keep { content: !patch.is_empty() },
            None => MosaicStep::Rebuild,
        }
    }

    /// Take over a patch that has been built, and uploaded if it has anything on it.
    pub fn install(&mut self, patch: Patch, revision: u64, fade: u64, now: u64)
        requires
            old(self).composites < u64::MAX,
        ensures
            *final(self) == (Mosaic {
                config: old(self).config,
                patch: Some(patch),
                composited_revision: Some(revision),
                composited_fade: Some(fade),
                last_composite: Some(now),
                composites: (old(self).composites + 1) as u64,
            }),
    {
        self.patch = Some(patch);
        self.composited_revision = Some(revision);
        self.composited_fade = Some(fade);
        self.last_composite = Some(now);
        self.composites = self.composites + 1;
    }
}

// --- laws ----------------------------------------------------------------------------------

/// The two products share one ramp, reached one level later on CONUS.
pub proof fn the_scales_are_offset_by_one(intensity: int)
    ensures
        colour_of(NexradKind::Regional, intensity) == colour_of(NexradKind::Conus, intensity + 1),
        colour_of(NexradKind::Regional, 0) is None,
        colour_of(NexradKind::Conus, 0) is None,
        colour_of(NexradKind::Conus, 1) is None,
{
}

/// Every visible level has a colour of its own.
pub proof fn the_ramp_repeats_no_colour(kind: NexradKind, a: int, b: int)
    requires
        colour_of(kind, a) is Some,
        colour_of(kind, a) == colour_of(kind, b),
    ensures
        a == b,
{
    let (i, j) = (ramp_step(kind, a), ramp_step(kind, b));
    assert(RAMP[0] == (16u8, 150u8, 24u8) && RAMP[1] == (10u8, 120u8, 16u8) && RAMP[2] == (
        235u8,
        215u8,
        60u8,
    ) && RAMP[3] == (240u8, 160u8, 35u8) && RAMP[4] == (235u8, 60u8, 45u8) && RAMP[5] == (
        185u8,
        28u8,
        28u8,
    ) && RAMP[6] == (210u8, 45u8, 195u8));
    assert(i == 0 || i == 1 || i == 2 || i == 3 || i == 4 || i == 5 || i == 6);
    assert(j == 0 || j == 1 || j == 2 || j == 3 || j == 4 || j == 5 || j == 6);
}

/// Older weather is never drawn stronger, and never so faint that it disappears.
pub proof fn weather_fades_but_stays_visible(younger: int, older: int)
    requires
        younger <= older,
    ensures
        texel_alpha(step_alpha(fade_step(older))) <= texel_alpha(step_alpha(fade_step(younger))),
        0 < texel_alpha(step_alpha(fade_step(older))) < 255,
        texel_alpha(100) == 183,
        texel_alpha(70) == 128,
        texel_alpha(45) == 82,
{
}

/// The fingerprint does not depend on the order the blocks are held in.
pub proof fn the_fingerprint_ignores_order(a: Seq<NexradBlock>, b: Seq<NexradBlock>, now: int)
    requires
        a.to_multiset() == b.to_multiset(),
    ensures
        fingerprint_of(a, now) == fingerprint_of(b, now),
{
    let add_step = |block: NexradBlock, sum: int| block_step(block, now) + sum;
    steps_fold(a, now, 0);
    steps_fold(b, now, 0);
    vstd::seq_lib::lemma_fold_right_permutation(a, b, add_step, 0);
}

proof fn steps_fold(blocks: Seq<NexradBlock>, now: int, start: int)
    ensures
        blocks.fold_right(|block: NexradBlock, sum: int| block_step(block, now) + sum, start)
            == steps_total(blocks, now) + start,
    decreases blocks.len(),
{
    if blocks.len() > 0 {
        steps_fold(blocks.drop_last(), now, block_step(blocks.last(), now) + start);
    }
}

/// Time passing changes the fingerprint only when some block crosses a fade step.
pub proof fn the_fingerprint_holds_within_a_step(blocks: Seq<NexradBlock>, now: int, later: int)
    requires
        forall|i: int|
            0 <= i < blocks.len() ==> block_step(#[trigger] blocks[i], now) == block_step(
                blocks[i],
                later,
            ),
    ensures
        steps_total(blocks, now) == steps_total(blocks, later),
        fingerprint_of(blocks, now) == fingerprint_of(blocks, later),
    decreases blocks.len(),
{
    if blocks.len() > 0 {
        let front = blocks.drop_last();
        assert forall|i: int| 0 <= i < front.len() implies block_step(#[trigger] front[i], now)
            == block_step(front[i], later) by {
            assert(blocks[i] == front[i]);
        }
        the_fingerprint_holds_within_a_step(front, now, later);
        assert(blocks[blocks.len() - 1] == blocks.last());
    }
}

/// One block crossing a step changes the fingerprint.
pub proof fn crossing_a_step_changes_the_fingerprint(block: NexradBlock, now: int, later: int)
    requires
        block_step(block, now) != block_step(block, later),
    ensures
        fingerprint_of(seq![block], now) != fingerprint_of(seq![block], later),
{
    assert(seq![block].drop_last() =~= seq![]);
    reveal_with_fuel(steps_total, 2);
    let (a, b) = (block_step(block, now), block_step(block, later));
    assert(steps_total(seq![block], now) == a);
    assert(steps_total(seq![block], later) == b);
    assert(a == 0 || a == 1 || a == 2);
    assert(b == 0 || b == 1 || b == 2);
}

proof fn lands_between(offset: int, low: int, high: int, span: int, size: int)
    requires
        low <= offset < high,
        0 <= offset < span,
        span <= WIDEST,
        0 < size <= 16_384,
    ensures
        texel_floor(low, span, size) <= offset * size / span < texel_ceil(high, span, size),
{
    lands_inside(offset, span, size);
    let at = offset * size;
    if low > 0 {
        let a = low * size;
        assert(0 <= a <= at) by (nonlinear_arith)
            requires
                a == low * size,
                at == offset * size,
                0 < low <= offset,
                0 < size,
        ;
        vstd::arithmetic::div_mod::lemma_div_is_ordered(a, at, span);
    }
    let b = high * size;
    assert(at + size <= b) by (nonlinear_arith)
        requires
            at == offset * size,
            b == high * size,
            offset + 1 <= high,
            0 < size,
    ;
    let q = at / span;
    vstd::arithmetic::div_mod::lemma_fundamental_div_mod(at, span);
    let top = (b + span - 1) / span;
    vstd::arithmetic::div_mod::lemma_fundamental_div_mod(b + span - 1, span);
    assert(q < top) by (nonlinear_arith)
        requires
            span * q <= at,
            at < b,
            b + span - 1 < span * top + span,
            0 < span,
    ;
}

/// A bin lands at its own latitude and longitude: whatever position on the patch lies in the bin,
/// the texel for that position is one the bin covers. So nothing is offset, mirrored or
/// transposed.
pub proof fn a_bin_lands_where_it_is(
    block: NexradBlock,
    bin: int,
    patch: Patch,
    position: LatLon,
)
    requires
        patch.ground.wf(),
        0 <= bin < BIN_COUNT,
        patch.place_of(position) is Some,
        column_west(block, bin % 32) <= position.lon_e9 < column_west(block, bin % 32 + 1),
        row_north(block, bin / 32 + 1) < position.lat_e9 <= row_north(block, bin / 32),
    ensures
        patch.place_of(position) matches Some((row, col)) && bin_covers(
            block,
            bin,
            patch.ground,
            row,
            col,
        ),
{
    let g = patch.ground;
    lands_between(
        position.lon_e9 - g.west,
        column_west(block, bin % 32) - g.west,
        column_west(block, bin % 32 + 1) - g.west,
        g.lon_span as int,
        g.size as int,
    );
    lands_between(
        g.north - position.lat_e9,
        g.north - row_north(block, bin / 32),
        g.north - row_north(block, bin / 32 + 1),
        g.lat_span as int,
        g.size as int,
    );
}

/// Bins tile their block: each starts where the one before it ends.
pub proof fn bins_tile_their_block(block: NexradBlock, column: int, row: int)
    requires
        block.wf(),
        0 <= column < 32,
        0 <= row < 4,
    ensures
        column_west(block, 0) == block.lon_west,
        column_west(block, 32) == block.lon_west + block.width,
        column_west(block, column) <= column_west(block, column + 1),
        row_north(block, 0) == block.lat_north,
        row_north(block, 4) == block.lat_north - block.height,
        row_north(block, row + 1) <= row_north(block, row),
{
    let (w, h) = (block.width as int, block.height as int);
    assert(w * column <= w * (column + 1) && h * row <= h * (row + 1)) by (nonlinear_arith)
        requires
            0 <= w,
            0 <= h,
    ;
}

/// The last bin painted over a texel is the one that shows.
pub proof fn the_last_bin_wins(
    blocks: Seq<NexradBlock>,
    ground: Ground,
    now: int,
    index: int,
    bin: int,
    row: int,
    col: int,
)
    requires
        0 <= index < blocks.len(),
        0 <= bin < BIN_COUNT,
        is_painted(blocks[index], bin, ground),
        bin_covers(blocks[index], bin, ground, row, col),
    ensures
        texel_after(blocks, ground, now, index * 128 + bin + 1, row, col) == bin_texel(
            blocks[index],
            bin,
            now,
        ),
{
    let n = index * 128 + bin + 1;
    assert((n - 1) / 128 == index && (n - 1) % 128 == bin);
}

proof fn unpainted_bins_leave_no_trace(
    blocks: Seq<NexradBlock>,
    ground: Ground,
    now: int,
    index: int,
    count: int,
    row: int,
    col: int,
)
    requires
        0 <= index < blocks.len(),
        0 <= count <= 128,
        bins_of_block(blocks[index], ground, count) == 0,
    ensures
        texel_after(blocks, ground, now, index * 128 + count, row, col) == texel_after(
            blocks,
            ground,
            now,
            index * 128,
            row,
            col,
        ),
    decreases count,
{
    if count > 0 {
        unpainted_bins_leave_no_trace(blocks, ground, now, index, count - 1, row, col);
        let n = index * 128 + count;
        assert((n - 1) / 128 == index && (n - 1) % 128 == count - 1);
    }
}

/// A patch on which no bin was painted is blank all over.
pub proof fn an_empty_patch_is_blank(
    blocks: Seq<NexradBlock>,
    ground: Ground,
    now: int,
    count: int,
    row: int,
    col: int,
)
    requires
        0 <= count <= blocks.len(),
        bins_total(blocks, ground, count) == 0,
    ensures
        texel_after(blocks, ground, now, count * 128, row, col) == blank(),
    decreases count,
{
    if count > 0 {
        an_empty_patch_is_blank(blocks, ground, now, count - 1, row, col);
        unpainted_bins_leave_no_trace(blocks, ground, now, count - 1, 128, row, col);
    }
}

/// A texture just installed is kept until something changes: the same blocks in the same fade
/// steps, own-ship still near, and the backstop not reached.
pub proof fn an_installed_texture_is_kept(
    mosaic: Mosaic,
    revision: u64,
    fade: u64,
    own: LatLon,
    cos_lat: int,
    last: u64,
    now: int,
)
    requires
        mosaic.patch is Some,
        mosaic.composited_revision == Some(revision),
        mosaic.composited_fade == Some(fade),
        mosaic.last_composite == Some(last),
        !further(
            mosaic.patch->0.centre,
            own,
            cos_lat,
            mosaic.config.recentre_after_mnm as int,
        ),
        time_since(now, last as int) < mosaic.config.refresh_interval,
    ensures
        !mosaic.is_due(true, revision, fade, own, cos_lat, now),
{
}

/// The ramp runs from light green over yellow and red to magenta, and an intensity climbs it from its
/// first step on: regional intensity 1 is the lightest rain, 7 the heaviest there is, and CONUS is one
/// ahead. Nothing else is drawn.
pub proof fn intensities_climb_the_ramp(k: int)
    ensures
        0 <= k < 7 ==> colour_of(NexradKind::Regional, k + 1) == Some(RAMP[k]),
        0 <= k < 7 ==> colour_of(NexradKind::Conus, k + 2) == Some(RAMP[k]),
        k < 0 || k >= 7 ==> colour_of(NexradKind::Regional, k + 1) is None && colour_of(
            NexradKind::Conus,
            k + 2,
        ) is None,
        k == 0 ==> colour_of(NexradKind::Regional, k + 1) == Some((16u8, 150u8, 24u8)),
        k == 1 ==> colour_of(NexradKind::Regional, k + 1) == Some((10u8, 120u8, 16u8)),
        k == 2 ==> colour_of(NexradKind::Regional, k + 1) == Some((235u8, 215u8, 60u8)),
        k == 3 ==> colour_of(NexradKind::Regional, k + 1) == Some((240u8, 160u8, 35u8)),
        k == 4 ==> colour_of(NexradKind::Regional, k + 1) == Some((235u8, 60u8, 45u8)),
        k == 5 ==> colour_of(NexradKind::Regional, k + 1) == Some((185u8, 28u8, 28u8)),
        k == 6 ==> colour_of(NexradKind::Regional, k + 1) == Some((210u8, 45u8, 195u8)),
        colour_of(NexradKind::Conus, k + 2) == colour_of(NexradKind::Regional, k + 1),
{
}

/// Weather is fresh for five minutes and aging for five more: it is drawn in full, then at seventy per
/// cent, then at forty-five.
pub proof fn weather_is_fresh_for_five_minutes(age: int)
    ensures
        age <= 300_000_000_000 ==> step_alpha(fade_step(age)) == 100,
        300_000_000_000 < age <= 600_000_000_000 ==> step_alpha(fade_step(age)) == 70,
        600_000_000_000 < age ==> step_alpha(fade_step(age)) == 45,
        fade_step(age) == 0 <==> age <= 300_000_000_000,
        fade_step(age) == 2 <==> age > 600_000_000_000,
{
}

/// A patch is laid about its centre: the centre is half way down it and half way across, and a position
/// is on it exactly where it is no further from the centre than the patch reaches, north and south by
/// one measure and east and west by another. Further south is further down, and further east is further
/// to the right.
pub proof fn a_patch_is_laid_about_its_centre(
    config: MosaicConfig,
    centre: LatLon,
    cos_lat: int,
    patch: Patch,
    position: LatLon,
)
    requires
        patch.ground == ground_of(config, centre, reach_across(config, cos_lat)),
        0 < config.half_span_mnm <= 10_000_000,
        cos_lat <= UNIT,
        -1_000_000_000_000 <= centre.lat_e9 <= 1_000_000_000_000,
        -1_000_000_000_000 <= centre.lon_e9 <= 1_000_000_000_000,
        0 < config.texture_size,
    ensures
        patch.place_of(position) is Some <==> {
            &&& -reach_of(config) < position.lat_e9 - centre.lat_e9 <= reach_of(config)
            &&& -reach_across(config, cos_lat) <= position.lon_e9 - centre.lon_e9 < reach_across(
                config,
                cos_lat,
            )
        },
        patch.place_of(centre) == Some(
            (config.texture_size as int / 2, config.texture_size as int / 2),
        ),
        patch.ground.size == config.texture_size,
        -3 < 3 * reach_of(config) - config.half_span_mnm * 50_000 <= 0,
{
    let (up, across) = (reach_of(config), reach_across(config, cos_lat));
    let n = up * UNIT;
    let d = shrink_of(cos_lat);
    assert(1 <= n / d <= n / 1_000) by (nonlinear_arith)
        requires
            n >= 1_000_000_000,
            1_000 <= d <= 1_000_000_000,
    ;
    halves_are_half_way(up, config.texture_size as int);
    halves_are_half_way(across, config.texture_size as int);
}

proof fn halves_are_half_way(half: int, size: int)
    requires
        half > 0,
        size > 0,
    ensures
        half * size / (2 * half) == size / 2,
{
    vstd::arithmetic::div_mod::lemma_div_multiples_vanish_quotient(half, size, 2);
    assert(half * 2 == 2 * half) by (nonlinear_arith);
}

/// On a patch, what is further south is never higher and what is further east is never further left.
pub proof fn south_is_down_and_east_is_right(patch: Patch, a: LatLon, b: LatLon)
    requires
        patch.ground.wf(),
        patch.place_of(a) is Some,
        patch.place_of(b) is Some,
    ensures
        a.lat_e9 >= b.lat_e9 ==> (patch.place_of(a)->0).0 <= (patch.place_of(b)->0).0,
        a.lon_e9 <= b.lon_e9 ==> (patch.place_of(a)->0).1 <= (patch.place_of(b)->0).1,
        0 <= (patch.place_of(a)->0).0 < patch.ground.size,
        0 <= (patch.place_of(a)->0).1 < patch.ground.size,
{
    let g = patch.ground;
    let size = g.size as int;
    let (sa, sb) = (g.north - a.lat_e9, g.north - b.lat_e9);
    let (ea, eb) = (a.lon_e9 - g.west, b.lon_e9 - g.west);
    lands_inside(sa, g.lat_span as int, size);
    lands_inside(ea, g.lon_span as int, size);
    assert(sa <= sb ==> sa * size <= sb * size) by (nonlinear_arith)
        requires
            0 < size,
    ;
    assert(ea <= eb ==> ea * size <= eb * size) by (nonlinear_arith)
        requires
            0 < size,
    ;
    if sa <= sb {
        vstd::arithmetic::div_mod::lemma_div_is_ordered(sa * size, sb * size, g.lat_span as int);
    }
    if ea <= eb {
        vstd::arithmetic::div_mod::lemma_div_is_ordered(ea * size, eb * size, g.lon_span as int);
    }
}

/// Rain is drawn where it falls and in its own colour: of a patch built from one block, the texel under
/// a position in a bin has the colour of that bin's intensity, at the opacity of the block's age, where
/// no later bin reaches into the same texel.
pub proof fn rain_is_drawn_where_it_falls(
    block: NexradBlock,
    bin: int,
    patch: Patch,
    position: LatLon,
    now: int,
)
    requires
        block.wf(),
        patch.wf(),
        shows(patch.pixels@, seq![block], patch.ground, now, 128),
        0 <= bin < 128,
        bin < block.bins@.len(),
        patch.place_of(position) is Some,
        column_west(block, bin % 32) <= position.lon_e9 < column_west(block, bin % 32 + 1),
        row_north(block, bin / 32 + 1) < position.lat_e9 <= row_north(block, bin / 32),
        forall|later: int|
            bin < later < 128 ==> !(#[trigger] bin_covers(
                block,
                later,
                patch.ground,
                (patch.place_of(position)->0).0,
                (patch.place_of(position)->0).1,
            )),
        block.kind == NexradKind::Regional ==> 1 <= block.bins@[bin] <= 7,
        block.kind == NexradKind::Conus ==> 2 <= block.bins@[bin] <= 8,
    ensures
        ({
            let (row, col) = patch.place_of(position)->0;
            let texel = patch.texel(row, col);
            let age = now - block.received;
            &&& block.kind == NexradKind::Regional ==> (texel.r, texel.g, texel.b)
                == RAMP[block.bins@[bin] - 1]
            &&& block.kind == NexradKind::Conus ==> (texel.r, texel.g, texel.b)
                == RAMP[block.bins@[bin] - 2]
            &&& age <= 300_000_000_000 ==> texel.a == 183
            &&& 300_000_000_000 < age <= 600_000_000_000 ==> texel.a == 128
            &&& 600_000_000_000 < age ==> texel.a == 82
        }),
{
    let (row, col) = patch.place_of(position)->0;
    south_is_down_and_east_is_right(patch, position, position);
    a_bin_lands_where_it_is(block, bin, patch, position);
    let blocks = seq![block];
    bins_tile_their_block(block, bin % 32, bin / 32);
    let (w, h, c, r) = (block.width as int, block.height as int, bin % 32, bin / 32);
    assert(0 <= w * c && w * (c + 1) <= w * 32 && 0 <= h * r && h * (r + 1) <= h * 4)
        by (nonlinear_arith)
        requires
            0 <= w,
            0 <= h,
            0 <= c < 32,
            0 <= r < 4,
    ;
    assert(is_painted(block, bin, patch.ground));
    later_bins_leave_it(block, bin, patch.ground, row, col, now, 128);
    assert(patch.pixels@[row * patch.ground.size + col] == texel_after(
        blocks,
        patch.ground,
        now,
        128,
        row,
        col,
    ));
}

proof fn later_bins_leave_it(
    block: NexradBlock,
    bin: int,
    ground: Ground,
    row: int,
    col: int,
    now: int,
    count: int,
)
    requires
        0 <= bin < count <= 128,
        is_painted(block, bin, ground),
        bin_covers(block, bin, ground, row, col),
        forall|later: int|
            bin < later < 128 ==> !(#[trigger] bin_covers(block, later, ground, row, col)),
    ensures
        texel_after(seq![block], ground, now, count, row, col) == bin_texel(block, bin, now),
    decreases count,
{
    let last = count - 1;
    assert(last / 128 == 0 && last % 128 == last);
    if last > bin {
        assert(!bin_covers(block, last, ground, row, col));
        later_bins_leave_it(block, bin, ground, row, col, now, count - 1);
    }
}

/// What makes a texture worth building again: that there is none, that the radar or its fading is not
/// what it was built from, that own-ship has left the middle of it, or that it is old. Nothing else
/// does.
pub proof fn a_texture_is_rebuilt_only_for_a_reason(
    mosaic: Mosaic,
    uploaded: bool,
    revision: u64,
    fade: u64,
    own: LatLon,
    cos_lat: int,
    now: int,
)
    requires
        mosaic.patch is Some,
        mosaic.last_composite is Some,
    ensures
        mosaic.is_due(uploaded, revision, fade, own, cos_lat, now) <==> {
            ||| !uploaded
            ||| mosaic.composited_revision != Some(revision)
            ||| mosaic.composited_fade != Some(fade)
            ||| further(
                mosaic.patch->0.centre,
                own,
                cos_lat,
                mosaic.config.recentre_after_mnm as int,
            )
            ||| now >= mosaic.last_composite->0 + mosaic.config.refresh_interval
            ||| mosaic.config.refresh_interval == 0
        },
{
}

/// What is counted: no more bins than a block has, only blocks of which something was painted, and no
/// block both painted and outside.
pub proof fn what_was_painted_is_counted(blocks: Seq<NexradBlock>, ground: Ground, count: int)
    requires
        0 <= count <= blocks.len(),
    ensures
        bins_total(blocks, ground, count) <= 128 * count,
        blocks_painted(blocks, ground, count) <= bins_total(blocks, ground, count),
        bins_total(blocks, ground, count) <= 128 * blocks_painted(blocks, ground, count),
        blocks_painted(blocks, ground, count) + blocks_outside(blocks, ground, count) <= count,
        (forall|k: int| 0 <= k < count ==> is_outside(#[trigger] blocks[k], ground))
            ==> blocks_outside(blocks, ground, count) == count,
    decreases count,
{
    if count > 0 {
        what_was_painted_is_counted(blocks, ground, count - 1);
        bins_are_counted(blocks[count - 1], ground, 128);
        assert(blocks[count - 1] == blocks[count - 1]);
    }
}

proof fn bins_are_counted(block: NexradBlock, ground: Ground, count: int)
    requires
        0 <= count,
    ensures
        bins_of_block(block, ground, count) <= count,
        is_outside(block, ground) ==> bins_of_block(block, ground, count) == 0,
        count > 0 && is_painted(block, count - 1, ground) ==> bins_of_block(block, ground, count)
            == bins_of_block(block, ground, count - 1) + 1,
        count > 0 && !is_painted(block, count - 1, ground) ==> bins_of_block(block, ground, count)
            == bins_of_block(block, ground, count - 1),
    decreases count,
{
    if count > 0 {
        bins_are_counted(block, ground, count - 1);
    }
}

/// A block fades by its own age: what it was fading by when it came, it fades by again only while it is
/// as fresh.
pub proof fn blocks_fade_by_their_own_age(block: NexradBlock, now: int)
    requires
        now >= block.received,
    ensures
        now - block.received <= 300_000_000_000 <==> block_step(block, now) == 0,
        now - block.received > 600_000_000_000 <==> block_step(block, now) == 2,
        block_step(block, block.received as int) == 0,
{
}

} // verus!
