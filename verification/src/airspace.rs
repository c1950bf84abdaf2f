//! What airspace is stacked over a position.
//!
//! Boundaries are polygons on whole millionths of a degree, so whether a position is inside one is
//! decided exactly, with no rounding: a line drawn east from the position crosses the boundary an
//! odd number of times. Counting over all the rings of a volume makes a ring inside another a hole.

use vstd::prelude::*;

use crate::chart::{
    airspace_are, airspace_found, airspace_is, airspace_queries_are_exact, airspace_total, has_flag,
    is_vertex, ring_vertices, Airspace, Bounds, Chart, RingIter, FLAG_LOWER_SURFACE,
};
use crate::domain::{clamped, nearest_coordinate, LatLon};

verus! {

/// Whether a line drawn due east from a position crosses the edge between two vertices.
pub open spec fn crosses(a: LatLon, b: LatLon, at: LatLon) -> bool {
    let rise = b.lat_e9 - a.lat_e9;
    let run = (b.lon_e9 - a.lon_e9) * (at.lat_e9 - a.lat_e9);
    let east = (at.lon_e9 - a.lon_e9) * rise;
    if a.lat_e9 > at.lat_e9 {
        b.lat_e9 <= at.lat_e9 && east > run
    } else {
        b.lat_e9 > at.lat_e9 && east < run
    }
}

fn crosses_edge(a: LatLon, b: LatLon, at: LatLon) -> (r: bool)
    requires
        is_vertex(a),
        is_vertex(b),
    ensures
        r == crosses(a, b, at),
{
    let rise: i128 = b.lat_e9 as i128 - a.lat_e9 as i128;
    let width: i128 = b.lon_e9 as i128 - a.lon_e9 as i128;
    let up: i128 = at.lat_e9 as i128 - a.lat_e9 as i128;
    let across: i128 = at.lon_e9 as i128 - a.lon_e9 as i128;
    assert(-0x1_0000_0000_0000_0000_0000_0000_0000 < width * up
        < 0x1_0000_0000_0000_0000_0000_0000_0000) by (nonlinear_arith)
        requires
            -0x1000_0000_0000 < width < 0x1000_0000_0000,
            -0x1_0000_0000_0000_0000 < up < 0x1_0000_0000_0000_0000,
    ;
    assert(-0x1_0000_0000_0000_0000_0000_0000_0000 < across * rise
        < 0x1_0000_0000_0000_0000_0000_0000_0000) by (nonlinear_arith)
        requires
            -0x1_0000_0000_0000_0000 < across < 0x1_0000_0000_0000_0000,
            -0x1000_0000_0000 < rise < 0x1000_0000_0000,
    ;
    let run: i128 = width * up;
    let east: i128 = across * rise;
    if a.lat_e9 > at.lat_e9 {
        b.lat_e9 <= at.lat_e9 && east > run
    } else {
        b.lat_e9 > at.lat_e9 && east < run
    }
}

/// Whether an odd number of the first `k` edges of a ring, from its first vertex on, is crossed.
pub open spec fn odd_so_far(ring: Seq<LatLon>, at: LatLon, k: int) -> bool
    decreases k,
{
    if k <= 0 {
        false
    } else {
        odd_so_far(ring, at, k - 1) != crosses(ring[k - 1], ring[k], at)
    }
}

/// Whether an odd number of the edges of a ring is crossed. The ring is open: its last vertex is
/// joined to its first.
pub open spec fn odd(ring: Seq<LatLon>, at: LatLon) -> bool {
    if ring.len() == 0 {
        false
    } else {
        odd_so_far(ring, at, ring.len() - 1) != crosses(ring.last(), ring[0], at)
    }
}

/// Whether an odd number of the edges of the first `rings` rings of a volume is crossed.
pub open spec fn odd_rings(b: Seq<u8>, space: Airspace, at: LatLon, rings: int) -> bool
    decreases rings,
{
    if rings <= 0 {
        false
    } else {
        odd_rings(b, space, at, rings - 1) != odd(ring_vertices(b, space, rings - 1), at)
    }
}

/// Whether a volume covers a position.
pub open spec fn covers(b: Seq<u8>, space: Airspace, at: LatLon) -> bool {
    space.bounds.holds_position(at) && odd_rings(
        b,
        space,
        at,
        space.ring_count as int,
    )
}

/// Where a volume starts, in feet: the surface counts as zero, whatever its record says.
pub open spec fn floor_of(space: Airspace) -> int {
    if has_flag(space.flags, FLAG_LOWER_SURFACE) {
        0
    } else {
        space.lower_ft as int
    }
}

fn floor_ft(space: &Airspace) -> (r: i32)
    ensures
        r == floor_of(*space),
{
    if space.lower_is_surface() {
        0
    } else {
        space.lower_ft
    }
}

fn ring_is_odd(walk: RingIter<'_>, at: LatLon) -> (r: bool)
    ensures
        r == odd(walk.left(), at),
{
    let ghost ring = walk.left();
    let mut rest: RingIter<'_> = walk;
    let first: LatLon = match rest.next() {
        Some(first) => first,
        None => return false,
    };
    let mut last: LatLon = first;
    let mut inside: bool = false;
    let ghost mut k: int = 0;
    loop
        invariant
            ring == walk.left(),
            0 <= k < ring.len(),
            rest.left() == ring.skip(k + 1),
            first == ring[0],
            last == ring[k],
            is_vertex(first),
            is_vertex(last),
            inside == odd_so_far(ring, at, k),
        decreases rest.left().len(),
    {
        let next: LatLon = match rest.next() {
            Some(next) => next,
            None => {
                return inside != crosses_edge(last, first, at);
            },
        };
        if crosses_edge(last, next, at) {
            inside = !inside;
        }
        last = next;
        proof {
            k = k + 1;
            assert(ring.skip(k).skip(1) =~= ring.skip(k + 1));
        }
    }
}

/// The volumes of a list that cover a position, in order.
pub open spec fn covering(b: Seq<u8>, list: Seq<Airspace>, at: LatLon) -> Seq<Airspace>
    decreases list.len(),
{
    if list.len() == 0 {
        seq![]
    } else {
        let so_far = covering(b, list.drop_last(), at);
        if covers(b, list.last(), at) {
            so_far.push(list.last())
        } else {
            so_far
        }
    }
}

/// Whether any volume of a chart covers a position.
pub open spec fn is_covered(b: Seq<u8>, at: LatLon) -> bool {
    exists|space: Airspace, i: int|
        0 <= i < airspace_total(b) && #[trigger] airspace_is(space, b, i) && covers(b, space, at)
}

/// What a volume covers depends only on its box and its rings.
proof fn cover_is_in_the_rings(b: Seq<u8>, space: Airspace, other: Airspace, at: LatLon, rings: int)
    requires
        space.ring_first == other.ring_first,
        space.ring_count == other.ring_count,
    ensures
        odd_rings(b, space, at, rings) == odd_rings(b, other, at, rings),
    decreases rings,
{
    if rings > 0 {
        cover_is_in_the_rings(b, space, other, at, rings - 1);
    }
}

proof fn covering_is_some(b: Seq<u8>, list: Seq<Airspace>, at: LatLon)
    ensures
        covering(b, list, at).len() > 0 <==> exists|k: int|
            0 <= k < list.len() && covers(b, #[trigger] list[k], at),
    decreases list.len(),
{
    if list.len() > 0 {
        let front = list.drop_last();
        covering_is_some(b, front, at);
        if exists|k: int| 0 <= k < list.len() && covers(b, #[trigger] list[k], at) {
            let k = choose|k: int| 0 <= k < list.len() && covers(b, #[trigger] list[k], at);
            if k < front.len() {
                assert(front[k] == list[k]);
            }
        }
        if exists|k: int| 0 <= k < front.len() && covers(b, #[trigger] front[k], at) {
            let k = choose|k: int| 0 <= k < front.len() && covers(b, #[trigger] front[k], at);
            assert(list[k] == front[k]);
        }
        if covers(b, list.last(), at) {
            assert(list[list.len() - 1] == list.last());
        }
    }
}

proof fn covering_is_exact(b: Seq<u8>, boxed: Seq<Airspace>, at: LatLon)
    requires
        0 <= airspace_total(b),
        airspace_are(boxed, b, airspace_found(b, only(at), airspace_total(b))),
    ensures
        (covering(b, boxed, at).len() > 0) == is_covered(b, at),
{
    let found = airspace_found(b, only(at), airspace_total(b));
    airspace_queries_are_exact(b, only(at), airspace_total(b));
    covering_is_some(b, boxed, at);
    if exists|k: int| 0 <= k < boxed.len() && covers(b, #[trigger] boxed[k], at) {
        let k = choose|k: int| 0 <= k < boxed.len() && covers(b, #[trigger] boxed[k], at);
        assert(airspace_is(boxed[k], b, found[k]));
    }
    if is_covered(b, at) {
        let (space, i) = choose|space: Airspace, i: int|
            0 <= i < airspace_total(b) && #[trigger] airspace_is(space, b, i) && covers(
                b,
                space,
                at,
            );
        held_boxes_meet(space.bounds, at);
        assert(found.contains(i));
        let k = choose|k: int| 0 <= k < found.len() && found[k] == i;
        assert(airspace_is(boxed[k], b, i));
        cover_is_in_the_rings(b, space, boxed[k], at, space.ring_count as int);
        assert(covers(b, boxed[k], at));
    }
}

/// A box that holds a position meets the one around it.
proof fn held_boxes_meet(bounds: Bounds, at: LatLon)
    requires
        bounds.holds_position(at),
    ensures
        bounds.meets(only(at)),
{
}

/// A list of volumes with one more put in by where it starts: behind all that start no higher.
pub open spec fn stacked_on(list: Seq<Airspace>, space: Airspace) -> Seq<Airspace>
    decreases list.len(),
{
    if list.len() == 0 || floor_of(list.last()) <= floor_of(space) {
        list.push(space)
    } else {
        stacked_on(list.drop_last(), space).push(list.last())
    }
}

/// A list of volumes, lowest floor first, and in the order they came where floors are equal.
pub open spec fn stacked(list: Seq<Airspace>) -> Seq<Airspace>
    decreases list.len(),
{
    if list.len() == 0 {
        seq![]
    } else {
        stacked_on(stacked(list.drop_last()), list.last())
    }
}

proof fn stacked_on_inserts(list: Seq<Airspace>, space: Airspace, place: int)
    requires
        0 <= place <= list.len(),
        place > 0 ==> floor_of(list[place - 1]) <= floor_of(space),
        forall|k: int| place <= k < list.len() ==> floor_of(#[trigger] list[k]) > floor_of(space),
    ensures
        stacked_on(list, space) == list.insert(place, space),
    decreases list.len(),
{
    if place == list.len() {
        assert(list.insert(place, space) =~= list.push(space));
    } else {
        assert(floor_of(list[list.len() - 1]) > floor_of(space));
        stacked_on_inserts(list.drop_last(), space, place);
        assert(list.drop_last().insert(place, space).push(list.last()) =~= list.insert(
            place,
            space,
        ));
    }
}

fn stack_on(list: &mut Vec<Airspace>, space: Airspace)
    ensures
        final(list)@ == stacked_on(old(list)@, space),
{
    let mut place: usize = list.len();
    let floor: i32 = floor_ft(&space);
    while place > 0 && floor_ft(&list[place - 1]) > floor
        invariant
            place <= list@.len(),
            floor == floor_of(space),
            list@ == old(list)@,
            forall|k: int|
                place <= k < list@.len() ==> floor_of(#[trigger] list@[k]) > floor_of(space),
        decreases place,
    {
        place = place - 1;
    }
    proof {
        stacked_on_inserts(list@, space, place as int);
    }
    list.insert(place, space);
}

/// The box around the nearest whole millionths of a degree that a box holding a position holds too.
pub open spec fn only(at: LatLon) -> Bounds {
    let (lat, lon) = (nearest_coordinate(at.lat_e6()), nearest_coordinate(at.lon_e6()));
    Bounds { lat_min: lat, lat_max: lat, lon_min: lon, lon_max: lon }
}

/// Whether these are the volumes over a position, lowest floor first.
pub open spec fn volumes_over(list: Seq<Airspace>, b: Seq<u8>, at: LatLon) -> bool {
    exists|boxed: Seq<Airspace>| #[trigger]
        airspace_are(boxed, b, airspace_found(b, only(at), airspace_total(b))) && list == stacked(
            covering(b, boxed, at),
        )
}

impl Chart {
    fn covers_position(&self, space: &Airspace, at: LatLon) -> (r: bool)
        ensures
            r == covers(self@, *space, at),
    {
        if !space.bounds.contains(at) {
            return false;
        }
        let mut inside: bool = false;
        let mut ring: usize = 0;
        while ring < space.ring_count()
            invariant
                ring <= space.ring_count,
                inside == odd_rings(self@, *space, at, ring as int),
            decreases space.ring_count - ring,
        {
            if ring_is_odd(self.ring(space, ring), at) {
                inside = !inside;
            }
            ring = ring + 1;
        }
        inside
    }

    /// The airspace over a position, lowest floor first: the order you would meet it climbing.
    pub fn airspace_at(&self, at: LatLon) -> (r: Vec<Airspace>)
        ensures
            volumes_over(r@, self@, at),
            (r@.len() > 0) == is_covered(self@, at),
    {
        let (lat_e6, lon_e6): (i64, i64) = at.millionths();
        let (lat, lon): (i32, i32) = (clamped(lat_e6 as i128), clamped(lon_e6 as i128));
        let point: Bounds = Bounds { lat_min: lat, lat_max: lat, lon_min: lon, lon_max: lon };
        let boxed: Vec<Airspace> = self.airspace_in(&point);
        let mut out: Vec<Airspace> = Vec::new();
        let mut i: usize = 0;
        assert(boxed@.take(0) =~= seq![]);
        while i < boxed.len()
            invariant
                i <= boxed.len(),
                airspace_are(
                    boxed@,
                    self@,
                    airspace_found(self@, only(at), airspace_total(self@)),
                ),
                out@ == stacked(covering(self@, boxed@.take(i as int), at)),
            decreases boxed.len() - i,
        {
            proof {
                assert(boxed@.take(i + 1).drop_last() =~= boxed@.take(i as int));
                assert(boxed@.take(i + 1).last() == boxed@[i as int]);
            }
            if self.covers_position(&boxed[i], at) {
                let ghost so_far = covering(self@, boxed@.take(i as int), at);
                assert(so_far.push(boxed@[i as int]).drop_last() =~= so_far);
                stack_on(&mut out, boxed[i]);
            }
            i = i + 1;
        }
        assert(boxed@.take(i as int) =~= boxed@);
        proof {
            the_lowest_floor_comes_first(covering(self@, boxed@, at));
            covering_is_exact(self@, boxed@, at);
        }
        out
    }
}

// --- laws ----------------------------------------------------------------------------------

/// Whether floors never go down along a list.
pub open spec fn floors_rise(list: Seq<Airspace>) -> bool {
    forall|i: int, j: int| 0 <= i <= j < list.len() ==> floor_of(list[i]) <= floor_of(list[j])
}

proof fn stacking_one_keeps_order(list: Seq<Airspace>, space: Airspace)
    requires
        floors_rise(list),
    ensures
        floors_rise(stacked_on(list, space)),
        stacked_on(list, space).len() == list.len() + 1,
        stacked_on(list, space).to_multiset() == list.to_multiset().insert(space),
        list.len() > 0 && floor_of(list.last()) > floor_of(space) ==> stacked_on(
            list,
            space,
        ).last() == list.last(),
        forall|i: int|
            0 <= i < stacked_on(list, space).len() ==> (#[trigger] stacked_on(list, space)[i]
                == space || list.contains(stacked_on(list, space)[i])),
    decreases list.len(),
{
    broadcast use vstd::seq_lib::group_to_multiset_ensures;

    let out = stacked_on(list, space);
    if list.len() == 0 || floor_of(list.last()) <= floor_of(space) {
        assert forall|i: int| 0 <= i < out.len() implies (#[trigger] out[i] == space
            || list.contains(out[i])) by {
            if i < list.len() {
                assert(list[i] == out[i]);
            }
        }
    } else {
        let front = list.drop_last();
        stacking_one_keeps_order(front, space);
        let inner = stacked_on(front, space);
        assert(out == inner.push(list.last()));
        assert forall|i: int| 0 <= i < inner.len() implies floor_of(#[trigger] inner[i])
            <= floor_of(list.last()) by {
            assert(inner[i] == space || front.contains(inner[i]));
            if inner[i] != space {
                let m = choose|m: int| 0 <= m < front.len() && front[m] == inner[i];
                assert(list[m] == inner[i]);
            }
        }
        assert forall|i: int| 0 <= i < out.len() implies (#[trigger] out[i] == space
            || list.contains(out[i])) by {
            if i < inner.len() {
                assert(out[i] == inner[i]);
                if inner[i] != space {
                    let m = choose|m: int| 0 <= m < front.len() && front[m] == inner[i];
                    assert(list[m] == out[i]);
                }
            } else {
                assert(list[list.len() - 1] == out[i]);
            }
        }
        assert(list =~= front.push(list.last()));
        assert(out.to_multiset() =~= list.to_multiset().insert(space));
    }
}

/// Stacking loses nothing and adds nothing, and puts the lowest floor first.
pub proof fn the_lowest_floor_comes_first(list: Seq<Airspace>)
    ensures
        floors_rise(stacked(list)),
        stacked(list).len() == list.len(),
        stacked(list).to_multiset() == list.to_multiset(),
    decreases list.len(),
{
    broadcast use vstd::seq_lib::group_to_multiset_ensures;

    if list.len() > 0 {
        the_lowest_floor_comes_first(list.drop_last());
        stacking_one_keeps_order(stacked(list.drop_last()), list.last());
        assert(list =~= list.drop_last().push(list.last()));
    }
}

/// Which way round an edge is walked makes no difference.
pub proof fn edges_have_no_direction(a: LatLon, b: LatLon, at: LatLon)
    ensures
        crosses(a, b, at) == crosses(b, a, at),
{
    let (ax, ay) = (a.lon_e9 as int, a.lat_e9 as int);
    let (bx, by_) = (b.lon_e9 as int, b.lat_e9 as int);
    let (x, y) = (at.lon_e9 as int, at.lat_e9 as int);
    assert((x - ax) * (by_ - ay) - (bx - ax) * (y - ay) == -((x - bx) * (ay - by_) - (ax - bx) * (y
        - by_))) by (nonlinear_arith);
}

/// A boundary that is a box holds what is inside it and nothing else: between its southern and its
/// northern side and between its western and its eastern one, whichever way round it is written.
pub proof fn a_box_holds_what_is_inside_it(south: i64, west: i64, north: i64, east: i64, at: LatLon)
    requires
        south < north,
        west < east,
    ensures
        ({
            let round = seq![
                LatLon { lat_e9: south, lon_e9: west },
                LatLon { lat_e9: south, lon_e9: east },
                LatLon { lat_e9: north, lon_e9: east },
                LatLon { lat_e9: north, lon_e9: west },
            ];
            let back = seq![
                LatLon { lat_e9: north, lon_e9: west },
                LatLon { lat_e9: north, lon_e9: east },
                LatLon { lat_e9: south, lon_e9: east },
                LatLon { lat_e9: south, lon_e9: west },
            ];
            &&& odd(round, at) <==> south <= at.lat_e9 < north && west <= at.lon_e9 < east
            &&& odd(back, at) == odd(round, at)
        }),
{
    reveal_with_fuel(odd_so_far, 5);
    let (sw, se) = (LatLon { lat_e9: south, lon_e9: west }, LatLon { lat_e9: south, lon_e9: east });
    let (nw, ne) = (LatLon { lat_e9: north, lon_e9: west }, LatLon { lat_e9: north, lon_e9: east });
    level_edges_are_not_crossed(sw, se, at);
    level_edges_are_not_crossed(ne, nw, at);
    level_edges_are_not_crossed(nw, ne, at);
    level_edges_are_not_crossed(se, sw, at);
    upright_edges_are_crossed_from_the_west(se, ne, at);
    upright_edges_are_crossed_from_the_west(sw, nw, at);
    edges_have_no_direction(se, ne, at);
    edges_have_no_direction(sw, nw, at);
}

/// An edge that runs due east is never crossed by a line that does.
proof fn level_edges_are_not_crossed(a: LatLon, b: LatLon, at: LatLon)
    requires
        a.lat_e9 == b.lat_e9,
    ensures
        !crosses(a, b, at),
{
}

/// An edge that runs due north is crossed from every position west of it and level with it.
pub proof fn upright_edges_are_crossed_from_the_west(a: LatLon, b: LatLon, at: LatLon)
    requires
        a.lon_e9 == b.lon_e9,
        a.lat_e9 < b.lat_e9,
    ensures
        crosses(a, b, at) <==> a.lat_e9 <= at.lat_e9 < b.lat_e9 && at.lon_e9 < a.lon_e9,
{
    let (d, rise) = (at.lon_e9 - a.lon_e9, b.lat_e9 - a.lat_e9);
    assert(0 * (at.lat_e9 - a.lat_e9) == 0);
    assert(d * rise < 0 <==> d < 0) by (nonlinear_arith)
        requires
            rise > 0,
    ;
}

/// A hole is not inside: what an odd number of rings hold is inside, what an even number hold is not.
pub proof fn holes_are_outside(b: Seq<u8>, space: Airspace, at: LatLon)
    requires
        space.ring_count == 2,
        space.bounds.holds_position(at),
    ensures
        covers(b, space, at) <==> odd(ring_vertices(b, space, 0), at) != odd(
            ring_vertices(b, space, 1),
            at,
        ),
{
    reveal_with_fuel(odd_rings, 3);
}

/// One ring is a boundary, no ring holds nothing, and nothing outside its box is inside.
pub proof fn a_volume_is_inside_its_boundary(b: Seq<u8>, space: Airspace, at: LatLon)
    ensures
        space.ring_count == 0 ==> !covers(b, space, at),
        space.ring_count == 1 ==> (covers(b, space, at) <==> space.bounds.holds_position(at) && odd(
            ring_vertices(b, space, 0),
            at,
        )),
        !space.bounds.holds_position(at) ==> !covers(b, space, at),
{
    reveal_with_fuel(odd_rings, 2);
}

/// A volume that starts at the surface has its floor there, whatever limit is written beside it; any
/// other has the floor it says.
pub proof fn floors_are_where_they_say(space: Airspace)
    ensures
        space.flags % 2 == 1 ==> floor_of(space) == 0,
        space.flags % 2 == 0 ==> floor_of(space) == space.lower_ft,
{
    let flags = space.flags;
    assert(flags % 2 == 1 ==> flags & 1 != 0) by (bit_vector);
    assert(flags % 2 == 0 ==> flags & 1 == 0) by (bit_vector);
}

/// Of a list of volumes, those that cover a position are kept, all of them and no other.
pub proof fn what_covers_is_kept(b: Seq<u8>, list: Seq<Airspace>, at: LatLon, space: Airspace)
    ensures
        covering(b, list, at).contains(space) <==> list.contains(space) && covers(b, space, at),
    decreases list.len(),
{
    let kept = covering(b, list, at);
    if list.len() > 0 {
        let front = list.drop_last();
        what_covers_is_kept(b, front, at, space);
        let so_far = covering(b, front, at);
        assert(list =~= front.push(list.last()));
        if list.contains(space) {
            let k = choose|k: int| 0 <= k < list.len() && list[k] == space;
            if k < front.len() {
                assert(front[k] == space);
            }
        }
        if front.contains(space) {
            let k = choose|k: int| 0 <= k < front.len() && front[k] == space;
            assert(list[k] == space);
        }
        if so_far.contains(space) {
            let k = choose|k: int| 0 <= k < so_far.len() && so_far[k] == space;
            assert(kept[k] == space);
        }
        if covers(b, list.last(), at) {
            assert(kept[kept.len() - 1] == list.last());
            assert(list[list.len() - 1] == list.last());
            if kept.contains(space) {
                let k = choose|k: int| 0 <= k < kept.len() && kept[k] == space;
                if k < so_far.len() {
                    assert(so_far[k] == space);
                }
            }
        }
    } else {
        assert(kept.len() == 0);
    }
}

} // verus!
