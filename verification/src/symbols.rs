//! Target symbol shapes, keyed off the GDL90 emitter category.
//!
//! Shapes are chosen to stay distinguishable at roughly 16 px on a 7" panel, which rules out
//! anything with interior detail.

use vstd::prelude::*;

use crate::layout::LONGEST_SIDE;

verus! {

/// The visually distinct symbol families the display draws.
#[derive(Debug, Clone, Copy, PartialEq, Eq, Structural)]
pub enum SymbolShape {
    /// Powered fixed-wing, any weight class.
    Aircraft,
    Rotorcraft,
    Glider,
    /// Balloon or airship.
    LighterThanAir,
    /// Parachutist, hang glider, paraglider, ultralight.
    Light,
    Uav,
    /// Airport service or emergency vehicle on the surface.
    GroundVehicle,
    Obstacle,
    Unknown,
}

/// The shape of an emitter category.
pub open spec fn category_shape(category: int) -> SymbolShape {
    if 1 <= category <= 6 {
        SymbolShape::Aircraft
    } else if category == 7 {
        SymbolShape::Rotorcraft
    } else if category == 9 {
        SymbolShape::Glider
    } else if category == 10 {
        SymbolShape::LighterThanAir
    } else if category == 11 || category == 12 {
        SymbolShape::Light
    } else if category == 14 || category == 15 {
        SymbolShape::Uav
    } else if category == 17 || category == 18 {
        SymbolShape::GroundVehicle
    } else if 19 <= category <= 21 {
        SymbolShape::Obstacle
    } else {
        SymbolShape::Unknown
    }
}

/// Map a GDL90 emitter category to a shape.
///
/// Categories are from DO-282 / the GDL90 interface, as forwarded by the receiver. Weight classes
/// 1–6 all draw as `Aircraft`: the distinction matters for wake turbulence, not for seeing traffic
/// at a glance. 0 is "no information"; 8, 13 and 16 are unassigned.
pub fn shape_for_category(category: u8) -> (r: SymbolShape)
    ensures
        r == category_shape(category as int),
{
    match category {
        1 | 2 | 3 | 4 | 5 | 6 => SymbolShape::Aircraft,
        7 => SymbolShape::Rotorcraft,
        9 => SymbolShape::Glider,
        10 => SymbolShape::LighterThanAir,
        11 | 12 => SymbolShape::Light,
        14 | 15 => SymbolShape::Uav,
        17 | 18 => SymbolShape::GroundVehicle,
        19 | 20 | 21 => SymbolShape::Obstacle,
        _ => SymbolShape::Unknown,
    }
}

/// Shapes drawn as strokes rather than fills.
pub fn is_stroke_only(shape: SymbolShape) -> (r: bool)
    ensures
        r == (shape == SymbolShape::Rotorcraft),
{
    matches!(shape, SymbolShape::Rotorcraft)
}

/// One step of an outline, in hundredths of the symbol's size, centred on the origin. Down is
/// positive.
#[derive(Debug, Clone, Copy, PartialEq, Eq, Structural)]
pub enum Stroke {
    MoveTo { x: i32, y: i32 },
    LineTo { x: i32, y: i32 },
    /// Back to where the last move went.
    Close,
    Circle { radius: i32 },
    Rect { half_width: i32, half_height: i32 },
}

/// The outline of a shape.
pub open spec fn outline(shape: SymbolShape) -> Seq<Stroke> {
    match shape {
        SymbolShape::Aircraft => seq![
            Stroke::MoveTo { x: 0, y: -100i32 },
            Stroke::LineTo { x: 82, y: 80 },
            Stroke::LineTo { x: 0, y: 34 },
            Stroke::LineTo { x: -82i32, y: 80 },
            Stroke::Close,
        ],
        SymbolShape::Glider => seq![
            Stroke::MoveTo { x: 0, y: -115i32 },
            Stroke::LineTo { x: 50, y: 85 },
            Stroke::LineTo { x: 0, y: 45 },
            Stroke::LineTo { x: -50i32, y: 85 },
            Stroke::Close,
        ],
        SymbolShape::Rotorcraft => seq![
            Stroke::Circle { radius: 52 },
            Stroke::MoveTo { x: -105i32, y: -72i32 },
            Stroke::LineTo { x: 105, y: 72 },
            Stroke::MoveTo { x: -105i32, y: 72 },
            Stroke::LineTo { x: 105, y: -72i32 },
        ],
        SymbolShape::LighterThanAir => seq![
            Stroke::Circle { radius: 78 },
        ],
        SymbolShape::Light => seq![
            Stroke::MoveTo { x: 0, y: -72i32 },
            Stroke::LineTo { x: 60, y: 0 },
            Stroke::LineTo { x: 0, y: 72 },
            Stroke::LineTo { x: -60i32, y: 0 },
            Stroke::Close,
        ],
        SymbolShape::Uav => seq![
            Stroke::MoveTo { x: -62i32, y: -34i32 },
            Stroke::LineTo { x: 0, y: -86i32 },
            Stroke::LineTo { x: 62, y: -34i32 },
            Stroke::LineTo { x: 62, y: 62 },
            Stroke::LineTo { x: -62i32, y: 62 },
            Stroke::Close,
        ],
        SymbolShape::GroundVehicle => seq![
            Stroke::Rect { half_width: 58, half_height: 42 },
        ],
        SymbolShape::Obstacle => seq![
            Stroke::MoveTo { x: 0, y: -95i32 },
            Stroke::LineTo { x: 80, y: 70 },
            Stroke::LineTo { x: -80i32, y: 70 },
            Stroke::Close,
        ],
        SymbolShape::Unknown => seq![
            Stroke::MoveTo { x: 0, y: -85i32 },
            Stroke::LineTo { x: 85, y: 0 },
            Stroke::LineTo { x: 0, y: 85 },
            Stroke::LineTo { x: -85i32, y: 0 },
            Stroke::Close,
        ],
    }
}

/// The outline of a shape: centred on the origin and pointing up, so that the caller turns it by the
/// screen angle of the target's track and scales it so that the size is roughly its radius.
pub fn build(shape: SymbolShape) -> (r: Vec<Stroke>)
    ensures
        r@ == outline(shape),
{
    let out: Vec<Stroke> = match shape {
        SymbolShape::Aircraft => {
            // Chevron: non-convex, reads clearly as directional even when small.
            vec![
                Stroke::MoveTo { x: 0, y: -100i32 },
                Stroke::LineTo { x: 82, y: 80 },
                Stroke::LineTo { x: 0, y: 34 },
                Stroke::LineTo { x: -82i32, y: 80 },
                Stroke::Close,
            ]
        },
        SymbolShape::Glider => {
            // Slenderer and longer than a powered aircraft.
            vec![
                Stroke::MoveTo { x: 0, y: -115i32 },
                Stroke::LineTo { x: 50, y: 85 },
                Stroke::LineTo { x: 0, y: 45 },
                Stroke::LineTo { x: -50i32, y: 85 },
                Stroke::Close,
            ]
        },
        SymbolShape::Rotorcraft => {
            // Body plus rotor bars; the bars are what distinguishes it at a glance.
            vec![
                Stroke::Circle { radius: 52 },
                Stroke::MoveTo { x: -105i32, y: -72i32 },
                Stroke::LineTo { x: 105, y: 72 },
                Stroke::MoveTo { x: -105i32, y: 72 },
                Stroke::LineTo { x: 105, y: -72i32 },
            ]
        },
        SymbolShape::LighterThanAir => {
            vec![
                Stroke::Circle { radius: 78 },
            ]
        },
        SymbolShape::Light => {
            // Small diamond: clearly "something small and slow".
            vec![
                Stroke::MoveTo { x: 0, y: -72i32 },
                Stroke::LineTo { x: 60, y: 0 },
                Stroke::LineTo { x: 0, y: 72 },
                Stroke::LineTo { x: -60i32, y: 0 },
                Stroke::Close,
            ]
        },
        SymbolShape::Uav => {
            // Square with a directional notch on top.
            vec![
                Stroke::MoveTo { x: -62i32, y: -34i32 },
                Stroke::LineTo { x: 0, y: -86i32 },
                Stroke::LineTo { x: 62, y: -34i32 },
                Stroke::LineTo { x: 62, y: 62 },
                Stroke::LineTo { x: -62i32, y: 62 },
                Stroke::Close,
            ]
        },
        SymbolShape::GroundVehicle => {
            vec![
                Stroke::Rect { half_width: 58, half_height: 42 },
            ]
        },
        SymbolShape::Obstacle => {
            vec![
                Stroke::MoveTo { x: 0, y: -95i32 },
                Stroke::LineTo { x: 80, y: 70 },
                Stroke::LineTo { x: -80i32, y: 70 },
                Stroke::Close,
            ]
        },
        SymbolShape::Unknown => {
            vec![
                Stroke::MoveTo { x: 0, y: -85i32 },
                Stroke::LineTo { x: 85, y: 0 },
                Stroke::LineTo { x: 0, y: 85 },
                Stroke::LineTo { x: -85i32, y: 0 },
                Stroke::Close,
            ]
        },
    };
    assert(out@ =~= outline(shape));
    out
}

/// The outline of own-ship: a chevron, distinct from traffic only by colour and by being longer.
pub open spec fn ownship_outline() -> Seq<Stroke> {
    seq![
        Stroke::MoveTo { x: 0, y: -125i32 },
        Stroke::LineTo { x: 88, y: 88 },
        Stroke::LineTo { x: 0, y: 42 },
        Stroke::LineTo { x: -88i32, y: 88 },
        Stroke::Close,
    ]
}

/// The outline of own-ship.
pub fn ownship() -> (r: Vec<Stroke>)
    ensures
        r@ == ownship_outline(),
{
    let out: Vec<Stroke> = vec![
        Stroke::MoveTo { x: 0, y: -125i32 },
        Stroke::LineTo { x: 88, y: 88 },
        Stroke::LineTo { x: 0, y: 42 },
        Stroke::LineTo { x: -88i32, y: 88 },
        Stroke::Close,
    ];
    assert(out@ =~= ownship_outline());
    out
}

/// Where a step goes.
pub open spec fn end_of(step: Stroke) -> Option<(i32, i32)> {
    match step {
        Stroke::MoveTo { x, y } => Some((x, y)),
        Stroke::LineTo { x, y } => Some((x, y)),
        _ => None,
    }
}

/// The line showing where a target is heading: straight ahead from the edge of a symbol of this
/// size. Lengths are in thousandths of a pixel.
pub fn heading_barb(size: i64, length: i64) -> (r: ((i64, i64), (i64, i64)))
    requires
        0 <= size <= LONGEST_SIDE,
        0 <= length <= LONGEST_SIDE,
    ensures
        r.0.0 == 0 && r.0.1 == -size,
        r.1.0 == 0 && r.1.1 == -size - length,
{
    ((0, -size), (0, -size - length))
}

/// Whether a step of an outline goes to a point.
pub open spec fn goes_to(steps: Seq<Stroke>, x: int, y: int) -> bool {
    exists|k: int|
        0 <= k < steps.len() && (#[trigger] end_of(steps[k]) matches Some(p) && p.0 == x && p.1
            == y)
}

// --- laws ----------------------------------------------------------------------------------

/// Every symbol is the same on both sides of the way it points: turning it is the only thing that
/// shows where a target is heading.
pub proof fn symbols_are_symmetric(shape: SymbolShape, k: int)
    requires
        0 <= k < outline(shape).len(),
    ensures
        end_of(outline(shape)[k]) matches Some(p) ==> goes_to(outline(shape), -p.0, p.1 as int),
{
    let steps = outline(shape);
    assert(k == 0 || k == 1 || k == 2 || k == 3 || k == 4 || k == 5);
    assert(0 < steps.len() ==> end_of(steps[0]) == end_of(steps[0]));
    assert(1 < steps.len() ==> end_of(steps[1]) == end_of(steps[1]));
    assert(2 < steps.len() ==> end_of(steps[2]) == end_of(steps[2]));
    assert(3 < steps.len() ==> end_of(steps[3]) == end_of(steps[3]));
    assert(4 < steps.len() ==> end_of(steps[4]) == end_of(steps[4]));
}

/// What each category is drawn as: aircraft of every weight as a dart, and each other sort of its own.
/// What is not said, or not known, is drawn as unknown.
pub proof fn categories_have_their_symbols(category: int)
    ensures
        1 <= category <= 6 <==> category_shape(category) == SymbolShape::Aircraft,
        category == 7 <==> category_shape(category) == SymbolShape::Rotorcraft,
        category == 9 <==> category_shape(category) == SymbolShape::Glider,
        category == 10 <==> category_shape(category) == SymbolShape::LighterThanAir,
        category == 11 || category == 12 <==> category_shape(category) == SymbolShape::Light,
        category == 14 || category == 15 <==> category_shape(category) == SymbolShape::Uav,
        category == 17 || category == 18 <==> category_shape(category) == SymbolShape::GroundVehicle,
        19 <= category <= 21 <==> category_shape(category) == SymbolShape::Obstacle,
        category <= 0 || category == 8 || category == 13 || category == 16 || category >= 22
            <==> category_shape(category) == SymbolShape::Unknown,
{
}

/// What has a nose has it at the top: on the middle line, above everything else of the symbol.
pub proof fn the_nose_is_at_the_top(shape: SymbolShape, k: int)
    requires
        shape == SymbolShape::Aircraft || shape == SymbolShape::Glider || shape
            == SymbolShape::Obstacle,
        0 < k < outline(shape).len(),
    ensures
        end_of(outline(shape)[0]) matches Some(nose) && nose.0 == 0 && nose.1 < 0 && (end_of(
            outline(shape)[k],
        ) matches Some(p) ==> p.1 > nose.1),
{
    assert(k == 1 || k == 2 || k == 3 || k == 4);
}

/// Own-ship is a dart of its own, larger than any target's, its nose at the top and the same on both
/// sides.
pub proof fn own_ship_is_a_dart(k: int)
    requires
        0 <= k < 5,
    ensures
        ({
            let steps = ownship_outline();
            &&& steps.len() == 5
            &&& end_of(steps[0]) == Some((0i32, -125i32))
            &&& 0 < k < 4 ==> (end_of(steps[k]) is Some && (end_of(steps[k])->0).1 > -125)
            &&& end_of(steps[1]) matches Some(right) && end_of(steps[3]) matches Some(left)
                && left.0 == -right.0 && left.1 == right.1 && right.0 > 0
            &&& steps[4] == Stroke::Close
        }),
{
}

/// No two sorts of target look alike.
pub proof fn symbols_are_told_apart(shape: SymbolShape, other: SymbolShape)
    requires
        shape != other,
    ensures
        outline(shape) != outline(other),
{
    let (a, b) = (outline(shape), outline(other));
    if a == b {
        assert(a[0] == b[0]);
        assert(a.len() == b.len());
    }
}

} // verus!
