use avionics::symbols::{build, heading_barb, is_stroke_only, ownship, shape_for_category, Stroke, SymbolShape};

#[test]
fn the_emitter_category_chooses_the_shape() {
    assert_eq!(shape_for_category(1), SymbolShape::Aircraft);
    assert_eq!(shape_for_category(7), SymbolShape::Rotorcraft);
    assert_eq!(shape_for_category(9), SymbolShape::Glider);
    assert_eq!(shape_for_category(10), SymbolShape::LighterThanAir);
    assert_eq!(shape_for_category(14), SymbolShape::Uav);
    assert_eq!(shape_for_category(200), SymbolShape::Unknown);
}

#[test]
fn an_aircraft_points_the_way_it_is_heading() {
    let outline = build(SymbolShape::Aircraft);
    assert_eq!(outline[0], Stroke::MoveTo { x: 0, y: -100 });
    assert_eq!(outline[4], Stroke::Close);
    assert_eq!(build(SymbolShape::GroundVehicle), vec![Stroke::Rect { half_width: 58, half_height: 42 }]);
    assert!(ownship().len() > 2);
    assert_eq!(heading_barb(9_000, 8_100), ((0, -9_000), (0, -17_100)));
}

#[test]
fn every_outline_is_the_same_on_both_sides() {
    for category in 0..=20u8 {
        let outline = build(shape_for_category(category));
        let ends: Vec<(i32, i32)> = outline
            .iter()
            .filter_map(|s| match s {
                Stroke::MoveTo { x, y } | Stroke::LineTo { x, y } => Some((*x, *y)),
                _ => None,
            })
            .collect();
        for (x, y) in &ends {
            assert!(ends.contains(&(-x, *y)), "category {category}");
        }
    }
}

#[test]
fn a_crossed_circle_is_stroked() {
    assert!(is_stroke_only(SymbolShape::Rotorcraft));
    assert!(!is_stroke_only(SymbolShape::Aircraft));
}
