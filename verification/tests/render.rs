use roguelike::color::RatColor;
use roguelike::grid_vec::GridVec;
use roguelike::point_set::PointSet;
use roguelike::systems::render::{
    centered_box, label_origin, overlay_entities, visible_entity_entries, EntityGlyph, SeenEntity,
};
use roguelike::typedefs::create_2d_array;

fn glyph(x: i32, y: i32, symbol: &str, name: Option<&str>) -> EntityGlyph {
    EntityGlyph {
        pos: GridVec::new(x, y),
        symbol: symbol.to_string(),
        fg: RatColor::Rgb(1, 2, 3),
        bg: RatColor::Gray,
        name: name.map(|n| n.to_string()),
    }
}

#[test]
fn entities_are_drawn_where_they_are_seen() {
    let mut packet = create_2d_array(4, 3);
    packet[1][2].2 = RatColor::Rgb(9, 9, 9);
    let mut visible = PointSet::new();
    visible.insert((12, 21));
    visible.insert((10, 20));
    visible.insert((50, 50));
    let entities = vec![
        glyph(12, 21, "@", Some("Player")),
        glyph(11, 20, "b", Some("Bandit")),
        glyph(10, 20, "c", None),
        glyph(50, 50, "x", Some("Far")),
    ];
    let seen = overlay_entities(&mut packet, GridVec::new(10, 20), 4, 3, Some(&visible), &entities);
    assert_eq!(packet[1][2], ("@".to_string(), RatColor::Rgb(1, 2, 3), RatColor::Rgb(9, 9, 9)));
    assert_eq!(packet[0][0], ("c".to_string(), RatColor::Rgb(1, 2, 3), RatColor::Black));
    assert_eq!(packet[0][1], (" ".to_string(), RatColor::Black, RatColor::Black));
    let names: Vec<&str> = seen.iter().map(|s| s.name.as_str()).collect();
    assert_eq!(names, vec!["Player", "???"]);
    assert_eq!(seen[0].bg, RatColor::Gray);

    let mut packet = create_2d_array(4, 3);
    let seen = overlay_entities(&mut packet, GridVec::new(10, 20), 4, 3, None, &entities);
    assert_eq!(seen.len(), 3);
    assert_eq!(packet[0][1].0, "b");
}

fn seen(name: &str) -> SeenEntity {
    SeenEntity { symbol: "?".to_string(), fg: RatColor::Black, bg: RatColor::Black, name: name.to_string() }
}

#[test]
fn the_side_panel_lists_each_name_once() {
    let list = vec![seen("Bandit"), seen("Coyote"), seen("Bandit"), seen("Sheriff"), seen("Coyote")];
    assert_eq!(visible_entity_entries(&list, 10), vec![0, 1, 3]);
    assert_eq!(visible_entity_entries(&list, 2), vec![0, 1]);
    assert_eq!(visible_entity_entries(&list, 0), vec![0]);
    assert_eq!(visible_entity_entries(&Vec::new(), 0), Vec::<usize>::new());
}

#[test]
fn overlays_are_centered() {
    assert_eq!(label_origin(0, 0, 80, 40, 28), Some((26, 20)));
    assert_eq!(label_origin(5, 2, 20, 1, 28), None);
    assert_eq!(label_origin(5, 2, 30, 0, 28), None);
    assert_eq!(centered_box(0, 0, 80, 40, 42, 15), Some((19, 12)));
    assert_eq!(centered_box(0, 0, 41, 40, 42, 15), None);
    assert_eq!(centered_box(0, 0, 80, 14, 42, 15), None);
}
