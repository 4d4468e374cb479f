use mapeditor::color::Color;
use mapeditor::editor_data::EditorData;
use mapeditor::map_data::{map_key, Direction, MapData};
use mapeditor::map_view::MapView;
use mapeditor::tile_map::{TileData, TileMap};

fn tile(id: u32) -> TileData {
    TileData { texture_id: id, texture_layer: 0, color: Color::rgba(255, 255, 255, 255) }
}

fn map_with(layer: usize, index: usize, id: u32) -> MapData {
    let mut m = MapData::default();
    m.tile[layer].id[index] = id;
    m
}

#[test]
fn starts_at_the_origin_map() {
    let e = EditorData::new(MapData::default());
    assert_eq!((e.x, e.y, e.group), (0, 0, 0));
    assert_eq!(e.current_index, "0_0_0");
    assert!(e.has_current_map());
    assert_eq!(e.did_map_change.get("0_0_0"), Some(&false));
}

#[test]
fn moving_drops_an_unchanged_map_and_keeps_a_changed_one() {
    let mut e = EditorData::new(MapData::default());
    assert_eq!(e.move_map(Direction::East), None);
    assert_eq!(e.current_index, "1_0_0");
    assert!(!e.has_map(&"0_0_0".to_string()));
    assert!(!e.has_current_map());
    e.add_map(e.current_index.clone(), MapData::default());
    assert!(e.has_current_map());
    e.set_map_change();
    assert_eq!(e.did_map_change.get("1_0_0"), Some(&true));
    assert_eq!(e.move_map(Direction::SouthWest), Some("1_0_0".to_string()));
    assert_eq!((e.x, e.y), (0, -1));
    assert_eq!(e.current_index, "0_-1_0");
    assert!(e.has_map(&"1_0_0".to_string()));
    // Moving away from a map that is not loaded changes nothing loaded.
    assert_eq!(e.move_map(Direction::North), None);
    assert_eq!(e.current_index, "0_0_0");
    assert!(e.has_map(&"1_0_0".to_string()));
}

#[test]
fn every_direction_moves_one_step() {
    let steps = [
        (Direction::North, (0, 1)),
        (Direction::South, (0, -1)),
        (Direction::East, (1, 0)),
        (Direction::West, (-1, 0)),
        (Direction::NorthEast, (1, 1)),
        (Direction::NorthWest, (-1, 1)),
        (Direction::SouthEast, (1, -1)),
        (Direction::SouthWest, (-1, -1)),
    ];
    for (d, (dx, dy)) in steps {
        let mut e = EditorData::new(MapData::default());
        e.move_map(d);
        assert_eq!((e.x, e.y), (dx, dy));
        assert_eq!(e.current_index, map_key(dx, dy, 0));
    }
}

#[test]
fn saving_copies_the_tiles_and_marks_unchanged() {
    let mut e = EditorData::new(MapData::default());
    let mut map = TileMap::new(20);
    map.set_tile((3, 4, 5), tile(9));
    e.set_map_change();
    assert!(e.save_map_data(&map, None));
    e.mark_saved();
    assert_eq!(e.maps.get("0_0_0").unwrap().tile[5].id[3 + 4 * 32], 9);
    assert_eq!(e.did_map_change.get("0_0_0"), Some(&false));
    // Saving into another loaded map does not ask for a file write.
    e.add_map("2_2_0".to_string(), MapData::default());
    assert!(!e.save_map_data(&map, Some("2_2_0".to_string())));
    assert_eq!(e.maps.get("2_2_0").unwrap().tile[5].id[3 + 4 * 32], 9);
    // A key that is not loaded changes nothing.
    assert!(!e.save_map_data(&map, Some("9_9_9".to_string())));
    assert!(!e.has_map(&"9_9_9".to_string()));
}

#[test]
fn loading_shows_the_stored_tiles() {
    let e = EditorData::new(map_with(2, 5 + 6 * 32, 14));
    let mut view = MapView::new(20);
    view.maps[0].set_tile((0, 0, 0), tile(3));
    e.load_map_data(&mut view);
    assert_eq!(view.maps[0].get_tile((5, 6, 2)), tile(14));
    assert_eq!(view.maps[0].get_tile((0, 0, 0)), TileData::default());
}

#[test]
fn link_maps_show_their_bordering_strips() {
    let mut e = EditorData::new(MapData::default());
    // The map to the right shows its first two columns; the map above
    // shows its first two rows.
    e.add_map("1_0_0".to_string(), map_with(0, 1 + 9 * 32, 21));
    e.add_map("0_1_0".to_string(), map_with(1, 7 + 32, 22));
    e.add_map("-1_0_0".to_string(), map_with(0, 31 + 3 * 32, 23));
    let mut view = MapView::new(20);
    view.maps[3].set_tile((0, 0, 0), tile(1));
    let mut exists = [false; 8];
    exists[4] = true;
    exists[1] = true;
    exists[3] = true;
    assert_eq!(e.link_position(4), (1, 0));
    assert_eq!(e.link_position(1), (0, 1));
    assert_eq!(e.link_position(3), (-1, 0));
    assert_eq!(e.link_position(0), (-1, 1));
    e.load_link_maps(&mut view, &exists);
    assert_eq!(view.maps[5].get_tile((1, 9, 0)).texture_id, 21);
    assert_eq!(view.maps[2].get_tile((7, 1, 1)).texture_id, 22);
    // The left map shows its columns 30 and 31 at columns 0 and 1.
    assert_eq!(view.maps[4].get_tile((1, 3, 0)).texture_id, 23);
    // A link without a map is cleared.
    assert_eq!(view.maps[3].get_tile((0, 0, 0)), TileData::default());
}

#[test]
fn saved_tiles_load_back() {
    let mut e = EditorData::new(MapData::default());
    let mut map = TileMap::new(20);
    map.set_tile((7, 8, 1), tile(31));
    map.set_tile((0, 31, 7), tile(2));
    assert!(e.save_map_data(&map, None));
    let mut view = MapView::new(20);
    e.load_map_data(&mut view);
    assert_eq!(view.maps[0].get_tile((7, 8, 1)).texture_id, 31);
    assert_eq!(view.maps[0].get_tile((0, 31, 7)).texture_id, 2);
    assert_eq!(view.maps[0].get_tile((1, 1, 1)).texture_id, 0);
}

#[test]
fn moving_and_back_returns_to_the_map() {
    for (there, back) in [
        (Direction::North, Direction::South),
        (Direction::East, Direction::West),
        (Direction::NorthEast, Direction::SouthWest),
        (Direction::SouthEast, Direction::NorthWest),
    ] {
        let mut e = EditorData::new(MapData::default());
        e.move_map(there);
        e.move_map(back);
        assert_eq!((e.x, e.y), (0, 0));
        assert_eq!(e.current_index, map_key(0, 0, 0));
    }
}

#[test]
fn only_missing_linked_maps_are_read() {
    let mut e = EditorData::new(MapData::default());
    e.add_map("1_0_0".to_string(), MapData::default());
    assert_eq!(e.link_to_read(4, true), None);
    assert_eq!(e.link_to_read(3, true), Some("-1_0_0".to_string()));
    assert_eq!(e.link_to_read(3, false), None);
    assert_eq!(e.link_to_read(7, true), Some("1_-1_0".to_string()));
}
