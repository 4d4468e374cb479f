use mapeditor::map_data::{map_file_name, map_key, get_tile_pos, convert_to_dir, Direction, MapData};
use mapeditor::text::format_triple;

#[test]
fn format_triple_joins_with_underscores() {
    assert_eq!(format_triple(0, 0, 0), "0_0_0");
    assert_eq!(format_triple(-1, 20, 305), "-1_20_305");
    assert_eq!(format_triple(i64::MIN, 9, -10), "-9223372036854775808_9_-10");
}

#[test]
fn map_key_and_file_name() {
    assert_eq!(map_key(1, -2, 3), "1_-2_3");
    assert_eq!(map_file_name(1, 2, 3), "./data/maps/1_2_3.json");
    assert_eq!(map_file_name(-4, 0, 12), "./data/maps/-4_0_12.json");
}

#[test]
fn tile_numbers_run_row_by_row() {
    assert_eq!(get_tile_pos(0, 0), 0);
    assert_eq!(get_tile_pos(31, 0), 31);
    assert_eq!(get_tile_pos(0, 1), 32);
    assert_eq!(get_tile_pos(5, 7), 229);
    assert_eq!(get_tile_pos(31, 31), 1023);
}

#[test]
fn link_directions() {
    assert_eq!(convert_to_dir(1), Direction::North);
    assert_eq!(convert_to_dir(2), Direction::NorthEast);
    assert_eq!(convert_to_dir(3), Direction::West);
    assert_eq!(convert_to_dir(4), Direction::East);
    assert_eq!(convert_to_dir(5), Direction::SouthWest);
    assert_eq!(convert_to_dir(6), Direction::South);
    assert_eq!(convert_to_dir(7), Direction::SouthEast);
    assert_eq!(convert_to_dir(0), Direction::NorthWest);
    assert_eq!(convert_to_dir(99), Direction::NorthWest);
}

#[test]
fn default_map_data_is_empty() {
    let m = MapData::default();
    assert_eq!(m.tile.len(), 8);
    for layer in &m.tile {
        assert_eq!(layer.id.len(), 1024);
        assert!(layer.id.iter().all(|&id| id == 0));
    }
}

#[test]
fn characters_are_found_and_dropped() {
    assert!(mapeditor::text::contains_char("-12", '-'));
    assert!(!mapeditor::text::contains_char("12", '-'));
    assert!(mapeditor::text::contains_char("a\u{e9}", '\u{e9}'));
    let mut s = String::from("ab\u{e9}");
    mapeditor::text::pop_char(&mut s);
    assert_eq!(s, "ab");
    let mut e = String::new();
    mapeditor::text::pop_char(&mut e);
    assert_eq!(e, "");
}
