use mapeditor::attributes as server;
use mapeditor::color::Color;
use mapeditor::editor_attributes::{InsertTypes, MapAttribute, MAX_ATTRIBUTE};

#[test]
fn editor_attribute_names_letters_colors() {
    assert_eq!(MAX_ATTRIBUTE, 4);
    assert_eq!(MapAttribute::as_str(0), "Walkable");
    assert_eq!(MapAttribute::as_str(1), "Blocked");
    assert_eq!(MapAttribute::as_str(2), "Warp");
    assert_eq!(MapAttribute::as_str(3), "Sign");
    assert_eq!(MapAttribute::as_str(4), "");
    assert_eq!(MapAttribute::as_map_str(&MapAttribute::Walkable), "");
    assert_eq!(MapAttribute::as_map_str(&MapAttribute::Blocked), "B");
    assert_eq!(MapAttribute::as_map_str(&MapAttribute::Warp(1, 2, 3, 4, 5)), "W");
    assert_eq!(MapAttribute::as_map_str(&MapAttribute::Sign("hi".to_string())), "S");
    assert_eq!(MapAttribute::get_color(&MapAttribute::Blocked), Color::rgba(200, 10, 10, 100));
    assert_eq!(MapAttribute::get_color(&MapAttribute::Warp(0, 0, 0, 0, 0)), Color::rgba(10, 10, 200, 100));
    assert_eq!(MapAttribute::get_color(&MapAttribute::Sign(String::new())), Color::rgba(10, 200, 10, 100));
    assert_eq!(MapAttribute::get_color(&MapAttribute::Walkable), Color::rgba(0, 0, 0, 0));
    assert_eq!(MapAttribute::get_color(&MapAttribute::Count), Color::rgba(0, 0, 0, 0));
}

#[test]
fn editor_attribute_numbers_round_trip() {
    for a in [
        MapAttribute::Walkable,
        MapAttribute::Blocked,
        MapAttribute::Warp(-3, 4, 5, 6, 7),
        MapAttribute::Sign("hello".to_string()),
    ] {
        let n = MapAttribute::convert_to_num(&a);
        let values = a.to_insert_values();
        assert_eq!(MapAttribute::convert_to_enum(n, &values), a);
    }
    assert_eq!(MapAttribute::convert_to_num(&MapAttribute::Count), 0);
    assert_eq!(MapAttribute::convert_to_plain_enum(1), MapAttribute::Blocked);
    assert_eq!(MapAttribute::convert_to_plain_enum(2), MapAttribute::Warp(0, 0, 0, 0, 0));
    assert_eq!(MapAttribute::convert_to_plain_enum(3), MapAttribute::Sign(String::new()));
    assert_eq!(MapAttribute::convert_to_plain_enum(7), MapAttribute::Walkable);
}

#[test]
fn editor_attribute_convert_to_enum_truncates_warp_values() {
    let data = vec![
        InsertTypes::Int(1 << 32 | 5),
        InsertTypes::Int(-1),
        InsertTypes::UInt(9),
        InsertTypes::UInt(1 << 32 | 2),
        InsertTypes::UInt(3),
    ];
    assert_eq!(MapAttribute::convert_to_enum(2, &data), MapAttribute::Warp(5, -1, 9, 2, 3));
    let sign = vec![InsertTypes::Str("note".to_string())];
    assert_eq!(MapAttribute::convert_to_enum(3, &sign), MapAttribute::Sign("note".to_string()));
    assert_eq!(MapAttribute::convert_to_enum(9, &[]), MapAttribute::Walkable);
}

#[test]
fn insert_values_read_back() {
    assert_eq!(InsertTypes::Int(-5).get_int(), -5);
    assert_eq!(InsertTypes::UInt(5).get_int(), 0);
    assert_eq!(InsertTypes::UInt(7).get_uint(), 7);
    assert_eq!(InsertTypes::Bool(true).get_uint(), 0);
    assert_eq!(InsertTypes::Str("x".to_string()).get_string(), "x");
    assert_eq!(InsertTypes::Int(1).get_string(), "");
}

#[test]
fn same_as_compares_kind_and_data() {
    let a = MapAttribute::Sign("a".to_string());
    assert!(a.same_as(&a.duplicate()));
    assert!(!a.same_as(&MapAttribute::Sign("b".to_string())));
    assert!(MapAttribute::Warp(1, 2, 3, 4, 5).same_as(&MapAttribute::Warp(1, 2, 3, 4, 5)));
    assert!(!MapAttribute::Warp(1, 2, 3, 4, 5).same_as(&MapAttribute::Warp(1, 2, 3, 4, 6)));
    assert!(!MapAttribute::Blocked.same_as(&MapAttribute::Walkable));
}

#[test]
fn server_attributes() {
    assert_eq!(server::MAX_ATTRIBUTE, 5);
    assert_eq!(server::MapAttribute::as_str(4), "Item");
    assert_eq!(server::MapAttribute::as_map_str(&server::MapAttribute::ItemSpawn(Default::default())), "I");
    let warp = server::MapAttribute::convert_to_enum(2, &[
        server::InsertTypes::Int(1),
        server::InsertTypes::Int(2),
        server::InsertTypes::UInt(3),
        server::InsertTypes::UInt(4),
        server::InsertTypes::UInt(5),
    ]);
    assert_eq!(warp, server::MapAttribute::Warp(server::WarpData { map_x: 1, map_y: 2, map_group: 3, tile_x: 4, tile_y: 5 }));
    // An item spawn takes its timer from the second value, as the server does.
    let item = server::MapAttribute::convert_to_enum(4, &[
        server::InsertTypes::UInt(7),
        server::InsertTypes::UInt(70000),
        server::InsertTypes::UInt(99),
    ]);
    assert_eq!(item, server::MapAttribute::ItemSpawn(server::ItemSpawnData { index: 7, amount: 4464, timer: 70000 }));
    assert_eq!(server::MapAttribute::convert_to_num(&item), 4);
    assert_eq!(server::MapAttribute::convert_to_plain_enum(4), server::MapAttribute::ItemSpawn(Default::default()));
}
