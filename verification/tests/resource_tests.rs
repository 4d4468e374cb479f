use mapeditor::resource::{add_tile_locations, eyedrop_location, tile_locations, TilesheetData, MAX_TILESHEET, MAX_TILE_Y};
use indexmap::IndexMap;
use mapeditor::texture::{Tile, TileSheet};

#[test]
fn tile_locations_for_the_eyedropper() {
    assert_eq!(MAX_TILESHEET, 4);
    assert_eq!(MAX_TILE_Y, 20);
    let mut locations = IndexMap::new();
    let sheet0 = TileSheet {
        tiles: vec![
            Tile { x: 0, y: 0, id: 0, tex_id: 0 },
            Tile { x: 20, y: 40, id: 1, tex_id: 5 },
            Tile { x: 60, y: 380, id: 2, tex_id: 6 },
        ],
    };
    let sheet1 = TileSheet { tiles: vec![Tile { x: 0, y: 20, id: 0, tex_id: 5 }] };
    add_tile_locations(&mut locations, &sheet0, 0);
    add_tile_locations(&mut locations, &sheet1, 1);
    assert_eq!(locations.len(), 2);
    assert_eq!(locations.get(&5), Some(&(0, 20, 1)));
    assert_eq!(locations.get_index(0).map(|(k, _)| *k), Some(5));
    assert_eq!(eyedrop_location(&locations, 6, 20), Some((0, 3, 0)));
    assert_eq!(eyedrop_location(&locations, 5, 20), Some((1, 0, 18)));
    assert_eq!(eyedrop_location(&locations, 7, 20), None);
}

#[test]
fn later_sheets_take_shared_ids() {
    let sheets = vec![
        TilesheetData {
            name: String::from("a.png"),
            tile: TileSheet { tiles: vec![Tile { x: 20, y: 0, id: 0, tex_id: 4 }, Tile { x: 0, y: 0, id: 1, tex_id: 0 }] },
        },
        TilesheetData {
            name: String::from("b.png"),
            tile: TileSheet { tiles: vec![Tile { x: 40, y: 60, id: 0, tex_id: 4 }, Tile { x: 0, y: 20, id: 1, tex_id: 9 }] },
        },
    ];
    let locations = tile_locations(&sheets);
    assert_eq!(locations.len(), 2);
    assert_eq!(locations.get(&4), Some(&(40, 60, 1)));
    assert_eq!(locations.get(&9), Some(&(0, 20, 1)));
    assert_eq!(locations.get_index(0).map(|(k, _)| *k), Some(4));
}
