use mapeditor::color::Color;
use mapeditor::tile_map::{MapLayers, TileData, TileMap};

fn tile(id: u32, alpha: u8) -> TileData {
    TileData { texture_id: id, texture_layer: 0, color: Color::rgba(255, 255, 255, alpha) }
}

#[test]
fn new_map_holds_default_tiles() {
    let m = TileMap::new(16);
    assert_eq!(m.tiles.len(), 8192);
    assert_eq!(m.filled_tiles, vec![0; 8]);
    assert_eq!(m.tilesize, 16);
    assert!(!m.can_render);
    assert_eq!(m.get_tile((31, 31, 7)), TileData::default());
    assert_eq!(TileData::default(), tile(0, 255));
}

#[test]
fn set_tile_writes_and_counts() {
    let mut m = TileMap::new(16);
    m.set_tile((1, 2, 3), tile(5, 255));
    assert_eq!(m.get_tile((1, 2, 3)), tile(5, 255));
    assert_eq!(m.tiles[1 + 2 * 32 + 3 * 1024].texture_id, 5);
    // Writing a tile that shows something counts one more.
    assert_eq!(m.filled_tiles[3], 1);
    // Replacing a textured tile by one without a texture counts one less.
    m.set_tile((1, 2, 3), tile(0, 0));
    assert_eq!(m.filled_tiles[3], 0);
    // Never below zero.
    m.set_tile((1, 2, 3), tile(0, 0));
    assert_eq!(m.filled_tiles[3], 0);
    assert!(m.changed);
}

#[test]
fn zero_count_means_no_texture() {
    let mut m = TileMap::new(16);
    m.set_tile((0, 0, 1), tile(5, 255));
    assert_eq!(m.filled_tiles[1], 1);
    // Writing a default tile over a default tile no longer lowers the
    // count: the textured tile is still counted.
    m.set_tile((4, 4, 1), TileData::default());
    assert!(m.filled_tiles[1] >= 1);
    // Nor does a textured, invisible tile written over a full one.
    m.set_tile((0, 0, 1), tile(5, 0));
    assert!(m.filled_tiles[1] >= 1);
    m.set_tile((0, 0, 1), tile(0, 255));
    assert_eq!(m.tiles[1024].texture_id, 0);
}

#[test]
fn set_tile_outside_the_map_does_nothing() {
    let mut m = TileMap::new(16);
    m.changed = false;
    m.set_tile((32, 0, 0), tile(5, 255));
    m.set_tile((0, 32, 0), tile(5, 255));
    m.set_tile((0, 0, 8), tile(5, 255));
    assert!(!m.changed);
    assert!(m.tiles.iter().all(|t| *t == TileData::default()));
}

#[test]
fn layer_depths() {
    assert_eq!(MapLayers::layer_depth(MapLayers::Ground), MapLayers::indexed_layer_depth(0));
    assert_eq!(MapLayers::indexed_layer_depth(0), 10);
    assert_eq!(MapLayers::indexed_layer_depth(5), 5);
    assert_eq!(MapLayers::indexed_layer_depth(6), 3);
    assert_eq!(MapLayers::indexed_layer_depth(7), 2);
    assert_eq!(MapLayers::indexed_layer_depth(100), 2);
    assert_eq!(MapLayers::layer_depth(MapLayers::Fringe), 3);
    assert_eq!(MapLayers::layer_depth(MapLayers::Count), 2);
}
