use mapeditor::texture::{DrawOrder, Texture, TextureError, Tile, TileSheet};

fn png(width: u32, height: u32, pixel: [u8; 4]) -> Vec<u8> {
    let img = image::RgbaImage::from_pixel(width, height, image::Rgba(pixel));
    let mut bytes = Vec::new();
    img.write_to(&mut std::io::Cursor::new(&mut bytes), image::ImageFormat::Png).unwrap();
    bytes
}

#[test]
fn texture_from_png_bytes() {
    let data = png(3, 2, [1, 2, 3, 4]);
    let t = Texture::from_memory("sheet.png".to_string(), &data).unwrap();
    assert_eq!(t.name(), "sheet.png");
    assert_eq!(t.size(), (3, 2));
    assert_eq!(t.bytes().len(), 24);
    assert_eq!(&t.bytes()[0..4], &[1, 2, 3, 4]);
    assert_ne!(t.bytes(), &data[..]);
}

#[test]
fn texture_from_bad_bytes_fails() {
    let r = Texture::from_memory("x".to_string(), &[1, 2, 3, 4, 5]);
    assert!(matches!(r, Err(TextureError::Decode(_))));
}

#[test]
fn texture_from_parts() {
    let t = Texture::from_parts("a".to_string(), vec![9; 8], (2, 1));
    assert_eq!(t.name(), "a");
    assert_eq!(t.size(), (2, 1));
    assert_eq!(t.bytes(), &[9; 8]);
}

#[test]
fn tile_positions_in_sheets_and_atlas() {
    assert_eq!(TileSheet::tile_position(0, 8, 20), (0, 0));
    assert_eq!(TileSheet::tile_position(9, 8, 20), (20, 20));
    assert_eq!(TileSheet::tile_position(15, 8, 20), (140, 20));
    assert_eq!(TileSheet::atlas_tile_id(40, 60, 20, 100), 302);
    assert_eq!(TileSheet::atlas_tile_id(19, 19, 20, 100), 0);
}

#[test]
fn draw_order_sorts_by_layer_then_alpha_then_position() {
    let base = DrawOrder::default();
    assert_eq!(base, DrawOrder { layer: 0, alpha: false, x: 0, y: 0, z: 0 });
    let upper = DrawOrder { layer: 1, ..base };
    let clear = DrawOrder { alpha: true, ..base };
    let right = DrawOrder { x: 5, ..base };
    let high = DrawOrder { y: 5, ..base };
    let deep = DrawOrder { z: 5, ..base };
    assert!(base.draws_before(&upper) && !upper.draws_before(&base));
    assert!(base.draws_before(&clear) && !clear.draws_before(&base));
    assert!(base.draws_before(&right));
    assert!(high.draws_before(&base));
    assert!(deep.draws_before(&base));
    assert!(!base.draws_before(&base));
    assert!(clear.draws_before(&upper));
}

#[test]
fn sheet_cut_into_tiles() {
    // A sheet of two tiles of side 2: the left one fully transparent,
    // the right one with one opaque pixel.
    let mut bytes = vec![0u8; 4 * 2 * 4];
    bytes[(1 * 4 + 3) * 4 + 3] = 255;
    let texture = Texture::from_parts(String::from("sheet"), bytes, (4, 2));
    assert!(texture.is_blank_square(0, 0, 2));
    assert!(!texture.is_blank_square(2, 0, 2));
    let uploads = vec![(7usize, (0u32, 0u32)), (8usize, (20u32, 40u32))];
    let sheet = TileSheet::new(&texture, 2, &uploads, 1, 40);
    assert_eq!(sheet.tiles.len(), 2);
    assert_eq!(sheet.tiles[0], Tile { x: 0, y: 0, id: 0, tex_id: 1 });
    assert_eq!(sheet.tiles[1], Tile { x: 2, y: 0, id: 410, tex_id: 8 });
}

#[test]
fn short_bytes_read_as_blank() {
    let texture = Texture::from_parts(String::from("short"), vec![255u8; 8], (4, 2));
    assert!(texture.is_blank_square(2, 0, 2));
}

#[test]
fn sheet_upload_appends_tiles() {
    let texture = Texture::from_parts(String::from("one"), vec![255u8; 2 * 2 * 4], (2, 2));
    let mut sheet = TileSheet { tiles: vec![Tile { x: 0, y: 0, id: 3, tex_id: 4 }] };
    sheet.upload(&texture, 2, &vec![(9usize, (4u32, 0u32))], 1, 20);
    assert_eq!(sheet.tiles.len(), 2);
    assert_eq!(sheet.tiles[0], Tile { x: 0, y: 0, id: 3, tex_id: 4 });
    assert_eq!(sheet.tiles[1], Tile { x: 0, y: 0, id: 2, tex_id: 9 });
}
