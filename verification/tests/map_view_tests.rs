use mapeditor::color::Color;
use mapeditor::editor_attributes::MapAttribute;
use mapeditor::map_view::tools::{ToolOutcome, TAB_ATTRIBUTE, TAB_LAYER, TAB_ZONE, TOOL_DRAW, TOOL_ERASE, TOOL_EYEDROP, TOOL_FILL};
use mapeditor::map_view::{get_zone_color, MapView};
use mapeditor::tile_map::{TileData, TileMap};

fn tile(id: u32) -> TileData {
    TileData { texture_id: id, texture_layer: 0, color: Color::rgba(255, 255, 255, 255) }
}

fn id_at(view: &MapView, x: u32, y: u32, z: u32) -> u32 {
    view.maps[0].get_tile((x, y, z)).texture_id
}

fn tileset_with(ids: &[((u32, u32), u32)]) -> TileMap {
    let mut t = TileMap::new(20);
    for &(pos, id) in ids {
        t.set_tile((pos.0, pos.1, 0), tile(id));
    }
    t
}

/// A wall of texture 7 down column 5 of layer 0.
fn walled_view() -> MapView {
    let mut view = MapView::new(20);
    for y in 0..32 {
        view.maps[0].set_tile((5, y, 0), tile(7));
    }
    view
}

#[test]
fn new_view_is_empty() {
    let view = MapView::new(20);
    assert_eq!(view.maps.len(), 9);
    assert!(view.maps.iter().all(|m| m.can_render && m.tilesize == 20));
    assert_eq!(id_at(&view, 3, 3, 3), 0);
    assert_eq!(view.map_attributes.len(), 1024);
    assert!(view.map_attributes.iter().all(|a| a.attribute == MapAttribute::Walkable && a.label.is_empty()));
    assert_eq!(view.map_zone.len(), 1024);
    assert_eq!(view.map_zone_loc.len(), 5);
    assert_eq!(view.map_zone_setting.len(), 5);
    assert_eq!(view.fixed_weather, 0);
}

#[test]
fn fill_stops_at_other_textures() {
    let mut view = walled_view();
    let tileset = tileset_with(&[((0, 0), 3)]);
    view.set_tile_fill((0, 0), 0, &tileset, (0, 0));
    for y in 0..32 {
        for x in 0..32 {
            let expected = if x < 5 { 3 } else if x == 5 { 7 } else { 0 };
            assert_eq!(id_at(&view, x, y, 0), expected, "at {} {}", x, y);
        }
    }
    // Other layers and the other maps are untouched.
    assert_eq!(id_at(&view, 0, 0, 1), 0);
    assert_eq!(view.maps[1].get_tile((0, 0, 0)).texture_id, 0);
}

#[test]
fn fill_with_same_or_empty_tile_changes_nothing() {
    let mut view = walled_view();
    let same = tileset_with(&[((0, 0), 7)]);
    view.set_tile_fill((5, 0), 0, &same, (0, 0));
    assert_eq!(id_at(&view, 5, 10, 0), 7);
    assert_eq!(id_at(&view, 4, 10, 0), 0);
    let empty = TileMap::new(20);
    view.set_tile_fill((0, 0), 0, &empty, (0, 0));
    assert_eq!(id_at(&view, 0, 0, 0), 0);
}

#[test]
fn fill_does_not_cross_a_diagonal() {
    let mut view = MapView::new(20);
    // A diagonal line of texture 9 does not block a fill.
    for i in 0..32 {
        view.maps[0].set_tile((i, i, 2), tile(9));
    }
    let tileset = tileset_with(&[((1, 0), 4)]);
    view.set_tile_fill((31, 0), 2, &tileset, (1, 0));
    // Tiles touch only by their sides: the diagonal splits the layer in
    // two, and the fill stays on its side.
    assert_eq!(id_at(&view, 31, 0, 2), 4);
    assert_eq!(id_at(&view, 20, 3, 2), 4);
    assert_eq!(id_at(&view, 0, 31, 2), 0);
    assert_eq!(id_at(&view, 3, 20, 2), 0);
    assert_eq!(id_at(&view, 10, 10, 2), 9);
}

#[test]
fn undo_restores_and_redo_reapplies_a_fill() {
    let mut view = walled_view();
    let before: Vec<u32> = (0..1024).map(|i| id_at(&view, i % 32, i / 32, 0)).collect();
    let tileset = tileset_with(&[((0, 0), 3)]);
    view.record.set_undo_record();
    view.set_tile_fill((0, 0), 0, &tileset, (0, 0));
    view.record.stop_record();
    let filled: Vec<u32> = (0..1024).map(|i| id_at(&view, i % 32, i / 32, 0)).collect();
    assert_ne!(before, filled);

    view.apply_change(true);
    let undone: Vec<u32> = (0..1024).map(|i| id_at(&view, i % 32, i / 32, 0)).collect();
    assert_eq!(undone, before);

    view.apply_change(false);
    let redone: Vec<u32> = (0..1024).map(|i| id_at(&view, i % 32, i / 32, 0)).collect();
    assert_eq!(redone, filled);

    // Both stacks are used up in turn: nothing more to redo.
    view.apply_change(false);
    let again: Vec<u32> = (0..1024).map(|i| id_at(&view, i % 32, i / 32, 0)).collect();
    assert_eq!(again, filled);
}

#[test]
fn undo_with_empty_stack_does_nothing() {
    let mut view = walled_view();
    view.apply_change(true);
    assert_eq!(id_at(&view, 5, 0, 0), 7);
    assert_eq!(id_at(&view, 0, 0, 0), 0);
}

#[test]
fn undo_of_a_session_keeps_the_first_recorded_id() {
    let mut view = MapView::new(20);
    let a = tileset_with(&[((0, 0), 1)]);
    let b = tileset_with(&[((0, 0), 2)]);
    view.record.set_undo_record();
    view.set_tile_group((3, 3), 1, &a, (0, 0), (1, 1));
    view.set_tile_group((3, 3), 1, &b, (0, 0), (1, 1));
    view.record.stop_record();
    assert_eq!(id_at(&view, 3, 3, 1), 2);
    view.apply_change(true);
    assert_eq!(id_at(&view, 3, 3, 1), 0);
}

#[test]
fn changes_outside_a_record_are_not_undone() {
    let mut view = MapView::new(20);
    let a = tileset_with(&[((0, 0), 1)]);
    view.set_tile_group((3, 3), 1, &a, (0, 0), (1, 1));
    view.apply_change(true);
    assert_eq!(id_at(&view, 3, 3, 1), 1);
}

#[test]
fn tile_group_copies_textured_tiles_inside_the_map() {
    let mut view = MapView::new(20);
    // A 2 by 2 selection at (4, 6) of the tileset, one of its tiles empty.
    let tileset = tileset_with(&[((4, 6), 11), ((5, 6), 12), ((4, 7), 13)]);
    view.maps[0].set_tile((31, 31, 3), tile(50));
    view.set_tile_group((30, 30), 3, &tileset, (4, 6), (2, 2));
    assert_eq!(id_at(&view, 30, 30, 3), 11);
    assert_eq!(id_at(&view, 31, 30, 3), 12);
    assert_eq!(id_at(&view, 30, 31, 3), 13);
    assert_eq!(id_at(&view, 31, 31, 3), 50);
    // Placed near the edge, only the part on the map is copied.
    view.set_tile_group((31, 0), 3, &tileset, (4, 6), (2, 2));
    assert_eq!(id_at(&view, 31, 0, 3), 11);
    assert_eq!(id_at(&view, 31, 1, 3), 13);
    assert_eq!(id_at(&view, 0, 1, 3), 0);
}

#[test]
fn delete_group_erases_textured_tiles() {
    let mut view = walled_view();
    view.maps[0].set_tile((6, 0, 0), TileData { texture_id: 0, texture_layer: 0, color: Color::rgba(1, 2, 3, 4) });
    view.delete_tile_group((4, 0), 0, (3, 2));
    assert_eq!(id_at(&view, 5, 0, 0), 0);
    assert_eq!(id_at(&view, 5, 1, 0), 0);
    assert_eq!(id_at(&view, 5, 2, 0), 7);
    assert_eq!(view.maps[0].get_tile((5, 0, 0)), TileData::default());
    // A tile without a texture stays as it was.
    assert_eq!(view.maps[0].get_tile((6, 0, 0)).color, Color::rgba(1, 2, 3, 4));
}

#[test]
fn clear_map_resets_every_tile() {
    let mut view = walled_view();
    view.maps[2].set_tile((1, 1, 7), tile(3));
    view.clear_map(0);
    assert!(view.maps[0].tiles.iter().all(|t| *t == TileData::default()));
    assert_eq!(view.maps[2].get_tile((1, 1, 7)).texture_id, 3);
    view.clear_map(2);
    assert_eq!(view.maps[2].get_tile((1, 1, 7)), TileData::default());
}

#[test]
fn get_tile_data_reads_the_bottom_layer() {
    let mut view = MapView::new(20);
    view.maps[0].set_tile((2, 3, 0), tile(8));
    view.maps[0].set_tile((2, 3, 1), tile(9));
    assert_eq!(view.get_tile_data((2, 3)).texture_id, 8);
}

#[test]
fn attributes_set_get_and_fill() {
    let mut view = MapView::new(20);
    for y in 0..32 {
        view.set_attribute((10, y), MapAttribute::Blocked);
    }
    assert_eq!(view.get_attribute((10, 4)), MapAttribute::Blocked);
    assert_eq!(view.map_attributes[10 + 4 * 32].label, "B");
    assert_eq!(view.map_attributes[10 + 4 * 32].color, Color::rgba(200, 10, 10, 100));
    view.set_attribute_fill((0, 0), MapAttribute::Sign("hi".to_string()));
    for y in 0..32 {
        for x in 0..32 {
            let expected = if x < 10 {
                MapAttribute::Sign("hi".to_string())
            } else if x == 10 {
                MapAttribute::Blocked
            } else {
                MapAttribute::Walkable
            };
            assert_eq!(view.get_attribute((x, y)), expected);
        }
    }
    assert_eq!(view.map_attributes[0].label, "S");
    // Filling with what is already there changes nothing.
    view.set_attribute_fill((20, 20), MapAttribute::Walkable);
    assert_eq!(view.get_attribute((20, 20)), MapAttribute::Walkable);
}

#[test]
fn zones_add_delete_and_show() {
    let mut view = MapView::new(20);
    view.add_map_zone(2, (3, 4));
    view.add_map_zone(2, (3, 4));
    view.add_map_zone(2, (5, 4));
    assert_eq!(view.map_zone_loc[2].pos, vec![(3, 4), (5, 4)]);
    assert_eq!(view.map_zone[3 + 4 * 32], get_zone_color(2));
    view.delete_map_zone(2, (3, 4));
    assert_eq!(view.map_zone_loc[2].pos, vec![(5, 4)]);
    assert_eq!(view.map_zone[3 + 4 * 32], Color::rgba(0, 0, 0, 0));
    view.add_map_zone(1, (0, 0));
    view.update_map_zone(2);
    for i in 0..1024 {
        let expected = if i == 5 + 4 * 32 { get_zone_color(2) } else { Color::rgba(0, 0, 0, 0) };
        assert_eq!(view.map_zone[i], expected);
    }
}

#[test]
fn zone_colors() {
    assert_eq!(get_zone_color(0), Color::rgba(40, 40, 200, 140));
    assert_eq!(get_zone_color(1), Color::rgba(200, 40, 40, 140));
    assert_eq!(get_zone_color(2), Color::rgba(40, 200, 40, 140));
    assert_eq!(get_zone_color(3), Color::rgba(150, 40, 150, 140));
    assert_eq!(get_zone_color(4), Color::rgba(40, 150, 150, 140));
    assert_eq!(get_zone_color(9), Color::rgba(40, 40, 200, 140));
}

#[test]
fn zone_fill_adds_the_enclosed_region() {
    let mut view = MapView::new(20);
    // A box of zone tiles around (1..=3, 1..=3).
    for i in 0..5 {
        view.add_map_zone(0, (i, 0));
        view.add_map_zone(0, (i, 4));
        view.add_map_zone(0, (0, i));
        view.add_map_zone(0, (4, i));
    }
    let before = view.map_zone_loc[0].pos.len();
    view.set_zone_fill((2, 2), 0);
    let zone = &view.map_zone_loc[0].pos;
    assert_eq!(zone.len(), before + 9);
    for x in 1..4 {
        for y in 1..4 {
            assert!(zone.contains(&(x, y)));
            assert_eq!(view.map_zone[(x + y * 32) as usize], get_zone_color(0));
        }
    }
    assert!(!zone.contains(&(10, 10)));
    // Filling from a tile already in the zone changes nothing.
    view.set_zone_fill((0, 0), 0);
    assert_eq!(view.map_zone_loc[0].pos.len(), before + 9);
}

#[test]
fn tools_on_each_tab() {
    let mut view = MapView::new(20);
    let tileset = tileset_with(&[((0, 0), 6)]);
    view.record.set_undo_record();
    let out = view.use_tool(TAB_LAYER, TOOL_DRAW, (1, 1), 2, MapAttribute::Walkable, &tileset, (0, 0), (1, 1));
    view.record.stop_record();
    assert!(matches!(out, ToolOutcome::MapChanged));
    assert_eq!(id_at(&view, 1, 1, 2), 6);
    view.apply_change(true);
    assert_eq!(id_at(&view, 1, 1, 2), 0);
    // A new change empties the redo stack.
    let out = view.use_tool(TAB_LAYER, TOOL_FILL, (0, 0), 4, MapAttribute::Walkable, &tileset, (0, 0), (1, 1));
    assert!(matches!(out, ToolOutcome::MapChanged));
    view.apply_change(false);
    assert_eq!(id_at(&view, 1, 1, 2), 0);
    assert_eq!(id_at(&view, 9, 9, 4), 6);

    let out = view.use_tool(TAB_LAYER, TOOL_EYEDROP, (9, 9), 4, MapAttribute::Walkable, &tileset, (0, 0), (1, 1));
    assert!(matches!(out, ToolOutcome::PickTile(0)));
    view.maps[0].set_tile((9, 9, 0), tile(42));
    let out = view.use_tool(TAB_LAYER, TOOL_EYEDROP, (9, 9), 4, MapAttribute::Walkable, &tileset, (0, 0), (1, 1));
    assert!(matches!(out, ToolOutcome::PickTile(42)));
    let out = view.use_tool(TAB_LAYER, TOOL_ERASE, (9, 9), 4, MapAttribute::Walkable, &tileset, (0, 0), (1, 1));
    assert!(matches!(out, ToolOutcome::MapChanged));
    assert_eq!(id_at(&view, 9, 9, 4), 0);

    let out = view.use_tool(TAB_ATTRIBUTE, TOOL_DRAW, (2, 2), 0, MapAttribute::Blocked, &tileset, (0, 0), (1, 1));
    assert!(matches!(out, ToolOutcome::MapChanged));
    let out = view.use_tool(TAB_ATTRIBUTE, TOOL_EYEDROP, (2, 2), 0, MapAttribute::Walkable, &tileset, (0, 0), (1, 1));
    assert!(matches!(out, ToolOutcome::PickAttribute(MapAttribute::Blocked)));
    let out = view.use_tool(TAB_ATTRIBUTE, TOOL_ERASE, (2, 2), 0, MapAttribute::Blocked, &tileset, (0, 0), (1, 1));
    assert!(matches!(out, ToolOutcome::MapChanged));
    let out = view.use_tool(TAB_ATTRIBUTE, TOOL_EYEDROP, (2, 2), 0, MapAttribute::Walkable, &tileset, (0, 0), (1, 1));
    assert!(matches!(out, ToolOutcome::Nothing));

    let out = view.use_tool(TAB_ZONE, TOOL_DRAW, (7, 7), 3, MapAttribute::Walkable, &tileset, (0, 0), (1, 1));
    assert!(matches!(out, ToolOutcome::MapChanged));
    assert_eq!(view.map_zone_loc[3].pos, vec![(7, 7)]);
    let out = view.use_tool(TAB_ZONE, TOOL_ERASE, (7, 7), 3, MapAttribute::Walkable, &tileset, (0, 0), (1, 1));
    assert!(matches!(out, ToolOutcome::MapChanged));
    assert!(view.map_zone_loc[3].pos.is_empty());
    let out = view.use_tool(TAB_ZONE, TOOL_EYEDROP, (7, 7), 3, MapAttribute::Walkable, &tileset, (0, 0), (1, 1));
    assert!(matches!(out, ToolOutcome::Nothing));
}
