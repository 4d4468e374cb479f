//! What a click of the current tool does to the main map, by the tab
//! that is open: tiles on the layer tab, attributes on the attribute
//! tab, npc zones on the zone tab.

use vstd::prelude::*;
use crate::editor_attributes::{MapAttribute, attribute_key};
use crate::map_view::{MapView, tile_number, zone_color};
use crate::map_view::attribute_edit::attribute_grid;
use crate::map_view::tiles::{cell, placed_group, erased_group, filled_layer};
use crate::map_view::zone_edit::{zone_grid, remove_all, grid_pos, no_zone_color};
use crate::map_view::undo::undo_recorded;
use crate::region::{pt, at, filled, in_grid, connected};
use crate::tile_map::{TileMap, tile_index};

verus! {

/// The drawing tool.
pub const TOOL_DRAW: usize = 4;
/// The eraser.
pub const TOOL_ERASE: usize = 5;
/// The fill tool.
pub const TOOL_FILL: usize = 6;
/// The eyedropper.
pub const TOOL_EYEDROP: usize = 7;
/// The tab of tile layers.
pub const TAB_LAYER: usize = 8;
/// The tab of attributes.
pub const TAB_ATTRIBUTE: usize = 9;
/// The tab of npc zones.
pub const TAB_ZONE: usize = 10;
/// The tab of map properties.
pub const TAB_PROPERTIES: usize = 11;

/// What the interface has to do after a tool was used on the map.
pub enum ToolOutcome {
    /// Nothing changed.
    Nothing,
    /// The map changed: mark it changed and show it in its name.
    MapChanged,
    /// The eyedropper picked the texture id of a tile.
    PickTile(u32),
    /// The eyedropper picked an attribute other than walkable.
    PickAttribute(MapAttribute),
}

/// What using `tool` on tile `tile_pos` with tab `tab` open does: the map
/// view goes from `before` to `after` and the interface is told `out`
/// (see `MapView::use_tool`).
pub open spec fn tool_applied(before: MapView, after: MapView, tab: usize, tool: usize, tile_pos: (u32, u32),
    tab_data: u32, attribute: MapAttribute, tileset: TileMap, select_start: (u32, u32), select_size: (u32, u32),
    out: ToolOutcome) -> bool {
    &&& forall|i: int| 1 <= i < 9 ==> #[trigger] after.maps@[i] == before.maps@[i]
    &&& tab == TAB_LAYER ==> after == (MapView { maps: after.maps, record: after.record, ..before })
    &&& tab == TAB_ATTRIBUTE ==> after == (MapView { map_attributes: after.map_attributes, record: after.record, ..before })
    &&& tab == TAB_ZONE ==> {
        &&& after == (MapView { map_zone: after.map_zone, map_zone_loc: after.map_zone_loc, record: after.record, ..before })
        &&& forall|z: int| 0 <= z < 5 && z != tab_data ==> #[trigger] after.map_zone_loc@[z] == before.map_zone_loc@[z]
    }
    &&& out is MapChanged ==> after.record.redo_stack().len() == 0
    &&& !(out is MapChanged) ==> after.record == before.record
    &&& tab == TAB_LAYER && (tool == TOOL_DRAW || tool == TOOL_ERASE || tool == TOOL_FILL)
        ==> undo_recorded(before.record, after.record, before.maps@[0].tiles@, after.maps@[0].tiles@)
    &&& tab == TAB_ATTRIBUTE || tab == TAB_ZONE ==> {
        &&& after.record.undo_stack() == before.record.undo_stack()
        &&& after.record.is_recording() == before.record.is_recording()
        &&& after.record.target() == before.record.target()
    }
    &&& tab == TAB_LAYER && tool == TOOL_DRAW ==> out is MapChanged && placed_group(before.maps@[0].tiles@,
        after.maps@[0].tiles@, tab_data as int, tileset.tiles@, tile_pos, select_start, select_size)
    &&& tab == TAB_LAYER && tool == TOOL_ERASE ==> out is MapChanged && erased_group(before.maps@[0].tiles@,
        after.maps@[0].tiles@, tab_data as int, tile_pos, select_size)
    &&& tab == TAB_LAYER && tool == TOOL_FILL ==> out is MapChanged && ({
        let n = tileset.tiles@[tile_index(select_start.0 as int, select_start.1 as int, 0)];
        let tiles0 = before.maps@[0].tiles@;
        if n.texture_id == 0 || cell(tiles0, tab_data as int, pt(tile_pos)).texture_id == n.texture_id {
            after.maps@[0] == before.maps@[0]
        } else {
            filled_layer(tiles0, after.maps@[0].tiles@, tab_data as int, pt(tile_pos), n)
        }
    })
    &&& tab == TAB_LAYER && tool == TOOL_EYEDROP ==> after == before
        && out == ToolOutcome::PickTile(before.maps@[0].tiles@[tile_index(tile_pos.0 as int, tile_pos.1 as int, 0)].texture_id)
    &&& tab == TAB_ATTRIBUTE && (tool == TOOL_DRAW || tool == TOOL_ERASE) ==> out is MapChanged
        && after.map_attributes@[tile_number(tile_pos)].attribute
            == (if tool == TOOL_DRAW { attribute } else { MapAttribute::Walkable })
        && forall|i: int| 0 <= i < 1024 && i != tile_number(tile_pos)
            ==> #[trigger] after.map_attributes@[i] == before.map_attributes@[i]
    &&& tab == TAB_ATTRIBUTE && tool == TOOL_FILL ==> out is MapChanged && ({
        let grid0 = attribute_grid(before.map_attributes@);
        if at(grid0, pt(tile_pos)) == attribute_key(attribute) {
            after.map_attributes == before.map_attributes
        } else {
            filled(grid0, attribute_grid(after.map_attributes@), pt(tile_pos), attribute_key(attribute))
        }
    })
    &&& tab == TAB_ATTRIBUTE && tool == TOOL_EYEDROP ==> after == before && ({
        let a = before.map_attributes@[tile_number(tile_pos)].attribute;
        if a is Walkable { out is Nothing } else { out == ToolOutcome::PickAttribute(a) }
    })
    &&& tab == TAB_ZONE && tool == TOOL_DRAW ==> out is MapChanged
        && after.map_zone@ == before.map_zone@.update(tile_number(tile_pos), zone_color(tab_data as usize))
        && after.map_zone_loc@[tab_data as int].pos@ == (
            if before.map_zone_loc@[tab_data as int].pos@.contains(tile_pos) {
                before.map_zone_loc@[tab_data as int].pos@
            } else {
                before.map_zone_loc@[tab_data as int].pos@.push(tile_pos)
            })
    &&& tab == TAB_ZONE && tool == TOOL_ERASE ==> out is MapChanged
        && after.map_zone@ == before.map_zone@.update(tile_number(tile_pos), no_zone_color())
        && after.map_zone_loc@[tab_data as int].pos@ == remove_all(before.map_zone_loc@[tab_data as int].pos@, tile_pos)
    &&& tab == TAB_ZONE && tool == TOOL_FILL ==> out is MapChanged && ({
        let list0 = before.map_zone_loc@[tab_data as int].pos@;
        let list1 = after.map_zone_loc@[tab_data as int].pos@;
        let g0 = zone_grid(list0);
        if list0.contains(tile_pos) {
            after.map_zone == before.map_zone && list1 == list0
        } else {
            &&& filled(g0, zone_grid(list1), pt(tile_pos), true)
            &&& forall|q: (u32, u32)| !in_grid(pt(q)) ==> (#[trigger] list1.contains(q) == list0.contains(q))
            &&& after.map_zone@.len() == 1024
            &&& forall|i: int| 0 <= i < 1024 ==> #[trigger] after.map_zone@[i] == (
                if connected(g0, false, pt(tile_pos), pt(grid_pos(i))) { zone_color(tab_data as usize) }
                else { before.map_zone@[i] })
        }
    })
    &&& !(tab == TAB_LAYER || tab == TAB_ATTRIBUTE || tab == TAB_ZONE)
        || !(tool == TOOL_DRAW || tool == TOOL_ERASE || tool == TOOL_FILL || tool == TOOL_EYEDROP)
        || (tab == TAB_ZONE && tool == TOOL_EYEDROP) ==> out is Nothing && after == before
}

impl MapView {
    /// Uses `tool` on tile `tile_pos` of the main map with tab `tab` open.
    /// On the layer tab `tab_data` is the layer: drawing places the
    /// tileset selection, erasing erases a rectangle of the selection's
    /// size, filling fills with the tileset tile at the selection's start,
    /// and the eyedropper picks the texture id of the bottom layer. On the
    /// attribute tab drawing puts `attribute`, erasing puts walkable,
    /// filling fills with `attribute` and the eyedropper picks an
    /// attribute other than walkable. On the zone tab `tab_data` is the
    /// zone: drawing adds the tile, erasing removes it, filling fills.
    /// Every change empties the redo stack.
    pub fn use_tool(
        &mut self,
        tab: usize,
        tool: usize,
        tile_pos: (u32, u32),
        tab_data: u32,
        attribute: MapAttribute,
        tileset: &TileMap,
        select_start: (u32, u32),
        select_size: (u32, u32),
    ) -> (out: ToolOutcome)
        requires
            old(self).wf(),
            old(self).record_ok(),
            tileset.wf(),
            tile_pos.0 < 32,
            tile_pos.1 < 32,
            tab == TAB_LAYER ==> tab_data < 8,
            tab == TAB_ZONE ==> tab_data < 5,
            tab == TAB_LAYER && tool == TOOL_DRAW && select_size.0 > 0 && select_size.1 > 0
                ==> tile_index(select_start.0 + select_size.0 - 1, select_start.1 + select_size.1 - 1, 0) < 8192,
            tab == TAB_LAYER && (tool == TOOL_DRAW || tool == TOOL_ERASE)
                ==> select_size.0 <= u32::MAX - 32 && select_size.1 <= u32::MAX - 32,
            tab == TAB_LAYER && tool == TOOL_FILL ==> tile_index(select_start.0 as int, select_start.1 as int, 0) < 8192,
        ensures
            final(self).wf(),
            final(self).record_ok(),
            tool_applied(*old(self), *final(self), tab, tool, tile_pos, tab_data, attribute, *tileset, select_start,
                select_size, out),
    {
        if tab == TAB_LAYER {
            if tool == TOOL_DRAW {
                self.set_tile_group(tile_pos, tab_data, tileset, select_start, select_size);
                self.record.clear_redo();
                ToolOutcome::MapChanged
            } else if tool == TOOL_ERASE {
                self.delete_tile_group(tile_pos, tab_data, select_size);
                self.record.clear_redo();
                ToolOutcome::MapChanged
            } else if tool == TOOL_FILL {
                self.set_tile_fill(tile_pos, tab_data, tileset, select_start);
                self.record.clear_redo();
                ToolOutcome::MapChanged
            } else if tool == TOOL_EYEDROP {
                let tiledata = self.get_tile_data(tile_pos);
                ToolOutcome::PickTile(tiledata.texture_id)
            } else {
                ToolOutcome::Nothing
            }
        } else if tab == TAB_ATTRIBUTE {
            if tool == TOOL_DRAW {
                self.set_attribute(tile_pos, attribute);
                self.record.clear_redo();
                ToolOutcome::MapChanged
            } else if tool == TOOL_ERASE {
                self.set_attribute(tile_pos, MapAttribute::Walkable);
                self.record.clear_redo();
                ToolOutcome::MapChanged
            } else if tool == TOOL_EYEDROP {
                let found = self.get_attribute(tile_pos);
                if matches!(found, MapAttribute::Walkable) {
                    ToolOutcome::Nothing
                } else {
                    ToolOutcome::PickAttribute(found)
                }
            } else if tool == TOOL_FILL {
                self.set_attribute_fill(tile_pos, attribute);
                self.record.clear_redo();
                ToolOutcome::MapChanged
            } else {
                ToolOutcome::Nothing
            }
        } else if tab == TAB_ZONE {
            if tool == TOOL_DRAW {
                self.add_map_zone(tab_data as usize, tile_pos);
                self.record.clear_redo();
                ToolOutcome::MapChanged
            } else if tool == TOOL_ERASE {
                self.delete_map_zone(tab_data as usize, tile_pos);
                self.record.clear_redo();
                ToolOutcome::MapChanged
            } else if tool == TOOL_FILL {
                self.set_zone_fill(tile_pos, tab_data as usize);
                self.record.clear_redo();
                ToolOutcome::MapChanged
            } else {
                ToolOutcome::Nothing
            }
        } else {
            ToolOutcome::Nothing
        }
    }
}

} // verus!
