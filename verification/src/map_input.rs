//! What a click on the main map does with the tool in use and the tab
//! open: the map view changes, the map is marked changed, and the
//! eyedropper brings the picked tile's sheet or the picked attribute's
//! form up on the panel. Also the move to a linked map and the showing
//! of the map reached.

use vstd::prelude::*;
use indexmap::IndexMap;
use crate::editor_attributes::{MapAttribute, form_attribute, attribute_number, attribute_values};
use crate::editor_data::{EditorData, change_flags, key_in, key_place, inserted, unique_keys, stored_maps, swap_removed,
    stored_from, shown_from, links_shown};
use crate::map_data::{Direction, MapData, direction_step};
use crate::text::triple_key;
use crate::tile_map::empty_tiles;
use crate::interface::selection_box::SelectionBox;
use crate::input::{LABEL_MAPNAME, update_map_name, name_shown};
use crate::interface::panel::{Interface, MAX_TAB_LABEL, tab_option_chosen};
use crate::interface::tabs::{open_attribute_settings, attribute_form_opened};
use crate::interface::tileset_list::{TilesetList, list_relabelled};
use crate::map_view::{MapView, tile_number, on_map_extent, zone_color};
use crate::map_view::undo::{apply_entries, on_map, pos_index, lemma_session_undo, entries_valid};
use crate::recording::{MAX_CHANGE, ChangeData, TilePos, Records, record_opened};
use crate::map_view::zone_edit::{zone_covers, no_zone_color};
use crate::interface_input::{PressType, PointerTarget, press_target, pointer_target, press_kind, select_tiles, DragTarget,
    drag_target, drag_kind, show_tile_pos, tile_pos_shown, LABEL_TILEPOS};
use crate::map_view::tools::{ToolOutcome, tool_applied, TAB_LAYER, TAB_ATTRIBUTE, TAB_ZONE, TAB_PROPERTIES,
    TOOL_DRAW, TOOL_ERASE, TOOL_FILL, TOOL_EYEDROP};
use crate::resource::{TilesheetData, MAX_TILE_Y, location_entries, eyedrop_location, sheets_located, lemma_sheets_located_last,
    lemma_sheets_located_unique, lemma_locations_on_sheets};
use crate::tile_map::tile_index;
use crate::tileset::{Tileset, sheet_fits, sheet_shown, laid_out, panel_pos, panel_tile, lemma_laid_out_last};
use crate::tile_map::TileData;
use crate::region::in_grid;

verus! {

/// The label showing the name of the sheet on the tileset panel.
pub const LABEL_TILESET: usize = 1;

/// The texts of the open tab's form fields.
pub open spec fn form_texts(gui: Interface) -> Seq<String> {
    Seq::new(gui.editor_textbox@.len(), |i: int| gui.editor_textbox@[i].data)
}

/// The attribute that the tool puts down: the one the attribute tab's
/// form describes when drawing or filling on that tab, else walkable.
pub open spec fn tool_attribute(gui: Interface) -> MapAttribute {
    if gui.current_tab == TAB_ATTRIBUTE && (gui.current_tool == TOOL_DRAW || gui.current_tool == TOOL_FILL) {
        form_attribute(gui.current_tab_data, form_texts(gui))
    } else {
        MapAttribute::Walkable
    }
}

/// Where the eyedropper finds the tile with atlas id `id`: its sheet
/// number and its column and row on the panel, if its location is known.
pub open spec fn picked_spot(locations: Seq<(usize, (u32, u32, u32))>, id: usize, tilesize: u32) -> Option<(u32, u32, u32)> {
    if key_in(locations, id) {
        let loc = locations[key_place(locations, id)].1;
        Some((loc.2, loc.0 / tilesize, (MAX_TILE_Y - loc.1 / tilesize - 1) as u32))
    } else {
        None
    }
}

/// The spot of the tile that the eyedropper picked, if it picked one
/// whose location is known.
pub open spec fn picked_tile(out: ToolOutcome, locations: Seq<(usize, (u32, u32, u32))>, tilesize: u32) -> Option<(u32, u32, u32)> {
    match out {
        ToolOutcome::PickTile(id) => picked_spot(locations, id as usize, tilesize),
        _ => None,
    }
}

/// The names of the sheets, in order.
pub open spec fn sheet_names(sheets: Seq<TilesheetData>) -> Seq<String> {
    Seq::new(sheets.len(), |i: int| sheets[i].name)
}

/// The sheets' names, in order.
fn names_of(sheets: &Vec<TilesheetData>) -> (names: Vec<String>)
    ensures
        names@ == sheet_names(sheets@),
{
    let mut names: Vec<String> = Vec::new();
    let mut i: usize = 0;
    while i < sheets.len()
        invariant
            i <= sheets@.len(),
            names@.len() == i,
            forall|k: int| 0 <= k < i ==> #[trigger] names@[k] == sheets@[k].name,
        decreases sheets@.len() - i,
    {
        names.push(sheets[i].name.clone());
        i = i + 1;
    }
    assert(names@ =~= sheet_names(sheets@));
    names
}

/// What a use of the tool on tile `tile_pos` does (see
/// `interact_with_map`): the editor's panel, tileset panel, map view and
/// data go from `g0`, `t0`, `v0`, `e0` to `g1`, `t1`, `v1`, `e1`, and the
/// use ends in `out`.
pub open spec fn tool_used(
    g0: Interface, g1: Interface,
    t0: Tileset, t1: Tileset,
    v0: MapView, v1: MapView,
    e0: EditorData, e1: EditorData,
    tile_location: IndexMap<usize, (u32, u32, u32)>,
    tilesheets: Seq<TilesheetData>,
    tilesize: u32,
    tile_pos: (u32, u32),
    out: ToolOutcome,
) -> bool {
    &&& ({
        let tab = g0.current_tab;
        let tool = g0.current_tool;
        let picked = picked_tile(out, location_entries(tile_location), tilesize);
        let view = if picked is Some {
            MapView { preview_size: v0.preview_size, preview_extent: v0.preview_extent, ..v1 }
        } else {
            v1
        };
        &&& tool_applied(v0, view, tab, tool, tile_pos, g0.current_tab_data, tool_attribute(g0),
            t0.map, t0.select_start, t0.select_size, out)
        &&& picked is Some ==> v1.preview_size == (1u32, 1u32) && v1.preview_extent
            == (on_map_extent(v0.preview_pos.0, 1), on_map_extent(v0.preview_pos.1, 1))
    })
    &&& out is MapChanged ==> {
        let flags = change_flags(e0.did_map_change);
        let key = e0.current_index@;
        &&& change_flags(e1.did_map_change) == (if key_in(flags, key) { inserted(flags, key, true) } else { flags })
        &&& e1.maps == e0.maps
        &&& e1.x == e0.x
        &&& e1.y == e0.y
        &&& e1.group == e0.group
        &&& e1.current_index == e0.current_index
        &&& name_shown(g0, g1, e1)
        &&& t1 == t0
    }
    &&& !(out is MapChanged) ==> e1 == e0
    &&& picked_tile(out, location_entries(tile_location), tilesize) matches Some((sheet, col, row)) ==> {
        &&& g1.labels@ == g0.labels@.update(LABEL_TILESET as int, tilesheets[sheet as int].name)
        &&& g1.tileset_list.selected_tileset == sheet
        &&& list_relabelled(TilesetList { selected_tileset: sheet as usize, ..g0.tileset_list },
            g1.tileset_list, sheet_names(tilesheets))
        &&& g1 == (Interface { labels: g1.labels, tileset_list: g1.tileset_list, ..g0 })
        &&& sheet_shown(t0, Tileset { select_start: t0.select_start,
            select_size: t0.select_size, ..t1 }, tilesheets, sheet as usize, tilesize)
        &&& t1.select_start == (col, row)
        &&& t1.select_size == (1u32, 1u32)
    }
    &&& out is Nothing || (out is PickTile && picked_tile(out, location_entries(tile_location), tilesize) is None)
        ==> g1 == g0 && t1 == t0
    &&& out matches ToolOutcome::PickAttribute(a) ==> {
        let chosen = Interface {
            current_selected_area: g1.current_selected_area,
            current_tab_data: g1.current_tab_data,
            tab_labels: g1.tab_labels,
            ..g0
        };
        &&& tab_option_chosen(g0, chosen, (attribute_number(a) - 1) as usize)
        &&& attribute_form_opened(chosen, g1, attribute_number(a), attribute_values(a))
        &&& t1 == t0
    }
}

/// Uses the tool in use on tile `tile_pos` of the main map with the open
/// tab (see `MapView::use_tool`): on the layer tab with the chosen layer
/// and the tileset panel's selection, on the attribute tab with the
/// attribute its form describes, on the zone tab with the chosen zone.
/// A change marks the current map changed and shows so in its name.
/// A tile picked by the eyedropper whose location in `tile_location` is
/// known brings its sheet onto the tileset panel (its name on the
/// panel's label, the tileset list relabelled) and selects the tile
/// alone, which the map's selection preview then takes the size of. An
/// attribute picked by the eyedropper is chosen on the attribute tab and
/// its form opened with its values.
#[verifier::rlimit(60)]
pub fn interact_with_map(
    tile_pos: (u32, u32),
    gui: &mut Interface,
    tileset: &mut Tileset,
    mapview: &mut MapView,
    editor_data: &mut EditorData,
    tile_location: &IndexMap<usize, (u32, u32, u32)>,
    tilesheets: &Vec<TilesheetData>,
    tilesize: u32,
) -> (out: ToolOutcome)
    requires
        old(mapview).wf(),
        old(mapview).record_ok(),
        old(tileset).map.wf(),
        old(editor_data).wf(),
        old(gui).labels@.len() > LABEL_MAPNAME,
        tile_pos.0 < 32,
        tile_pos.1 < 32,
        old(gui).current_tab == TAB_LAYER ==> old(gui).current_tab_data < 8,
        old(gui).current_tab == TAB_ZONE ==> old(gui).current_tab_data < 5,
        old(gui).current_tab == TAB_LAYER && old(gui).current_tool == TOOL_DRAW && old(tileset).select_size.0 > 0
            && old(tileset).select_size.1 > 0 ==> tile_index(old(tileset).select_start.0 + old(tileset).select_size.0 - 1,
                old(tileset).select_start.1 + old(tileset).select_size.1 - 1, 0) < 8192,
        old(gui).current_tab == TAB_LAYER && (old(gui).current_tool == TOOL_DRAW || old(gui).current_tool == TOOL_ERASE)
            ==> old(tileset).select_size.0 <= u32::MAX - 32 && old(tileset).select_size.1 <= u32::MAX - 32,
        old(gui).current_tab == TAB_LAYER && old(gui).current_tool == TOOL_FILL
            ==> tile_index(old(tileset).select_start.0 as int, old(tileset).select_start.1 as int, 0) < 8192,
        old(gui).current_tab == TAB_ATTRIBUTE && (old(gui).current_tool == TOOL_DRAW || old(gui).current_tool == TOOL_FILL)
            ==> old(gui).current_tab_data < u32::MAX
                && (old(gui).current_tab_data + 1 == 3 ==> old(gui).editor_textbox@.len() >= 1),
        old(gui).current_tab == TAB_LAYER && old(gui).current_tool == TOOL_EYEDROP ==> {
            &&& tilesize > 0
            &&& unique_keys(location_entries(*tile_location))
            &&& forall|i: int| 0 <= i < location_entries(*tile_location).len() ==> {
                let loc = (#[trigger] location_entries(*tile_location)[i]).1;
                &&& loc.1 / tilesize < MAX_TILE_Y
                &&& loc.2 < tilesheets@.len()
            }
            &&& forall|k: int| 0 <= k < tilesheets@.len() ==> sheet_fits(#[trigger] tilesheets@[k].tile.tiles@, tilesize)
            &&& old(gui).tileset_list.texts@.len() == old(gui).tileset_list.selection_buttons@.len()
            &&& old(gui).tileset_list.start_view_index + old(gui).tileset_list.selection_buttons@.len() <= tilesheets@.len()
            &&& old(mapview).preview_pos.0 < 32 && old(mapview).preview_pos.1 < 32
        },
        old(gui).current_tab == TAB_ATTRIBUTE && old(gui).current_tool == TOOL_EYEDROP ==> {
            &&& old(gui).tab_labels@.len() == MAX_TAB_LABEL
            &&& old(gui).current_selected_area < MAX_TAB_LABEL
            &&& old(gui).start_view + MAX_TAB_LABEL <= u32::MAX
            &&& !(old(mapview).map_attributes@[tile_number(tile_pos)].attribute is Count)
        },
    ensures
        final(mapview).wf(),
        final(mapview).record_ok(),
        final(tileset).map.wf(),
        final(editor_data).wf(),
        tool_used(*old(gui), *final(gui), *old(tileset), *final(tileset), *old(mapview), *final(mapview),
            *old(editor_data), *final(editor_data), *tile_location, tilesheets@, tilesize, tile_pos, out),

{
    let tab = gui.current_tab;
    let tool = gui.current_tool;
    let attribute = if tab == TAB_ATTRIBUTE && (tool == TOOL_DRAW || tool == TOOL_FILL) {
        gui.get_attribute_setting()
    } else {
        MapAttribute::Walkable
    };
    proof {
        assert(form_texts(*gui) =~= Seq::new(gui.editor_textbox@.len(), |i: int| gui.editor_textbox@[i].data));
    }
    let ghost view0 = *mapview;
    let out = mapview.use_tool(tab, tool, tile_pos, gui.current_tab_data, attribute, &tileset.map,
        tileset.select_start, tileset.select_size);
    match &out {
        ToolOutcome::MapChanged => {
            editor_data.set_map_change();
            update_map_name(gui, editor_data);
        },
        ToolOutcome::PickTile(id) => {
            match eyedrop_location(tile_location, *id as usize, tilesize) {
                Some((sheet, col, row)) => {
                    proof {
                        let entries = location_entries(*tile_location);
                        assert(entries[key_place(entries, *id as usize)].1.2 < tilesheets@.len());
                    }
                    let sheet_index = sheet as usize;
                    gui.tileset_list.selected_tileset = sheet_index;
                    gui.labels.set(LABEL_TILESET, tilesheets[sheet_index].name.clone());
                    tileset.change_tileset(tilesheets, sheet_index, tilesize);
                    let names = names_of(tilesheets);
                    gui.tileset_list.update_list(&names);
                    let size = tileset.set_selection((col, row), (col, row));
                    mapview.change_selection_preview_size(size);
                },
                None => {},
            }
        },
        ToolOutcome::PickAttribute(found) => {
            let number = MapAttribute::convert_to_num(found);
            let data = found.to_insert_values();
            gui.select_tab_option((number - 1) as usize);
            open_attribute_settings(gui, number, &data);
        },
        ToolOutcome::Nothing => {},
    }
    out
}

/// Moves to the linked map in `direction` (see `EditorData::move_map`);
/// a changed map left behind keeps the main map's tiles under its key.
/// Says whether the new current map is loaded: if not, it is to be read
/// from its file and added before `show_current_map`.
pub fn leave_map(editor_data: &mut EditorData, mapview: &MapView, direction: Direction) -> (loaded: bool)
    requires
        old(editor_data).wf(),
        mapview.wf(),
        i32::MIN < old(editor_data).x < i32::MAX,
        i32::MIN < old(editor_data).y < i32::MAX,
    ensures
        final(editor_data).wf(),
        final(editor_data).x == old(editor_data).x + direction_step(direction).0,
        final(editor_data).y == old(editor_data).y + direction_step(direction).1,
        final(editor_data).group == old(editor_data).group,
        final(editor_data).current_index@ == triple_key(final(editor_data).x as int, final(editor_data).y as int,
            final(editor_data).group as int),
        loaded == key_in(stored_maps(final(editor_data).maps), final(editor_data).current_index@),
        ({
            let key = old(editor_data).current_index@;
            let flags = change_flags(old(editor_data).did_map_change);
            let maps = stored_maps(old(editor_data).maps);
            if key_in(flags, key) && !flags[key_place(flags, key)].1 {
                &&& stored_maps(final(editor_data).maps) == swap_removed(maps, key)
                &&& change_flags(final(editor_data).did_map_change) == swap_removed(flags, key)
            } else if key_in(flags, key) {
                &&& final(editor_data).did_map_change == old(editor_data).did_map_change
                &&& key_in(maps, key) ==> exists|m: MapData| #[trigger] stored_from(m, mapview.maps@[0].tiles@)
                    && stored_maps(final(editor_data).maps) == inserted(maps, key, m)
                &&& !key_in(maps, key) ==> final(editor_data).maps == old(editor_data).maps
            } else {
                &&& final(editor_data).maps == old(editor_data).maps
                &&& final(editor_data).did_map_change == old(editor_data).did_map_change
            }
        }),
{
    let temp_key = editor_data.move_map(direction);
    if temp_key.is_some() {
        let _ = editor_data.save_map_data(&mapview.maps[0], temp_key);
    }
    editor_data.has_current_map()
}

/// Shows the current map and its linked maps (`map_exists[l]` telling
/// whether the map linked in direction `l` exists) on the view, and the
/// map's name; on the zone tab the chosen zone is shown again, on the
/// properties tab the weather box shows the map's weather.
pub fn show_current_map(editor_data: &EditorData, mapview: &mut MapView, gui: &mut Interface, map_exists: &[bool])
    requires
        editor_data.wf(),
        old(mapview).wf(),
        map_exists@.len() == 8,
        i32::MIN < editor_data.x < i32::MAX,
        i32::MIN < editor_data.y < i32::MAX,
        old(gui).labels@.len() > LABEL_MAPNAME,
        old(gui).current_tab == TAB_ZONE ==> old(gui).current_tab_data < 5,
        old(gui).current_tab == TAB_PROPERTIES ==> old(gui).editor_selectionbox@.len() > 0
            && old(mapview).fixed_weather + old(gui).editor_selectionbox@[0].start_index < old(gui).editor_selectionbox@[0].list@.len(),
    ensures
        final(mapview).wf(),
        key_in(stored_maps(editor_data.maps), editor_data.current_index@) ==> exists|i: int|
            0 <= i < stored_maps(editor_data.maps).len() && #[trigger] stored_maps(editor_data.maps)[i].0 == editor_data.current_index@
                && shown_from(final(mapview).maps@[0].tiles@, stored_maps(editor_data.maps)[i].1, (0, 0), (32, 32)),
        !key_in(stored_maps(editor_data.maps), editor_data.current_index@) ==> final(mapview).maps@[0].tiles@ == empty_tiles(),
        final(mapview).maps@[0].filled_bound(),
        links_shown(*editor_data, final(mapview).maps@, map_exists@, 8),
        final(mapview).map_attributes == old(mapview).map_attributes,
        final(mapview).map_zone_loc == old(mapview).map_zone_loc,
        final(mapview).map_zone_setting == old(mapview).map_zone_setting,
        final(mapview).fixed_weather == old(mapview).fixed_weather,
        final(mapview).record == old(mapview).record,
        old(gui).current_tab == TAB_ZONE ==> forall|i: int| 0 <= i < 1024 ==> #[trigger] final(mapview).map_zone@[i] == (
            if zone_covers(old(mapview).map_zone_loc@[old(gui).current_tab_data as int].pos@, i) {
                zone_color(old(gui).current_tab_data as usize)
            } else {
                no_zone_color()
            }),
        old(gui).current_tab != TAB_ZONE ==> final(mapview).map_zone == old(mapview).map_zone,
        ({
            let named = Interface { labels: final(gui).labels, ..*old(gui) };
            &&& name_shown(*old(gui), named, *editor_data)
            &&& old(gui).current_tab == TAB_PROPERTIES ==> {
                let b = old(gui).editor_selectionbox@[0];
                let after = final(gui).editor_selectionbox@[0];
                let k = old(mapview).fixed_weather + b.start_index;
                &&& final(gui).editor_selectionbox@ == old(gui).editor_selectionbox@.update(0, after)
                &&& after == (SelectionBox { selected_index: k as usize, text: after.text, ..b })
                &&& after.text@ == (if k == b.selected_index { b.text@ } else { b.list@[k]@ })
                &&& *final(gui) == (Interface { editor_selectionbox: final(gui).editor_selectionbox, ..named })
            }
            &&& old(gui).current_tab != TAB_PROPERTIES ==> *final(gui) == named
        }),
{
    editor_data.load_map_data(mapview);
    editor_data.load_link_maps(mapview, map_exists);
    update_map_name(gui, editor_data);
    if gui.current_tab == TAB_ZONE {
        mapview.update_map_zone(gui.current_tab_data as usize);
    } else if gui.current_tab == TAB_PROPERTIES {
        gui.editor_selectionbox[0].switch_list(mapview.fixed_weather as usize);
    }
}

/// The eyedropper finds a picked tile on its sheet: with the locations
/// recorded from the sheets (as `tile_locations` records them), picking
/// the atlas id of tile `k` of sheet `s`, when no later tile of the
/// sheets has that id, gives sheet `s` and the tile's panel cell; and
/// once sheet `s` is laid out on the panel, that cell shows the tile,
/// unless a later tile of the sheet lands on the same cell.
pub proof fn lemma_eyedrop_finds_tile(sheets: Seq<TilesheetData>, tilesize: u32, s: int, k: int, cleared: Seq<TileData>)
    requires
        sheets.len() <= u32::MAX,
        0 <= s < sheets.len(),
        0 <= k < sheets[s].tile.tiles@.len(),
        sheets[s].tile.tiles@[k].tex_id > 0,
        forall|j: int| k < j < sheets[s].tile.tiles@.len()
            ==> (#[trigger] sheets[s].tile.tiles@[j]).tex_id != sheets[s].tile.tiles@[k].tex_id,
        forall|s2: int, j: int| s < s2 < sheets.len() && 0 <= j < sheets[s2].tile.tiles@.len()
            ==> (#[trigger] sheets[s2].tile.tiles@[j]).tex_id != sheets[s].tile.tiles@[k].tex_id,
        in_grid(panel_pos(sheets[s].tile.tiles@[k], tilesize)),
        forall|j: int| k < j < sheets[s].tile.tiles@.len() && (#[trigger] sheets[s].tile.tiles@[j]).tex_id > 0
            && in_grid(panel_pos(sheets[s].tile.tiles@[j], tilesize))
            ==> panel_pos(sheets[s].tile.tiles@[j], tilesize) != panel_pos(sheets[s].tile.tiles@[k], tilesize),
        cleared.len() == 8192,
    ensures
        ({
            let t = sheets[s].tile.tiles@[k];
            let p = panel_pos(t, tilesize);
            &&& picked_spot(sheets_located(sheets, sheets.len()), t.tex_id, tilesize)
                == Some((s as u32, (t.x / tilesize) as u32, p.1 as u32))
            &&& laid_out(cleared, sheets[s].tile.tiles@, tilesize)[tile_index(p.0, p.1, 0)] == panel_tile(t)
        }),
{
    lemma_sheets_located_last(sheets, sheets.len(), s, k);
    lemma_laid_out_last(cleared, sheets[s].tile.tiles@, tilesize, k);
}

/// A click of the drawing, erasing or filling tool on the layer tab,
/// made once a fresh undo record was opened (as a press on the map opens
/// one, see `map_press`), can be undone: applying the record the click
/// left last on the undo stack gives every tile of the map back its
/// texture id from before the click. `v1` is `v0` with the record opened
/// (as `Records::set_undo_record` leaves it) and `v2` is `v1` after the
/// tool was used (as `MapView::use_tool` leaves it).
pub proof fn lemma_click_undone(
    v0: MapView,
    v1: MapView,
    v2: MapView,
    tool: usize,
    tile_pos: (u32, u32),
    tab_data: u32,
    attribute: MapAttribute,
    tileset: crate::tile_map::TileMap,
    select_start: (u32, u32),
    select_size: (u32, u32),
    out: ToolOutcome,
)
    requires
        v0.wf(),
        !v0.record.is_recording(),
        v0.record.undo_stack().len() + 1 < MAX_CHANGE,
        v1.record.is_recording(),
        v1.record.target() == Some(v0.record.undo_stack().len() as usize),
        v1.record.undo_stack().len() == v0.record.undo_stack().len() + 1,
        v1.record.undo_stack().last().entries() == Seq::<(Seq<char>, ChangeData)>::empty(),
        v1.maps == v0.maps,
        tool == TOOL_DRAW || tool == TOOL_ERASE || tool == TOOL_FILL,
        tool_applied(v1, v2, TAB_LAYER, tool, tile_pos, tab_data, attribute, tileset, select_start, select_size, out),
    ensures
        v2.record.undo_stack().len() == v1.record.undo_stack().len(),
        forall|pos: TilePos| on_map(pos) ==>
            #[trigger] apply_entries(v2.maps@[0].tiles@, v2.record.undo_stack().last().entries())[pos_index(pos)].texture_id
                == v0.maps@[0].tiles@[pos_index(pos)].texture_id,
{
    assert(v0.maps@[0].wf());
    lemma_session_undo(v1.record, v2.record, v1.maps@[0].tiles@, v2.maps@[0].tiles@);
}

/// What a use of the tool on tile `tile_pos` asks of the editor's state
/// (see `interact_with_map`): a valid map view, maps and editor data;
/// the tile on the map; a chosen layer or zone that exists; a tileset
/// selection that lies on the sheet; for the eyedropper on the layer tab,
/// tile locations that lie on the known sheets, and on the attribute tab,
/// an attribute under the pointer that has a form.
pub open spec fn map_press_ok(
    gui: Interface,
    tileset: Tileset,
    mapview: MapView,
    editor_data: EditorData,
    tile_location: IndexMap<usize, (u32, u32, u32)>,
    tilesheets: Seq<TilesheetData>,
    tilesize: u32,
    tile_pos: (u32, u32),
) -> bool {
    &&& mapview.wf()
    &&& mapview.record_ok()
    &&& tileset.map.wf()
    &&& editor_data.wf()
    &&& gui.labels@.len() > LABEL_MAPNAME
    &&& tile_pos.0 < 32
    &&& tile_pos.1 < 32
    &&& gui.current_tab == TAB_LAYER ==> gui.current_tab_data < 8
    &&& gui.current_tab == TAB_ZONE ==> gui.current_tab_data < 5
    &&& gui.current_tab == TAB_LAYER && gui.current_tool == TOOL_DRAW && tileset.select_size.0 > 0
        && tileset.select_size.1 > 0 ==> tile_index(tileset.select_start.0 + tileset.select_size.0 - 1,
            tileset.select_start.1 + tileset.select_size.1 - 1, 0) < 8192
    &&& gui.current_tab == TAB_LAYER && (gui.current_tool == TOOL_DRAW || gui.current_tool == TOOL_ERASE)
        ==> tileset.select_size.0 <= u32::MAX - 32 && tileset.select_size.1 <= u32::MAX - 32
    &&& gui.current_tab == TAB_LAYER && gui.current_tool == TOOL_FILL
        ==> tile_index(tileset.select_start.0 as int, tileset.select_start.1 as int, 0) < 8192
    &&& gui.current_tab == TAB_ATTRIBUTE && (gui.current_tool == TOOL_DRAW || gui.current_tool == TOOL_FILL)
        ==> gui.current_tab_data < u32::MAX
            && (gui.current_tab_data + 1 == 3 ==> gui.editor_textbox@.len() >= 1)
    &&& gui.current_tab == TAB_LAYER && gui.current_tool == TOOL_EYEDROP ==> {
        &&& tilesize > 0
        &&& tilesheets.len() <= u32::MAX
        &&& location_entries(tile_location) == sheets_located(tilesheets, tilesheets.len())
        &&& forall|k: int| 0 <= k < tilesheets.len() ==> sheet_fits(#[trigger] tilesheets[k].tile.tiles@, tilesize)
        &&& gui.tileset_list.texts@.len() == gui.tileset_list.selection_buttons@.len()
        &&& gui.tileset_list.start_view_index + gui.tileset_list.selection_buttons@.len() <= tilesheets.len()
        &&& mapview.preview_pos.0 < 32 && mapview.preview_pos.1 < 32
    }
    &&& gui.current_tab == TAB_ATTRIBUTE && gui.current_tool == TOOL_EYEDROP ==> {
        &&& gui.tab_labels@.len() == MAX_TAB_LABEL
        &&& gui.current_selected_area < MAX_TAB_LABEL
        &&& gui.start_view + MAX_TAB_LABEL <= u32::MAX
        &&& !(mapview.map_attributes@[tile_number(tile_pos)].attribute is Count)
    }
}

/// A press on the map: an undo record is opened, unless one is open
/// already, and the tool in use is used on tile `tile_pos` (see
/// `interact_with_map`), so that what the press changes can be undone.
pub fn map_press(
    tile_pos: (u32, u32),
    gui: &mut Interface,
    tileset: &mut Tileset,
    mapview: &mut MapView,
    editor_data: &mut EditorData,
    tile_location: &IndexMap<usize, (u32, u32, u32)>,
    tilesheets: &Vec<TilesheetData>,
    tilesize: u32,
) -> (out: ToolOutcome)
    requires
        map_press_ok(*old(gui), *old(tileset), *old(mapview), *old(editor_data), *tile_location, tilesheets@, tilesize,
            tile_pos),
    ensures
        final(mapview).wf(),
        final(mapview).record_ok(),
        final(tileset).map.wf(),
        final(editor_data).wf(),
        exists|r: Records| #[trigger] record_opened(old(mapview).record, r) && tool_used(*old(gui), *final(gui),
            *old(tileset), *final(tileset), MapView { record: r, ..*old(mapview) }, *final(mapview), *old(editor_data),
            *final(editor_data), *tile_location, tilesheets@, tilesize, tile_pos, out),
        old(mapview).record.is_recording() ==> final(mapview).record.undo_stack().len() == old(mapview).record.undo_stack().len(),
        !old(mapview).record.is_recording() ==> {
            &&& final(mapview).record.is_recording()
            &&& final(mapview).record.target() == Some(old(mapview).record.undo_stack().len() as usize)
            &&& final(mapview).record.undo_stack().len() == old(mapview).record.undo_stack().len() + 1
            &&& final(mapview).record.undo_stack().take(old(mapview).record.undo_stack().len() as int)
                == old(mapview).record.undo_stack()
        },
        !old(mapview).record.is_recording() && old(mapview).record.undo_stack().len() + 1 < MAX_CHANGE
            && old(gui).current_tab == TAB_LAYER
            && (old(gui).current_tool == TOOL_DRAW || old(gui).current_tool == TOOL_ERASE || old(gui).current_tool == TOOL_FILL)
            ==> forall|pos: TilePos| on_map(pos) ==>
                #[trigger] apply_entries(final(mapview).maps@[0].tiles@, final(mapview).record.undo_stack().last().entries())[pos_index(pos)].texture_id
                    == old(mapview).maps@[0].tiles@[pos_index(pos)].texture_id,
        out is MapChanged ==> final(mapview).record.redo_stack().len() == 0,
{
    let ghost v0 = *mapview;
    mapview.record.set_undo_record();
    let ghost v1 = *mapview;
    proof {
        if gui.current_tab == TAB_LAYER && gui.current_tool == TOOL_EYEDROP {
            lemma_sheets_located_unique(tilesheets@, tilesheets@.len());
            lemma_locations_on_sheets(tilesheets@, tilesheets@.len(), tilesize);
        }
        if !v0.record.is_recording() {
            let n = v0.record.undo_stack().len() as int;
            assert forall|j: int| 0 <= j < v1.record.undo_stack().len()
                implies entries_valid(#[trigger] v1.record.undo_stack()[j].entries()) by {
                if j < n {
                    assert(v1.record.undo_stack()[j] == v1.record.undo_stack().take(n)[j]);
                } else {
                    assert(v1.record.undo_stack()[j] == v1.record.undo_stack().last());
                }
            }
        }
    }
    let ghost g0 = *gui;
    let ghost t0 = *tileset;
    let out = interact_with_map(tile_pos, gui, tileset, mapview, editor_data, tile_location, tilesheets, tilesize);
    proof {
        assert(v1 == MapView { record: v1.record, ..v0 });
        assert(record_opened(v0.record, v1.record));
        if !v0.record.is_recording() && v0.record.undo_stack().len() + 1 < MAX_CHANGE && g0.current_tab == TAB_LAYER
            && (g0.current_tool == TOOL_DRAW || g0.current_tool == TOOL_ERASE || g0.current_tool == TOOL_FILL) {
            assert(picked_tile(out, location_entries(*tile_location), tilesize) is None);
            lemma_click_undone(v0, v1, *mapview, g0.current_tool, tile_pos, g0.current_tab_data, tool_attribute(g0),
                t0.map, t0.select_start, t0.select_size, out);
        }
    }
    out
}

/// A press of the pointer on the editor, the pointer over the tileset
/// panel (`on_tileset`, on tile `tileset_tile`) or over the map
/// (`on_map`, on tile `map_tile`) or neither, never both (see
/// `press_target`): with no dialog, preference window or held scrollbar
/// in the way, a press on the tileset panel of the layer tab selects its
/// tile alone and gives the map's selection preview that size, and a
/// press on the map is `map_press`. Returns the press kind that follows
/// and what the tool did.
pub fn pointer_press(
    gui: &mut Interface,
    tileset: &mut Tileset,
    mapview: &mut MapView,
    editor_data: &mut EditorData,
    tile_location: &IndexMap<usize, (u32, u32, u32)>,
    tilesheets: &Vec<TilesheetData>,
    tilesize: u32,
    on_tileset: bool,
    tileset_tile: (u32, u32),
    on_map: bool,
    map_tile: (u32, u32),
    press: PressType,
) -> (r: (PressType, ToolOutcome))
    requires
        !(on_tileset && on_map),
        old(gui).current_tab == TAB_PROPERTIES && old(gui).selected_dropbox >= 0
            ==> old(gui).selected_dropbox < old(gui).editor_selectionbox@.len(),
        on_tileset ==> old(mapview).preview_pos.0 < 32 && old(mapview).preview_pos.1 < 32,
        on_map ==> map_press_ok(*old(gui), *old(tileset), *old(mapview), *old(editor_data), *tile_location,
            tilesheets@, tilesize, map_tile),
    ensures
        r.0 == press_kind(pointer_target(*old(gui), on_tileset, on_map), press),
        old(gui).dialog is Some || old(gui).preference.is_open ==> {
            &&& r.0 == press
            &&& r.1 is Nothing
            &&& *final(gui) == *old(gui)
            &&& *final(tileset) == *old(tileset)
            &&& *final(mapview) == *old(mapview)
            &&& *final(editor_data) == *old(editor_data)
        },
        pointer_target(*old(gui), on_tileset, on_map) == PointerTarget::Panel(false, true) ==> {
            &&& final(mapview).wf()
            &&& final(mapview).record_ok()
            &&& final(tileset).map.wf()
            &&& final(editor_data).wf()
            &&& exists|rec: Records| #[trigger] record_opened(old(mapview).record, rec) && tool_used(*old(gui),
                *final(gui), *old(tileset), *final(tileset), MapView { record: rec, ..*old(mapview) }, *final(mapview),
                *old(editor_data), *final(editor_data), *tile_location, tilesheets@, tilesize, map_tile, r.1)
        },
        pointer_target(*old(gui), on_tileset, on_map) == PointerTarget::Panel(true, false) ==> {
            &&& *final(tileset) == (Tileset { select_start: tileset_tile, select_size: (1u32, 1u32), ..*old(tileset) })
            &&& *final(mapview) == (MapView {
                preview_size: (1u32, 1u32),
                preview_extent: (on_map_extent(old(mapview).preview_pos.0, 1), on_map_extent(old(mapview).preview_pos.1, 1)),
                ..*old(mapview)
            })
            &&& *final(gui) == *old(gui)
            &&& *final(editor_data) == *old(editor_data)
            &&& r.1 is Nothing
        },
        !(pointer_target(*old(gui), on_tileset, on_map) is Panel) || pointer_target(*old(gui), on_tileset, on_map)
            == PointerTarget::Panel(false, false) ==> {
            &&& *final(gui) == *old(gui)
            &&& *final(tileset) == *old(tileset)
            &&& *final(mapview) == *old(mapview)
            &&& *final(editor_data) == *old(editor_data)
            &&& r.1 is Nothing
        },
{
    let (target, kind) = press_target(gui, on_tileset, on_map, press);
    match target {
        PointerTarget::Panel(t, m) => {
            if t {
                let _ = select_tiles(tileset, mapview, tileset_tile, tileset_tile);
            }
            if m {
                let out = map_press(map_tile, gui, tileset, mapview, editor_data, tile_location, tilesheets, tilesize);
                return (kind, out);
            }
            (kind, ToolOutcome::Nothing)
        },
        _ => (kind, ToolOutcome::Nothing),
    }
}

/// The size of a selection between `start` and `end`, in either order.
pub open spec fn span(start: (u32, u32), end: (u32, u32)) -> (int, int) {
    ((if start.0 > end.0 { start.0 - end.0 } else { end.0 - start.0 }) + 1,
        (if start.1 > end.1 { start.1 - end.1 } else { end.1 - start.1 }) + 1)
}

/// A move of the pointer with the button down, the pointer over the
/// tileset panel (`on_tileset`, on tile `tileset_tile`) or over the map
/// (`on_map`, on tile `map_tile`) or neither, never both (see
/// `drag_target`): a selection begun on the tileset panel at
/// `selection.0` and last drawn to `selection.1` grows to the tile under
/// the pointer, when that tile is another one, and the map's selection
/// preview takes its size; a press begun on the map uses the tool on the
/// tile under the pointer and shows that tile (see `show_tile_pos`).
/// Returns what was dragged, where the tileset selection now ends and
/// what the tool did. A held scrollbar takes the drag instead (see
/// `scrollbar_drag`), and nothing changes here.
pub fn pointer_drag(
    gui: &mut Interface,
    tileset: &mut Tileset,
    mapview: &mut MapView,
    editor_data: &mut EditorData,
    tile_location: &IndexMap<usize, (u32, u32, u32)>,
    tilesheets: &Vec<TilesheetData>,
    tilesize: u32,
    on_tileset: bool,
    tileset_tile: (u32, u32),
    selection: ((u32, u32), (u32, u32)),
    on_map: bool,
    map_tile: (u32, u32),
    press: PressType,
) -> (r: (DragTarget, (u32, u32), ToolOutcome))
    requires
        !(on_tileset && on_map),
        old(gui).current_tab == TAB_PROPERTIES && old(gui).selected_dropbox >= 0
            ==> old(gui).selected_dropbox < old(gui).editor_selectionbox@.len(),
        on_tileset && press == PressType::PressTileset ==> {
            &&& old(mapview).preview_pos.0 < 32 && old(mapview).preview_pos.1 < 32
            &&& span(selection.0, tileset_tile).0 <= u32::MAX
            &&& span(selection.0, tileset_tile).1 <= u32::MAX
        },
        on_map && press == PressType::PressMap ==> {
            &&& map_press_ok(*old(gui), *old(tileset), *old(mapview), *old(editor_data), *tile_location, tilesheets@,
                tilesize, map_tile)
            &&& old(gui).labels@.len() > LABEL_TILEPOS
            &&& old(mapview).preview_pos.0 < 32 && old(mapview).preview_pos.1 < 32
        },
    ensures
        r.0 == drag_kind(*old(gui), on_tileset, on_map, press),
        old(gui).dialog is Some || old(gui).preference.is_open ==> {
            &&& r.1 == selection.1
            &&& r.2 is Nothing
            &&& *final(gui) == *old(gui)
            &&& *final(tileset) == *old(tileset)
            &&& *final(mapview) == *old(mapview)
            &&& *final(editor_data) == *old(editor_data)
        },
        r.0 == DragTarget::TilesetSelection ==> {
            &&& r.1 == tileset_tile
            &&& r.2 is Nothing
            &&& *final(gui) == *old(gui)
            &&& *final(editor_data) == *old(editor_data)
            &&& selection.1 == tileset_tile ==> *final(tileset) == *old(tileset) && *final(mapview) == *old(mapview)
            &&& selection.1 != tileset_tile ==> {
                let start = selection.0;
                let size = span(start, tileset_tile);
                &&& *final(tileset) == (Tileset {
                    select_start: (if start.0 > tileset_tile.0 { tileset_tile.0 } else { start.0 },
                        if start.1 > tileset_tile.1 { tileset_tile.1 } else { start.1 }),
                    select_size: (size.0 as u32, size.1 as u32),
                    ..*old(tileset)
                })
                &&& *final(mapview) == (MapView {
                    preview_size: (size.0 as u32, size.1 as u32),
                    preview_extent: (on_map_extent(old(mapview).preview_pos.0, size.0 as u32),
                        on_map_extent(old(mapview).preview_pos.1, size.1 as u32)),
                    ..*old(mapview)
                })
            }
        },
        r.0 == DragTarget::MapTool ==> {
            &&& r.1 == selection.1
            &&& final(mapview).wf()
            &&& final(mapview).record_ok()
            &&& final(tileset).map.wf()
            &&& final(editor_data).wf()
            &&& exists|g: Interface, v: MapView| tool_used(*old(gui), g, *old(tileset), *final(tileset), *old(mapview), v,
                *old(editor_data), *final(editor_data), *tile_location, tilesheets@, tilesize, map_tile, r.2)
                && #[trigger] tile_pos_shown(g, *final(gui), v, *final(mapview), map_tile)
        },
        r.0 != DragTarget::TilesetSelection && r.0 != DragTarget::MapTool ==> {
            &&& r.1 == selection.1
            &&& r.2 is Nothing
            &&& *final(gui) == *old(gui)
            &&& *final(tileset) == *old(tileset)
            &&& *final(mapview) == *old(mapview)
            &&& *final(editor_data) == *old(editor_data)
        },
{
    let target = drag_target(gui, on_tileset, on_map, press);
    match target {
        DragTarget::TilesetSelection => {
            if selection.1.0 != tileset_tile.0 || selection.1.1 != tileset_tile.1 {
                let _ = select_tiles(tileset, mapview, selection.0, tileset_tile);
            }
            (target, tileset_tile, ToolOutcome::Nothing)
        },
        DragTarget::MapTool => {
            proof {
                if gui.current_tab == TAB_LAYER && gui.current_tool == TOOL_EYEDROP {
                    lemma_sheets_located_unique(tilesheets@, tilesheets@.len());
                    lemma_locations_on_sheets(tilesheets@, tilesheets@.len(), tilesize);
                }
            }
            let out = interact_with_map(map_tile, gui, tileset, mapview, editor_data, tile_location, tilesheets, tilesize);
            let ghost g = *gui;
            let ghost v = *mapview;
            proof {
                assert(v.preview_pos == old(mapview).preview_pos);
            }
            show_tile_pos(gui, mapview, map_tile);
            proof {
                assert(tile_pos_shown(g, *gui, v, *mapview, map_tile));
            }
            (target, selection.1, out)
        },
        _ => (target, selection.1, ToolOutcome::Nothing),
    }
}

} // verus!
