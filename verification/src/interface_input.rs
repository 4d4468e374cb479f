//! What a click on the panel does, once the program has found what lies
//! under the pointer: the bar's buttons (loading, saving, undoing and
//! redoing, taking up a tool, opening a settings tab, showing or hiding
//! the tileset list), the options of the open tab, the properties tab's
//! buttons and drop-down lists, the tileset list, the selection of tiles
//! on the tileset panel, and the tile position shown under the pointer.

use vstd::prelude::*;
use crate::editor_data::{EditorData, change_flags, key_in, inserted, map_saved};
use crate::input::{LABEL_MAPNAME, update_map_name, name_shown, is_scrollbar_in_hold};
use crate::interface::dialog::{DialogType, dialog_made};
use crate::interface::panel::{Interface, BUTTON_COUNT, MAX_TAB_LABEL, tool_chosen, tab_option_chosen, zone_form_filled,
    tabs_scrolled};
use crate::interface::tabs::{LAYER_COUNT, LABEL_OPT_HEADER_TEXT, options_wf, tab_opened, open_attribute_settings,
    attribute_form_opened};
use crate::interface::tileset_list::{list_shown, list_hidden, list_picked, list_relabelled, TilesetList};
use crate::interface::selection_box::{SelectionBox, box_list_shown, box_look, box_scrolled, LIST_ROWS};
use crate::resource::TilesheetData;
use crate::tileset::{sheet_fits, sheet_shown};
use crate::map_view::on_map_extent;
use crate::map_input::LABEL_TILESET;
use crate::text::{decimal, push_decimal};
use crate::interface::preference::{open_preference_tab, menu_after_select, all_redrawn, tab_filled, PREF_TAB_GENERAL};
use crate::interface::scrollbar::{track_of, scrollbar_released, bar_moved, bar_hovered, lemma_value_on_track};
use crate::interface::tool_button::after_click;
use crate::interface::button::buttons_released;
use crate::map_view::MapView;
use crate::map_view::zone_edit::zone_overlay_shown;
use crate::editor_attributes::InsertTypes;
use crate::map_view::tools::{TOOL_DRAW, TOOL_ERASE, TOOL_FILL, TOOL_EYEDROP, TAB_LAYER, TAB_ATTRIBUTE, TAB_ZONE,
    TAB_PROPERTIES};
use crate::map_view::undo::{change_applied, target_stack};
use crate::recording::MAX_CHANGE;
use crate::tileset::Tileset;

verus! {

/// The button that opens the dialog to load a map.
pub const TOOL_LOAD: usize = 0;
/// The button that saves the current map.
pub const TOOL_SAVE: usize = 1;
/// The button that undoes the last change.
pub const TOOL_UNDO: usize = 2;
/// The button that redoes the last change undone.
pub const TOOL_REDO: usize = 3;
/// The button that shows or hides the tileset list.
pub const BUTTON_TILESET: usize = 12;

/// What is left to do after a bar button was clicked.
pub enum ButtonAction {
    /// Nothing.
    Nothing,
    /// Write the current map to its file, then call `map_written`.
    WriteMap,
}

/// Marks the current map saved once it was written to its file, and
/// shows its name so.
pub fn map_written(gui: &mut Interface, editor_data: &mut EditorData)
    requires
        old(editor_data).wf(),
        old(gui).labels@.len() > LABEL_MAPNAME,
    ensures
        final(editor_data).wf(),
        ({
            let flags = change_flags(old(editor_data).did_map_change);
            let key = old(editor_data).current_index@;
            change_flags(final(editor_data).did_map_change) == (if key_in(flags, key) { inserted(flags, key, false) } else { flags })
        }),
        final(editor_data).maps == old(editor_data).maps,
        final(editor_data).x == old(editor_data).x,
        final(editor_data).y == old(editor_data).y,
        final(editor_data).group == old(editor_data).group,
        final(editor_data).current_index == old(editor_data).current_index,
        name_shown(*old(gui), *final(gui), *final(editor_data)),
{
    editor_data.mark_saved();
    update_map_name(gui, editor_data);
}

/// Takes a click on bar button `button_index`. Load opens the dialog to
/// load a map (its scrollbar starting at `dialog_scrollbar_start`); Save
/// copies the main map into the current map's data and asks for it to
/// be written, or, when the map is not loaded, shows its name again;
/// Undo and Redo apply the last change; a tool is taken up; a settings
/// tab is opened (see `Interface::set_tab`, with the tileset panel's
/// selection size) and the tileset list hidden; on the layer tab the
/// tileset button shows or hides the tileset list.
#[verifier::rlimit(60)]
pub fn gui_button_select(
    button_index: usize,
    gui: &mut Interface,
    tileset: &Tileset,
    mapview: &mut MapView,
    editor_data: &mut EditorData,
    layer_names: &Vec<String>,
    list_scrollbar_start: usize,
    dialog_scrollbar_start: usize,
) -> (action: ButtonAction)
    requires
        old(mapview).wf(),
        old(mapview).record_ok(),
        old(editor_data).wf(),
        old(gui).buttons@.len() == BUTTON_COUNT,
        old(gui).current_tool < BUTTON_COUNT,
        old(gui).current_tab < BUTTON_COUNT,
        button_index == TOOL_LOAD ==> dialog_scrollbar_start >= 75,
        button_index == TOOL_SAVE ==> old(gui).labels@.len() > LABEL_MAPNAME,
        button_index == TOOL_UNDO || button_index == TOOL_REDO ==> ({
            let is_undo = button_index == TOOL_UNDO;
            old(mapview).record.is_recording() && target_stack(old(mapview).record, is_undo).len() < MAX_CHANGE ==> (
                if is_undo { old(mapview).record.redo_target_ok() } else { old(mapview).record.undo_target_ok() })
        }),
        TAB_LAYER <= button_index <= TAB_PROPERTIES ==> {
            &&& old(gui).tab_labels@.len() == MAX_TAB_LABEL
            &&& options_wf(old(gui).tab_labels@)
            &&& old(gui).labels@.len() > LABEL_OPT_HEADER_TEXT
            &&& layer_names@.len() >= LAYER_COUNT
            &&& old(gui).current_tab != button_index && button_index == TAB_PROPERTIES ==> old(mapview).fixed_weather < 3
            &&& list_scrollbar_start >= 90
            &&& old(mapview).preview_pos.0 < 32 && old(mapview).preview_pos.1 < 32
        },
    ensures
        final(mapview).wf(),
        final(mapview).record_ok(),
        final(editor_data).wf(),
        button_index == TOOL_LOAD ==> {
            &&& action is Nothing
            &&& old(gui).dialog is Some ==> *final(gui) == *old(gui)
            &&& old(gui).dialog is None ==> (final(gui).dialog matches Some(d)
                && dialog_made(d, DialogType::TypeMapLoad, None, dialog_scrollbar_start))
            &&& *final(gui) == (Interface { dialog: final(gui).dialog, ..*old(gui) })
        },
        button_index == TOOL_SAVE ==> {
            &&& map_saved(*old(editor_data), *final(editor_data), old(mapview).maps@[0].tiles@, None, action is WriteMap)
            &&& action is WriteMap ==> *final(gui) == *old(gui)
            &&& action is Nothing ==> name_shown(*old(gui), *final(gui), *final(editor_data))
        },
        button_index == TOOL_UNDO || button_index == TOOL_REDO ==> action is Nothing
            && change_applied(*old(mapview), *final(mapview), button_index == TOOL_UNDO) && *final(gui) == *old(gui),
        TOOL_DRAW <= button_index <= TOOL_EYEDROP ==> action is Nothing && tool_chosen(*old(gui), *final(gui), button_index),
        TAB_LAYER <= button_index <= TAB_PROPERTIES ==> {
            &&& action is Nothing
            &&& tab_opened(*old(gui), Interface { tileset_list: old(gui).tileset_list, ..*final(gui) }, *old(mapview),
                *final(mapview), button_index, layer_names@, tileset.select_size)
            &&& final(gui).tileset_list == (if old(gui).tileset_list.visible { list_hidden(old(gui).tileset_list) }
                else { old(gui).tileset_list })
        },
        button_index == BUTTON_TILESET ==> {
            &&& action is Nothing
            &&& old(gui).current_tab == TAB_LAYER && old(gui).tileset_list.visible
                ==> final(gui).tileset_list == list_hidden(old(gui).tileset_list)
            &&& old(gui).current_tab == TAB_LAYER && !old(gui).tileset_list.visible
                ==> list_shown(old(gui).tileset_list, final(gui).tileset_list)
            &&& old(gui).current_tab != TAB_LAYER ==> final(gui).tileset_list == old(gui).tileset_list
            &&& *final(gui) == (Interface { tileset_list: final(gui).tileset_list, ..*old(gui) })
        },
        button_index > BUTTON_TILESET ==> action is Nothing && *final(gui) == *old(gui),
        !(button_index == TOOL_UNDO || button_index == TOOL_REDO || (TAB_LAYER <= button_index <= TAB_PROPERTIES))
            ==> *final(mapview) == *old(mapview),
        button_index != TOOL_SAVE ==> *final(editor_data) == *old(editor_data),
{
    if button_index == TOOL_LOAD {
        gui.open_dialog(DialogType::TypeMapLoad, None, dialog_scrollbar_start);
        ButtonAction::Nothing
    } else if button_index == TOOL_SAVE {
        let should_write = editor_data.save_map_data(&mapview.maps[0], None);
        if should_write {
            ButtonAction::WriteMap
        } else {
            update_map_name(gui, editor_data);
            ButtonAction::Nothing
        }
    } else if button_index == TOOL_UNDO {
        mapview.apply_change(true);
        ButtonAction::Nothing
    } else if button_index == TOOL_REDO {
        mapview.apply_change(false);
        ButtonAction::Nothing
    } else if button_index == TOOL_DRAW || button_index == TOOL_ERASE || button_index == TOOL_FILL
        || button_index == TOOL_EYEDROP {
        gui.set_tool(button_index);
        ButtonAction::Nothing
    } else if button_index == TAB_ATTRIBUTE || button_index == TAB_LAYER || button_index == TAB_PROPERTIES
        || button_index == TAB_ZONE {
        gui.set_tab(button_index, layer_names, mapview, list_scrollbar_start, tileset.select_size);
        if gui.tileset_list.visible {
            gui.tileset_list.hide_list();
        }
        ButtonAction::Nothing
    } else if button_index == BUTTON_TILESET {
        if gui.current_tab == TAB_LAYER {
            if gui.tileset_list.visible {
                gui.tileset_list.hide_list();
            } else {
                gui.tileset_list.show();
            }
        }
        ButtonAction::Nothing
    } else {
        ButtonAction::Nothing
    }
}

/// Takes a click on the option listed at place `tab_index` of the open
/// tab: the option is chosen (see `Interface::select_tab_option`); on the
/// attribute tab the chosen kind's form opens empty, on the zone tab the
/// chosen zone is shown on the map and its settings fill the form.
pub fn tab_option_select(gui: &mut Interface, mapview: &mut MapView, tab_index: usize)
    requires
        old(mapview).wf(),
        tab_index < old(gui).tab_labels@.len(),
        old(gui).current_selected_area < old(gui).tab_labels@.len(),
        (old(gui).current_tab == TAB_LAYER || old(gui).current_tab == TAB_ZONE)
            && old(gui).current_selected_area != tab_index as i32
            && old(gui).tab_labels@[tab_index as int].is_visible ==> old(gui).current_selected_area >= 0,
        old(gui).current_tab == TAB_ATTRIBUTE ==> old(gui).start_view + tab_index < u32::MAX
            && old(gui).current_tab_data < u32::MAX,
        old(gui).current_tab == TAB_ZONE ==> {
            &&& old(gui).current_tab_data < 5
            &&& old(gui).tab_labels@[tab_index as int].is_visible ==> tab_index < 5
            &&& old(gui).editor_textbox@.len() >= 6
        },
    ensures
        final(mapview).wf(),
        ({
            let chosen = Interface {
                current_selected_area: final(gui).current_selected_area,
                current_tab_data: final(gui).current_tab_data,
                tab_labels: final(gui).tab_labels,
                ..*old(gui)
            };
            &&& tab_option_chosen(*old(gui), chosen, tab_index)
            &&& old(gui).current_tab == TAB_ATTRIBUTE ==> *final(mapview) == *old(mapview)
                && attribute_form_opened(chosen, *final(gui), (chosen.current_tab_data + 1) as u32, Seq::<InsertTypes>::empty())
            &&& old(gui).current_tab == TAB_ZONE ==> zone_overlay_shown(*old(mapview), *final(mapview), chosen.current_tab_data as usize)
                && zone_form_filled(chosen, *final(gui), old(mapview).map_zone_setting@[chosen.current_tab_data as int])
            &&& old(gui).current_tab != TAB_ATTRIBUTE && old(gui).current_tab != TAB_ZONE
                ==> *final(gui) == chosen && *final(mapview) == *old(mapview)
        }),
{
    gui.select_tab_option(tab_index);
    if gui.current_tab == TAB_ATTRIBUTE {
        let empty: Vec<InsertTypes> = Vec::new();
        open_attribute_settings(gui, gui.current_tab_data + 1, &empty);
    } else if gui.current_tab == TAB_ZONE {
        let zone = gui.current_tab_data as usize;
        mapview.update_map_zone(zone);
        gui.open_zone_settings(&mapview.map_zone_setting[zone]);
    }
}

/// Takes a click on drop-down box `selection_index` of the properties
/// tab: the weather box opens its list and is the box in use, or, when
/// its list is open, closes it and no box is in use.
pub fn selectionbox_select(gui: &mut Interface, selection_index: usize)
    requires
        selection_index == 0 ==> old(gui).editor_selectionbox@.len() > 0 && old(gui).editor_selectionbox@[0].wf(),
    ensures
        selection_index != 0 ==> *final(gui) == *old(gui),
        selection_index == 0 ==> {
            let b = old(gui).editor_selectionbox@[0];
            let after = final(gui).editor_selectionbox@[0];
            &&& final(gui).editor_selectionbox@ == old(gui).editor_selectionbox@.update(0, after)
            &&& !b.is_list_visible ==> final(gui).selected_dropbox == 0 && after.wf() && box_list_shown(b, after)
            &&& b.is_list_visible ==> final(gui).selected_dropbox == -1 && after == (SelectionBox { is_list_visible: false, ..b })
            &&& *final(gui) == (Interface {
                editor_selectionbox: final(gui).editor_selectionbox,
                selected_dropbox: final(gui).selected_dropbox,
                ..*old(gui)
            })
        },
{
    if selection_index == 0 {
        if !gui.editor_selectionbox[0].is_list_visible {
            gui.editor_selectionbox[0].show_list();
            gui.selected_dropbox = 0;
        } else {
            gui.editor_selectionbox[0].hide_list();
            gui.selected_dropbox = -1;
        }
    }
}

/// Takes a click on row `selection_index` of the open drop-down list:
/// the entry it shows becomes the box's choice and the list closes. For
/// the weather list the map takes the weather chosen, is marked changed
/// and shows so in its name, and the redo stack is emptied.
pub fn dropdown_select(gui: &mut Interface, mapview: &mut MapView, editor_data: &mut EditorData, selection_index: usize)
    requires
        old(gui).selected_dropbox >= 0,
        old(gui).selected_dropbox < old(gui).editor_selectionbox@.len(),
        selection_index + old(gui).editor_selectionbox@[old(gui).selected_dropbox as int].start_index
            < old(gui).editor_selectionbox@[old(gui).selected_dropbox as int].list@.len(),
        old(mapview).wf(),
        old(mapview).record_ok(),
        old(editor_data).wf(),
        old(gui).selected_dropbox == 0 ==> old(gui).labels@.len() > LABEL_MAPNAME,
    ensures
        final(mapview).wf(),
        final(mapview).record_ok(),
        final(editor_data).wf(),
        ({
            let d = old(gui).selected_dropbox as int;
            let b = old(gui).editor_selectionbox@[d];
            let k = selection_index + b.start_index;
            let after = final(gui).editor_selectionbox@[d];
            let picked = Interface { editor_selectionbox: final(gui).editor_selectionbox, ..*old(gui) };
            &&& final(gui).editor_selectionbox@ == old(gui).editor_selectionbox@.update(d, after)
            &&& after == (SelectionBox { selected_index: k as usize, text: after.text, is_list_visible: false, ..b })
            &&& after.text@ == (if k == b.selected_index { b.text@ } else { b.list@[k]@ })
            &&& d == 0 ==> {
                let flags = change_flags(old(editor_data).did_map_change);
                let key = old(editor_data).current_index@;
                &&& final(mapview).fixed_weather == #[verifier::truncate] (k as u8)
                &&& *final(mapview) == (MapView { fixed_weather: final(mapview).fixed_weather, record: final(mapview).record,
                    ..*old(mapview) })
                &&& final(mapview).record.redo_stack().len() == 0
                &&& final(mapview).record.undo_stack() == old(mapview).record.undo_stack()
                &&& final(mapview).record.is_recording() == old(mapview).record.is_recording()
                &&& final(mapview).record.target() == old(mapview).record.target()
                &&& change_flags(final(editor_data).did_map_change)
                    == (if key_in(flags, key) { inserted(flags, key, true) } else { flags })
                &&& final(editor_data).maps == old(editor_data).maps
                &&& final(editor_data).x == old(editor_data).x
                &&& final(editor_data).y == old(editor_data).y
                &&& final(editor_data).group == old(editor_data).group
                &&& final(editor_data).current_index == old(editor_data).current_index
                &&& name_shown(picked, *final(gui), *final(editor_data))
            }
            &&& d != 0 ==> *final(mapview) == *old(mapview) && *final(editor_data) == *old(editor_data)
                && *final(gui) == picked
        }),
{
    let d = gui.selected_dropbox as usize;
    gui.editor_selectionbox[d].switch_list(selection_index);
    if d == 0 {
        mapview.fixed_weather = #[verifier::truncate] (gui.editor_selectionbox[d].selected_index as u8);
        editor_data.set_map_change();
        update_map_name(gui, editor_data);
        mapview.record.clear_redo();
    }
    gui.editor_selectionbox[d].hide_list();
}

/// Takes a click on the shown tileset list (`hit`, the button under the
/// pointer): when another sheet is chosen, its name goes on the tileset
/// panel's label, the panel shows it, and the list is hidden.
pub fn tileset_list_select(gui: &mut Interface, tileset: &mut Tileset, tilesheets: &Vec<TilesheetData>, tilesize: u32,
    hit: Option<usize>) -> (changed: bool)
    requires
        hit matches Some(i) ==> i < old(gui).tileset_list.selection_buttons@.len(),
        old(gui).tileset_list.view_index matches Some(v) ==> v < old(gui).tileset_list.selection_buttons@.len(),
        old(gui).tileset_list.start_view_index + old(gui).tileset_list.selection_buttons@.len() <= tilesheets@.len(),
        old(gui).labels@.len() > LABEL_TILESET,
        old(tileset).map.wf(),
        tilesize > 0,
        forall|k: int| 0 <= k < tilesheets@.len() ==> sheet_fits(#[trigger] tilesheets@[k].tile.tiles@, tilesize),
    ensures
        final(tileset).map.wf(),
        changed == (old(gui).tileset_list.visible && (hit matches Some(i)
            && old(gui).tileset_list.selected_tileset != old(gui).tileset_list.start_view_index + i)),
        !changed ==> *final(gui) == *old(gui) && *final(tileset) == *old(tileset),
        changed ==> {
            let picked = TilesetList { visible: true, scrollbar: old(gui).tileset_list.scrollbar, ..final(gui).tileset_list };
            let sheet = picked.selected_tileset;
            &&& list_picked(old(gui).tileset_list, picked, hit, true)
            &&& final(gui).tileset_list == list_hidden(picked)
            &&& final(gui).labels@ == old(gui).labels@.update(LABEL_TILESET as int, tilesheets@[sheet as int].name)
            &&& *final(gui) == (Interface { labels: final(gui).labels, tileset_list: final(gui).tileset_list, ..*old(gui) })
            &&& sheet_shown(*old(tileset), *final(tileset), tilesheets@, sheet, tilesize)
        },
{
    let total = tilesheets.len();
    assert(old(gui).tileset_list.start_view_index + old(gui).tileset_list.selection_buttons@.len() <= total);
    let changed = gui.tileset_list.select_list(hit);
    if changed {
        let sheet = gui.tileset_list.selected_tileset;
        gui.labels.set(LABEL_TILESET, tilesheets[sheet].name.clone());
        tileset.change_tileset(tilesheets, sheet, tilesize);
        gui.tileset_list.hide_list();
    }
    changed
}

/// Selects the tiles of the tileset panel between `start` and `end` (in
/// either order) and gives the map's selection preview their size.
pub fn select_tiles(tileset: &mut Tileset, mapview: &mut MapView, start: (u32, u32), end: (u32, u32)) -> (size: (u32, u32))
    requires
        (if start.0 > end.0 { start.0 - end.0 } else { end.0 - start.0 }) < u32::MAX,
        (if start.1 > end.1 { start.1 - end.1 } else { end.1 - start.1 }) < u32::MAX,
        old(mapview).preview_pos.0 < 32 && old(mapview).preview_pos.1 < 32,
    ensures
        final(tileset).select_start == (
            if start.0 > end.0 { end.0 } else { start.0 },
            if start.1 > end.1 { end.1 } else { start.1 },
        ),
        size.0 == (if start.0 > end.0 { start.0 - end.0 } else { end.0 - start.0 }) + 1,
        size.1 == (if start.1 > end.1 { start.1 - end.1 } else { end.1 - start.1 }) + 1,
        *final(tileset) == (Tileset { select_start: final(tileset).select_start, select_size: size, ..*old(tileset) }),
        *final(mapview) == (MapView {
            preview_size: size,
            preview_extent: (on_map_extent(old(mapview).preview_pos.0, size.0), on_map_extent(old(mapview).preview_pos.1, size.1)),
            ..*old(mapview)
        }),
{
    let size = tileset.set_selection(start, end);
    mapview.change_selection_preview_size(size);
    size
}

/// The label naming a tile position of the map.
pub open spec fn tile_pos_text(x: u32, y: u32) -> Seq<char> {
    "Tile [ X: "@ + decimal(x as nat) + " Y: "@ + decimal(y as nat) + " ]"@
}

/// The label that names the tile under the pointer.
pub const LABEL_TILEPOS: usize = 3;

/// `g1` and `v1` are `g0` and `v0` with tile `pos` shown under the
/// pointer (see `show_tile_pos`).
pub open spec fn tile_pos_shown(g0: Interface, g1: Interface, v0: MapView, v1: MapView, pos: (u32, u32)) -> bool {
    &&& g1.labels@ == g0.labels@.update(LABEL_TILEPOS as int, g1.labels@[LABEL_TILEPOS as int])
    &&& g1.labels@[LABEL_TILEPOS as int]@ == tile_pos_text(pos.0, pos.1)
    &&& g1 == (Interface { labels: g1.labels, ..g0 })
    &&& if (v0.preview_pos.0 != pos.0 || v0.preview_pos.1 != pos.1) && pos.0 < 32 && pos.1 < 32 {
        v1 == (MapView {
            preview_pos: pos,
            preview_extent: (on_map_extent(pos.0, v0.preview_size.0), on_map_extent(pos.1, v0.preview_size.1)),
            ..v0
        })
    } else {
        v1 == v0
    }
}

/// Shows tile position `pos` on the panel's label and moves the map's
/// selection preview there.
pub fn show_tile_pos(gui: &mut Interface, mapview: &mut MapView, pos: (u32, u32))
    requires
        old(gui).labels@.len() > LABEL_TILEPOS,
        old(mapview).preview_pos.0 < 32 && old(mapview).preview_pos.1 < 32,
    ensures
        tile_pos_shown(*old(gui), *final(gui), *old(mapview), *final(mapview), pos),
        final(mapview).preview_pos.0 < 32 && final(mapview).preview_pos.1 < 32,
{
    proof {
        reveal_strlit("Tile [ X: ");
        reveal_strlit(" Y: ");
        reveal_strlit(" ]");
    }
    let mut text = String::from_str("Tile [ X: ");
    push_decimal(&mut text, pos.0 as u64);
    text.append(" Y: ");
    push_decimal(&mut text, pos.1 as u64);
    text.append(" ]");
    assert(text@ =~= tile_pos_text(pos.0, pos.1));
    gui.labels.set(LABEL_TILEPOS, text);
    mapview.hover_selection_preview(pos);
}

/// What is left to do after a button of the properties tab was clicked.
pub enum PropertiesAction {
    /// Nothing.
    Nothing,
    /// Write every loaded map to its file.
    SaveAllMaps,
    /// Read every loaded map back from its file.
    ResetAllMaps,
}

/// Takes a click on button `button_index` of the properties tab: the
/// first asks for every map to be saved, the second for every map to be
/// read back, the third opens the preference window on its filled
/// general tab.
pub fn properties_button_select(gui: &mut Interface, button_index: usize) -> (action: PropertiesAction)
    requires
        old(gui).preference.wf(),
    ensures
        button_index == 0 ==> action is SaveAllMaps && *final(gui) == *old(gui),
        button_index == 1 ==> action is ResetAllMaps && *final(gui) == *old(gui),
        button_index > 2 ==> action is Nothing && *final(gui) == *old(gui),
        button_index == 2 ==> {
            let before = old(gui).preference;
            let after = final(gui).preference;
            &&& action is Nothing
            &&& after.wf()
            &&& after.is_open
            &&& after.selected_menu == PREF_TAB_GENERAL
            &&& tab_filled(after)
            &&& after.menu_button@ == ({
                let off = before.menu_button@.update(before.selected_menu as int,
                    menu_after_select(before.menu_button@[before.selected_menu as int], false));
                off.update(0, menu_after_select(off[0], true))
            })
            &&& after.buttons@ == all_redrawn(before.buttons@)
            &&& after.scrollbar.visible
            &&& track_of(after.scrollbar, 0)
            &&& after.scrollbar.cur_value == 0
            &&& after.config_data == before.config_data
            &&& *final(gui) == (Interface { preference: after, ..*old(gui) })
        },
{
    if button_index == 0 {
        PropertiesAction::SaveAllMaps
    } else if button_index == 1 {
        PropertiesAction::ResetAllMaps
    } else if button_index == 2 {
        gui.preference.open();
        open_preference_tab(&mut gui.preference);
        PropertiesAction::Nothing
    } else {
        PropertiesAction::Nothing
    }
}

/// What a press of the pointer last started: nothing, a selection on the
/// tileset panel, or a use of the tool on the map.
#[derive(Clone, Copy, Debug, PartialEq, Eq, Structural)]
pub enum PressType {
    PressNone,
    PressTileset,
    PressMap,
}

/// Where a press of the pointer goes.
#[derive(Clone, Copy, Debug, PartialEq, Eq, Structural)]
pub enum PointerTarget {
    /// The open dialog takes it.
    Dialog,
    /// The open preference window takes it.
    Preference,
    /// A scrollbar is held: nothing else takes it.
    Held,
    /// The panel and the map take it: the tileset panel (on the layer
    /// tab, when the pointer is over it) and the map (when the pointer is
    /// over it).
    Panel(bool, bool),
}

/// Whether a scrollbar of the panel is held (see `is_scrollbar_in_hold`).
pub open spec fn scrollbar_held(gui: Interface) -> bool {
    gui.tileset_list.scrollbar.in_hold || gui.scrollbar.in_hold
        || (gui.current_tab == TAB_PROPERTIES && gui.selected_dropbox >= 0
            && gui.editor_selectionbox@[gui.selected_dropbox as int].scrollbar.in_hold)
}

/// Where a press of the pointer goes, the pointer over the tileset panel
/// (`on_tileset`) or over the map (`on_map`) or neither.
pub open spec fn pointer_target(gui: Interface, on_tileset: bool, on_map: bool) -> PointerTarget {
    if gui.dialog is Some {
        PointerTarget::Dialog
    } else if gui.preference.is_open {
        PointerTarget::Preference
    } else if scrollbar_held(gui) {
        PointerTarget::Held
    } else {
        PointerTarget::Panel(on_tileset && gui.current_tab == TAB_LAYER, on_map)
    }
}

/// What a press going to `target` starts: a use of the tool on the map,
/// else a selection on the tileset panel, else the press kind `press`
/// stays.
pub open spec fn press_kind(target: PointerTarget, press: PressType) -> PressType {
    match target {
        PointerTarget::Panel(t, m) => if m { PressType::PressMap } else if t { PressType::PressTileset } else { press },
        _ => press,
    }
}

/// While a dialog is open it takes every press and every drag of the
/// pointer, wherever the pointer lies, and the press kind stays; with no
/// dialog, an open preference window does.
pub proof fn lemma_modal_windows_take_the_pointer(gui: Interface, on_tileset: bool, on_map: bool, press: PressType)
    ensures
        gui.dialog is Some ==> pointer_target(gui, on_tileset, on_map) == PointerTarget::Dialog
            && press_kind(pointer_target(gui, on_tileset, on_map), press) == press
            && drag_kind(gui, on_tileset, on_map, press) == DragTarget::Dialog,
        gui.dialog is None && gui.preference.is_open ==> pointer_target(gui, on_tileset, on_map) == PointerTarget::Preference
            && press_kind(pointer_target(gui, on_tileset, on_map), press) == press
            && drag_kind(gui, on_tileset, on_map, press) == DragTarget::Preference,
{
}

/// Decides where a press of the pointer goes (the scrollbar under the
/// pointer, if any, already held), and what the press starts: an open
/// dialog, then an open preference window, takes every press; a held
/// scrollbar takes it from everything else; else the tileset panel (on
/// the layer tab) and the map under the pointer (`on_tileset`,
/// `on_map`) take it, a press on the map starting a use of the tool and
/// one on the tileset panel a selection, the press kind `press`
/// staying otherwise.
pub fn press_target(gui: &Interface, on_tileset: bool, on_map: bool, press: PressType) -> (r: (PointerTarget, PressType))
    requires
        gui.current_tab == TAB_PROPERTIES && gui.selected_dropbox >= 0
            ==> gui.selected_dropbox < gui.editor_selectionbox@.len(),
    ensures
        r.0 == pointer_target(*gui, on_tileset, on_map),
        r.1 == press_kind(r.0, press),
        gui.dialog is Some ==> r.0 == PointerTarget::Dialog && r.1 == press,
        gui.dialog is None && gui.preference.is_open ==> r.0 == PointerTarget::Preference && r.1 == press,
{
    if gui.dialog.is_some() {
        return (PointerTarget::Dialog, press);
    }
    if gui.preference.is_open {
        return (PointerTarget::Preference, press);
    }
    if is_scrollbar_in_hold(gui) {
        return (PointerTarget::Held, press);
    }
    let tileset = on_tileset && gui.current_tab == TAB_LAYER;
    let kind = if on_map { PressType::PressMap } else if tileset { PressType::PressTileset } else { press };
    (PointerTarget::Panel(tileset, on_map), kind)
}

/// What a move of the pointer with the button down drags.
#[derive(Clone, Copy, Debug, PartialEq, Eq, Structural)]
pub enum DragTarget {
    /// The open dialog takes it.
    Dialog,
    /// The open preference window takes it.
    Preference,
    /// The selection on the tileset panel grows to the pointer.
    TilesetSelection,
    /// The tool is used on the map tile under the pointer.
    MapTool,
    /// The tileset list's scrollbar moves.
    ListScrollbar,
    /// The attribute list's scrollbar moves.
    AttributeScrollbar,
    /// The open drop-down list's scrollbar moves.
    DropdownScrollbar,
    /// Nothing moves.
    Nothing,
}

/// What a move of the pointer with the button down drags (see
/// `drag_target`).
pub open spec fn drag_kind(gui: Interface, on_tileset: bool, on_map: bool, press: PressType) -> DragTarget {
    if gui.dialog is Some {
        DragTarget::Dialog
    } else if gui.preference.is_open {
        DragTarget::Preference
    } else if !scrollbar_held(gui) {
        if on_tileset && press == PressType::PressTileset {
            DragTarget::TilesetSelection
        } else if on_map && press == PressType::PressMap {
            DragTarget::MapTool
        } else {
            DragTarget::Nothing
        }
    } else if gui.tileset_list.scrollbar.in_hold {
        DragTarget::ListScrollbar
    } else if gui.scrollbar.in_hold {
        DragTarget::AttributeScrollbar
    } else {
        DragTarget::DropdownScrollbar
    }
}

/// Decides what a move of the pointer with the button down drags: an
/// open dialog, then an open preference window, takes it; with no
/// scrollbar held, the pointer over the tileset panel grows a selection
/// begun there, and the pointer over the map uses the tool when the
/// press began on the map (`press`); otherwise the held scrollbar moves:
/// the tileset list's, else the attribute list's, else the open
/// drop-down list's.
pub fn drag_target(gui: &Interface, on_tileset: bool, on_map: bool, press: PressType) -> (r: DragTarget)
    requires
        gui.current_tab == TAB_PROPERTIES && gui.selected_dropbox >= 0
            ==> gui.selected_dropbox < gui.editor_selectionbox@.len(),
    ensures
        r == drag_kind(*gui, on_tileset, on_map, press),
        gui.dialog is Some ==> r == DragTarget::Dialog,
        gui.dialog is None && gui.preference.is_open ==> r == DragTarget::Preference,
{
    if gui.dialog.is_some() {
        return DragTarget::Dialog;
    }
    if gui.preference.is_open {
        return DragTarget::Preference;
    }
    if !is_scrollbar_in_hold(gui) {
        if on_tileset && press == PressType::PressTileset {
            DragTarget::TilesetSelection
        } else if on_map && press == PressType::PressMap {
            DragTarget::MapTool
        } else {
            DragTarget::Nothing
        }
    } else if gui.tileset_list.scrollbar.in_hold {
        DragTarget::ListScrollbar
    } else if gui.scrollbar.in_hold {
        DragTarget::AttributeScrollbar
    } else {
        DragTarget::DropdownScrollbar
    }
}

/// A list box let go of: a pressed box is pressed no longer and takes
/// the look of a hovered or a plain box.
pub open spec fn box_released(b: SelectionBox) -> SelectionBox {
    if b.is_click {
        SelectionBox {
            is_click: false,
            box_color: box_look(b.is_hover, false).0,
            button_uv_y: box_look(b.is_hover, false).1,
            button_changed: true,
            ..b
        }
    } else {
        b
    }
}

/// What a release of the pointer does on the panel: the tool buttons are
/// let go of once one was pressed, the form buttons and the list boxes
/// once one of them was pressed, the panel's scrollbar always, and on the
/// properties tab the scrollbar of the drop-down list last opened.
pub fn release_input(gui: &mut Interface)
    requires
        old(gui).current_tab == TAB_PROPERTIES && old(gui).selected_dropbox >= 0
            ==> old(gui).selected_dropbox < old(gui).editor_selectionbox@.len(),
    ensures
        !old(gui).reset_tool_button ==> final(gui).buttons@ == old(gui).buttons@,
        old(gui).reset_tool_button ==> final(gui).buttons@.len() == old(gui).buttons@.len()
            && forall|i: int| 0 <= i < old(gui).buttons@.len()
                ==> #[trigger] final(gui).buttons@[i] == after_click(old(gui).buttons@[i], false),
        final(gui).editor_button@ == (if old(gui).reset_button { buttons_released(old(gui).editor_button@) }
            else { old(gui).editor_button@ }),
        final(gui).editor_selectionbox@.len() == old(gui).editor_selectionbox@.len(),
        forall|i: int| 0 <= i < old(gui).editor_selectionbox@.len() ==> {
            let b = if old(gui).reset_selectionbox { box_released(old(gui).editor_selectionbox@[i]) }
                else { old(gui).editor_selectionbox@[i] };
            let after = #[trigger] final(gui).editor_selectionbox@[i];
            if old(gui).current_tab == TAB_PROPERTIES && old(gui).selected_dropbox == i {
                &&& scrollbar_released(b.scrollbar, after.scrollbar)
                &&& after == (SelectionBox { scrollbar: after.scrollbar, ..b })
            } else {
                after == b
            }
        },
        scrollbar_released(old(gui).scrollbar, final(gui).scrollbar),
        *final(gui) == (Interface {
            buttons: final(gui).buttons,
            editor_button: final(gui).editor_button,
            editor_selectionbox: final(gui).editor_selectionbox,
            scrollbar: final(gui).scrollbar,
            ..*old(gui)
        }),
{
    gui.reset_tool_button_click();
    gui.release_click();
    gui.release_selectionbox_click();
    gui.scrollbar.release_scrollbar();
    if gui.current_tab == TAB_PROPERTIES && gui.selected_dropbox >= 0 {
        let d = gui.selected_dropbox as usize;
        gui.editor_selectionbox[d].scrollbar.release_scrollbar();
    }
}

/// A move of the pointer with the button down while a scrollbar of the
/// panel is held (see `drag_target`): the held bar follows the pointer
/// to pixel row `top` of its track and records whether the pointer is
/// over it (`in_hover`), and its list scrolls to the bar's new value:
/// the tileset list's (relabelled from the sheet names `names`), else
/// the attribute options', else, on the properties tab, the open
/// drop-down list's. With no bar held nothing changes.
pub fn scrollbar_drag(gui: &mut Interface, names: &Vec<String>, top: usize, in_hover: bool)
    requires
        old(gui).current_tab == TAB_PROPERTIES && old(gui).selected_dropbox >= 0
            ==> old(gui).selected_dropbox < old(gui).editor_selectionbox@.len(),
        old(gui).tileset_list.scrollbar.in_hold ==> {
            let l = old(gui).tileset_list;
            &&& track_of(l.scrollbar, l.scrollbar.max_value)
            &&& l.scrollbar.cur_value <= l.scrollbar.max_value
            &&& l.texts@.len() == l.selection_buttons@.len()
            &&& l.scrollbar.max_value + l.selection_buttons@.len() <= names@.len()
        },
        !old(gui).tileset_list.scrollbar.in_hold && old(gui).scrollbar.in_hold ==> {
            &&& track_of(old(gui).scrollbar, old(gui).scrollbar.max_value)
            &&& old(gui).scrollbar.cur_value <= old(gui).scrollbar.max_value
            &&& old(gui).tab_labels@.len() >= MAX_TAB_LABEL
            &&& old(gui).scrollbar.max_value + MAX_TAB_LABEL < u32::MAX
        },
        !old(gui).tileset_list.scrollbar.in_hold && !old(gui).scrollbar.in_hold
            && old(gui).current_tab == TAB_PROPERTIES && old(gui).selected_dropbox >= 0 ==> {
            let b = old(gui).editor_selectionbox@[old(gui).selected_dropbox as int];
            b.scrollbar.in_hold ==> {
                &&& track_of(b.scrollbar, b.scrollbar.max_value)
                &&& b.scrollbar.cur_value <= b.scrollbar.max_value
                &&& b.wf()
                &&& b.scrollbar.max_value + LIST_ROWS <= usize::MAX
            }
        },
    ensures
        old(gui).tileset_list.scrollbar.in_hold ==> {
            let s1 = bar_moved(old(gui).tileset_list.scrollbar, top, false);
            let moved = TilesetList { scrollbar: s1, ..old(gui).tileset_list };
            let listed = TilesetList { scrollbar: s1, ..final(gui).tileset_list };
            &&& if moved.visible && moved.start_view_index != s1.cur_value {
                list_relabelled(TilesetList { start_view_index: s1.cur_value, ..moved }, listed, names@)
            } else {
                listed == moved
            }
            &&& bar_hovered(s1, final(gui).tileset_list.scrollbar, in_hover)
            &&& *final(gui) == (Interface { tileset_list: final(gui).tileset_list, ..*old(gui) })
        },
        !old(gui).tileset_list.scrollbar.in_hold && old(gui).scrollbar.in_hold ==> {
            let s1 = bar_moved(old(gui).scrollbar, top, false);
            &&& tabs_scrolled(Interface { scrollbar: s1, ..*old(gui) }, Interface { scrollbar: s1, ..*final(gui) },
                s1.cur_value)
            &&& bar_hovered(s1, final(gui).scrollbar, in_hover)
        },
        !old(gui).tileset_list.scrollbar.in_hold && !old(gui).scrollbar.in_hold ==> {
            let d = old(gui).selected_dropbox as int;
            if old(gui).current_tab == TAB_PROPERTIES && old(gui).selected_dropbox >= 0
                && old(gui).editor_selectionbox@[d].scrollbar.in_hold {
                let b = old(gui).editor_selectionbox@[d];
                let after = final(gui).editor_selectionbox@[d];
                let s1 = bar_moved(b.scrollbar, top, false);
                &&& box_scrolled(SelectionBox { scrollbar: s1, ..b }, SelectionBox { scrollbar: s1, ..after }, s1.cur_value)
                &&& bar_hovered(s1, after.scrollbar, in_hover)
                &&& final(gui).editor_selectionbox@ == old(gui).editor_selectionbox@.update(d, after)
                &&& *final(gui) == (Interface { editor_selectionbox: final(gui).editor_selectionbox, ..*old(gui) })
            } else {
                *final(gui) == *old(gui)
            }
        },
{
    if gui.tileset_list.scrollbar.in_hold {
        proof {
            lemma_value_on_track(gui.tileset_list.scrollbar, top);
        }
        gui.tileset_list.scrollbar.move_scrollbar(top, false);
        let value = gui.tileset_list.scrollbar.cur_value;
        if gui.tileset_list.update_scroll(value) {
            gui.tileset_list.update_list(names);
        }
        gui.tileset_list.scrollbar.set_hover(in_hover);
    } else if gui.scrollbar.in_hold {
        proof {
            lemma_value_on_track(gui.scrollbar, top);
        }
        gui.scrollbar.move_scrollbar(top, false);
        let value = gui.scrollbar.cur_value;
        gui.update_scroll(value);
        gui.scrollbar.set_hover(in_hover);
    } else if gui.current_tab == TAB_PROPERTIES && gui.selected_dropbox >= 0 {
        let d = gui.selected_dropbox as usize;
        if gui.editor_selectionbox[d].scrollbar.in_hold {
            proof {
                lemma_value_on_track(gui.editor_selectionbox@[d as int].scrollbar, top);
            }
            gui.editor_selectionbox[d].scrollbar.move_scrollbar(top, false);
            let value = gui.editor_selectionbox[d].scrollbar.cur_value;
            gui.editor_selectionbox[d].update_list(value);
            gui.editor_selectionbox[d].scrollbar.set_hover(in_hover);
        }
    }
}

} // verus!
