use mapeditor::editor_attributes::MapAttribute;
use mapeditor::editor_data::EditorData;
use mapeditor::interface::panel::Interface;
use mapeditor::keys::KeybindData;
use mapeditor::map_data::MapData;
use mapeditor::map_input::{interact_with_map, leave_map, map_press, pointer_drag, pointer_press, show_current_map, LABEL_TILESET};
use mapeditor::map_data::{map_key, Direction};
use mapeditor::map_view::MapView;
use mapeditor::map_view::tools::{ToolOutcome, TAB_ATTRIBUTE, TAB_LAYER, TAB_PROPERTIES, TAB_ZONE, TOOL_ERASE, TOOL_EYEDROP};
use mapeditor::interface_input::{press_target, drag_target, PointerTarget, DragTarget, PressType, properties_button_select, PropertiesAction, dropdown_select, gui_button_select, map_written, select_tiles, selectionbox_select, show_tile_pos,
    tab_option_select, tileset_list_select, ButtonAction, BUTTON_TILESET, LABEL_TILEPOS, TOOL_LOAD, TOOL_REDO, TOOL_SAVE,
    TOOL_UNDO};
use mapeditor::interface::dialog::DialogType;
use mapeditor::resource::{tile_locations, TilesheetData};
use indexmap::IndexMap;
use mapeditor::texture::{Tile, TileSheet};
use mapeditor::tileset::Tileset;

fn names(prefix: &str, n: usize) -> Vec<String> {
    let mut v = Vec::new();
    for i in 0..n {
        v.push(format!("{}{}", prefix, i));
    }
    v
}

fn sheets() -> Vec<TilesheetData> {
    vec![
        TilesheetData {
            name: String::from("sheet0.png"),
            tile: TileSheet { tiles: vec![Tile { x: 0, y: 0, id: 0, tex_id: 3 }] },
        },
        TilesheetData {
            name: String::from("sheet1.png"),
            tile: TileSheet { tiles: vec![Tile { x: 40, y: 20, id: 0, tex_id: 5 }] },
        },
        TilesheetData { name: String::from("sheet2.png"), tile: TileSheet { tiles: vec![] } },
        TilesheetData { name: String::from("sheet3.png"), tile: TileSheet { tiles: vec![] } },
    ]
}

#[test]
fn drawing_marks_the_map_changed() {
    let sheets = sheets();
    let mut gui = Interface::new(&names("layer", 8), &names("sheet", 4), KeybindData::default(), 500);
    let mut tileset = Tileset::new(&sheets, 20);
    let mut view = MapView::new(20);
    let mut editor = EditorData::new(MapData::default());
    let locations = IndexMap::new();
    let out = interact_with_map((3, 4), &mut gui, &mut tileset, &mut view, &mut editor, &locations, &sheets, 20);
    assert!(matches!(out, ToolOutcome::MapChanged));
    assert_eq!(view.maps[0].get_tile((3, 4, 0)).texture_id, 3);
    assert!(editor.did_change(0, 0, 0));
    assert_eq!(gui.labels[2], "Map [ X: 0 Y: 0 Group: 0 ] Unsaved");
}

#[test]
fn eyedropper_brings_up_the_tile_sheet() {
    let sheets = sheets();
    let mut gui = Interface::new(&names("layer", 8), &names("sheet", 4), KeybindData::default(), 500);
    let mut tileset = Tileset::new(&sheets, 20);
    let mut view = MapView::new(20);
    let mut editor = EditorData::new(MapData::default());
    let locations = tile_locations(&sheets);
    view.maps[0].set_tile((6, 6, 0), mapeditor::tile_map::TileData {
        texture_id: 5,
        texture_layer: 0,
        color: mapeditor::color::Color::rgba(255, 255, 255, 255),
    });
    gui.current_tool = TOOL_EYEDROP;
    let out = interact_with_map((6, 6), &mut gui, &mut tileset, &mut view, &mut editor, &locations, &sheets, 20);
    assert!(matches!(out, ToolOutcome::PickTile(5)));
    assert_eq!(gui.labels[LABEL_TILESET], "sheet1.png");
    assert_eq!(gui.tileset_list.selected_tileset, 1);
    assert_eq!(tileset.selected_tile, 1);
    assert_eq!(tileset.select_start, (2, 18));
    assert_eq!(tileset.select_size, (1, 1));
    assert_eq!(tileset.map.get_tile((2, 18, 0)).texture_id, 5);
    assert_eq!(view.preview_size, (1, 1));
    assert!(!editor.did_change(0, 0, 0));

    // A tile whose location is unknown changes nothing on the panel.
    let out = interact_with_map((7, 7), &mut gui, &mut tileset, &mut view, &mut editor, &locations, &sheets, 20);
    assert!(matches!(out, ToolOutcome::PickTile(0)));
    assert_eq!(tileset.selected_tile, 1);
    assert_eq!(gui.labels[LABEL_TILESET], "sheet1.png");
}

#[test]
fn eyedropper_opens_the_attribute_form() {
    let sheets = sheets();
    let mut gui = Interface::new(&names("layer", 8), &names("sheet", 4), KeybindData::default(), 500);
    let mut tileset = Tileset::new(&sheets, 20);
    let mut view = MapView::new(20);
    let mut editor = EditorData::new(MapData::default());
    let locations = IndexMap::new();
    view.set_attribute((1, 2), MapAttribute::Warp(-3, 4, 5, 6, 7));
    gui.current_tab = TAB_ATTRIBUTE;
    gui.current_tool = TOOL_EYEDROP;
    let out = interact_with_map((1, 2), &mut gui, &mut tileset, &mut view, &mut editor, &locations, &sheets, 20);
    assert!(matches!(out, ToolOutcome::PickAttribute(MapAttribute::Warp(-3, 4, 5, 6, 7))));
    assert_eq!(gui.current_selected_area, 1);
    assert_eq!(gui.current_tab_data, 1);
    assert_eq!(gui.editor_textbox.len(), 5);
    assert_eq!(gui.editor_textbox[0].data, "-3");
    assert_eq!(gui.editor_textbox[4].data, "7");
    assert_eq!(gui.editor_label[0], "Map Location");

    // A walkable tile picks nothing.
    let out = interact_with_map((9, 9), &mut gui, &mut tileset, &mut view, &mut editor, &locations, &sheets, 20);
    assert!(matches!(out, ToolOutcome::Nothing));
    assert_eq!(gui.current_tab_data, 1);
}

#[test]
fn eyedropper_on_the_zone_tab_does_nothing() {
    let sheets = sheets();
    let mut gui = Interface::new(&names("layer", 8), &names("sheet", 4), KeybindData::default(), 500);
    let mut tileset = Tileset::new(&sheets, 20);
    let mut view = MapView::new(20);
    let mut editor = EditorData::new(MapData::default());
    let locations = IndexMap::new();
    gui.current_tab = TAB_ZONE;
    gui.current_tool = TOOL_EYEDROP;
    let out = interact_with_map((0, 0), &mut gui, &mut tileset, &mut view, &mut editor, &locations, &sheets, 20);
    assert!(matches!(out, ToolOutcome::Nothing));
    assert_eq!(gui.current_tab, TAB_ZONE);
    assert!(!editor.did_change(0, 0, 0));
}

#[test]
fn bar_buttons_take_tools_and_tabs() {
    let sheets = sheets();
    let layers = names("layer", 8);
    let mut gui = Interface::new(&layers, &names("sheet", 4), KeybindData::default(), 500);
    let tileset = Tileset::new(&sheets, 20);
    let mut view = MapView::new(20);
    let mut editor = EditorData::new(MapData::default());

    let a = gui_button_select(TOOL_ERASE, &mut gui, &tileset, &mut view, &mut editor, &layers, 300, 300);
    assert!(matches!(a, ButtonAction::Nothing));
    assert_eq!(gui.current_tool, TOOL_ERASE);

    let a = gui_button_select(BUTTON_TILESET, &mut gui, &tileset, &mut view, &mut editor, &layers, 300, 300);
    assert!(matches!(a, ButtonAction::Nothing));
    assert!(gui.tileset_list.visible);
    let _ = gui_button_select(BUTTON_TILESET, &mut gui, &tileset, &mut view, &mut editor, &layers, 300, 300);
    assert!(!gui.tileset_list.visible);

    let _ = gui_button_select(BUTTON_TILESET, &mut gui, &tileset, &mut view, &mut editor, &layers, 300, 300);
    let _ = gui_button_select(TAB_ATTRIBUTE, &mut gui, &tileset, &mut view, &mut editor, &layers, 300, 300);
    assert_eq!(gui.current_tab, TAB_ATTRIBUTE);
    assert!(!gui.tileset_list.visible);
    assert_eq!(gui.labels[4], "Attribute Properties");
    assert_eq!(view.preview_size, (1, 1));
    // The tileset button does nothing off the layer tab.
    let _ = gui_button_select(BUTTON_TILESET, &mut gui, &tileset, &mut view, &mut editor, &layers, 300, 300);
    assert!(!gui.tileset_list.visible);
    let _ = select_tiles(&mut Tileset::new(&sheets, 20), &mut view, (0, 0), (2, 1));
    assert_eq!(view.preview_size, (3, 2));
    let _ = gui_button_select(TAB_LAYER, &mut gui, &tileset, &mut view, &mut editor, &layers, 300, 300);
    assert_eq!(gui.current_tab, TAB_LAYER);
    // The layer tab gives the preview the size of the tileset panel's selection.
    assert_eq!(view.preview_size, (1, 1));
}

#[test]
fn bar_buttons_save_undo_and_load() {
    let sheets = sheets();
    let layers = names("layer", 8);
    let mut gui = Interface::new(&layers, &names("sheet", 4), KeybindData::default(), 500);
    let mut tileset = Tileset::new(&sheets, 20);
    let mut view = MapView::new(20);
    let mut editor = EditorData::new(MapData::default());
    let locations = IndexMap::new();

    view.record.set_undo_record();
    let _ = interact_with_map((3, 4), &mut gui, &mut tileset, &mut view, &mut editor, &locations, &sheets, 20);
    view.record.stop_record();
    assert_eq!(gui.labels[2], "Map [ X: 0 Y: 0 Group: 0 ] Unsaved");

    let a = gui_button_select(TOOL_UNDO, &mut gui, &tileset, &mut view, &mut editor, &layers, 300, 300);
    assert!(matches!(a, ButtonAction::Nothing));
    assert_eq!(view.maps[0].get_tile((3, 4, 0)).texture_id, 0);
    let _ = gui_button_select(TOOL_REDO, &mut gui, &tileset, &mut view, &mut editor, &layers, 300, 300);
    assert_eq!(view.maps[0].get_tile((3, 4, 0)).texture_id, 3);

    let a = gui_button_select(TOOL_SAVE, &mut gui, &tileset, &mut view, &mut editor, &layers, 300, 300);
    assert!(matches!(a, ButtonAction::WriteMap));
    assert!(editor.did_change(0, 0, 0));
    map_written(&mut gui, &mut editor);
    assert!(!editor.did_change(0, 0, 0));
    assert_eq!(gui.labels[2], "Map [ X: 0 Y: 0 Group: 0 ]");

    let a = gui_button_select(TOOL_LOAD, &mut gui, &tileset, &mut view, &mut editor, &layers, 300, 300);
    assert!(matches!(a, ButtonAction::Nothing));
    assert!(matches!(gui.dialog.as_ref().map(|d| d.dialog_type), Some(DialogType::TypeMapLoad)));
}

#[test]
fn tab_options_open_their_forms() {
    let sheets = sheets();
    let layers = names("layer", 8);
    let mut gui = Interface::new(&layers, &names("sheet", 4), KeybindData::default(), 500);
    let tileset = Tileset::new(&sheets, 20);
    let mut view = MapView::new(20);
    let mut editor = EditorData::new(MapData::default());

    let _ = gui_button_select(TAB_ATTRIBUTE, &mut gui, &tileset, &mut view, &mut editor, &layers, 300, 300);
    tab_option_select(&mut gui, &mut view, 1);
    assert_eq!(gui.current_tab_data, 1);
    assert_eq!(gui.current_selected_area, 1);
    assert_eq!(gui.editor_label.len(), 7);
    assert_eq!(gui.editor_textbox.len(), 5);
    assert_eq!(gui.editor_textbox[3].data, "0");

    let _ = gui_button_select(TAB_ZONE, &mut gui, &tileset, &mut view, &mut editor, &layers, 300, 300);
    view.map_zone_setting[2].max_npc = 7;
    view.map_zone_setting[2].npc_id[1] = Some(12);
    tab_option_select(&mut gui, &mut view, 2);
    assert_eq!(gui.current_tab_data, 2);
    assert_eq!(gui.editor_textbox[0].data, "7");
    assert_eq!(gui.editor_textbox[1].data, "");
    assert_eq!(gui.editor_textbox[2].data, "12");
}

#[test]
fn weather_list_changes_the_map() {
    let sheets = sheets();
    let layers = names("layer", 8);
    let mut gui = Interface::new(&layers, &names("sheet", 4), KeybindData::default(), 500);
    let tileset = Tileset::new(&sheets, 20);
    let mut view = MapView::new(20);
    let mut editor = EditorData::new(MapData::default());

    let _ = gui_button_select(TAB_PROPERTIES, &mut gui, &tileset, &mut view, &mut editor, &layers, 300, 300);
    selectionbox_select(&mut gui, 0);
    assert_eq!(gui.selected_dropbox, 0);
    assert!(gui.editor_selectionbox[0].is_list_visible);
    dropdown_select(&mut gui, &mut view, &mut editor, 2);
    assert_eq!(view.fixed_weather, 2);
    assert_eq!(gui.editor_selectionbox[0].text, "Snow");
    assert!(!gui.editor_selectionbox[0].is_list_visible);
    assert!(editor.did_change(0, 0, 0));
    assert_eq!(gui.labels[2], "Map [ X: 0 Y: 0 Group: 0 ] Unsaved");

    // The box closes its open list on a second click.
    selectionbox_select(&mut gui, 0);
    selectionbox_select(&mut gui, 0);
    assert_eq!(gui.selected_dropbox, -1);
    assert!(!gui.editor_selectionbox[0].is_list_visible);
}

#[test]
fn tileset_list_switches_the_sheet() {
    let sheets = sheets();
    let mut gui = Interface::new(&names("layer", 8), &names("sheet", 4), KeybindData::default(), 500);
    let mut tileset = Tileset::new(&sheets, 20);
    // A hidden list takes no click.
    assert!(!tileset_list_select(&mut gui, &mut tileset, &sheets, 20, Some(1)));
    gui.tileset_list.show();
    assert!(tileset_list_select(&mut gui, &mut tileset, &sheets, 20, Some(1)));
    assert_eq!(gui.labels[1], "sheet1.png");
    assert_eq!(tileset.selected_tile, 1);
    assert_eq!(tileset.map.get_tile((2, 18, 0)).texture_id, 5);
    assert!(!gui.tileset_list.visible);
}

#[test]
fn tile_selection_and_position() {
    let sheets = sheets();
    let mut gui = Interface::new(&names("layer", 8), &names("sheet", 4), KeybindData::default(), 500);
    let mut tileset = Tileset::new(&sheets, 20);
    let mut view = MapView::new(20);
    show_tile_pos(&mut gui, &mut view, (30, 4));
    assert_eq!(gui.labels[LABEL_TILEPOS], "Tile [ X: 30 Y: 4 ]");
    assert_eq!(view.preview_pos, (30, 4));
    let size = select_tiles(&mut tileset, &mut view, (5, 7), (2, 3));
    assert_eq!(size, (4, 5));
    assert_eq!(tileset.select_start, (2, 3));
    assert_eq!(view.preview_size, (4, 5));
    assert_eq!(view.preview_extent, (2, 5));
}

#[test]
fn properties_buttons() {
    let mut gui = Interface::new(&names("layer", 8), &names("sheet", 4), KeybindData::default(), 500);
    assert!(matches!(properties_button_select(&mut gui, 0), PropertiesAction::SaveAllMaps));
    assert!(matches!(properties_button_select(&mut gui, 1), PropertiesAction::ResetAllMaps));
    assert!(!gui.preference.is_open);
    assert!(matches!(properties_button_select(&mut gui, 2), PropertiesAction::Nothing));
    assert!(gui.preference.is_open);
    assert_eq!(gui.preference.selected_menu, 0);
}

#[test]
fn moving_to_a_linked_map_keeps_changes() {
    let sheets = sheets();
    let mut gui = Interface::new(&names("layer", 8), &names("sheet", 4), KeybindData::default(), 500);
    let mut tileset = Tileset::new(&sheets, 20);
    let mut view = MapView::new(20);
    let mut editor = EditorData::new(MapData::default());
    let locations = IndexMap::new();

    // An unchanged map is dropped when left.
    assert!(!leave_map(&mut editor, &view, Direction::East));
    assert_eq!((editor.x, editor.y), (1, 0));
    assert!(!editor.has_map(&map_key(0, 0, 0)));
    editor.add_map(map_key(1, 0, 0), MapData::default());
    show_current_map(&editor, &mut view, &mut gui, &[false; 8]);
    assert_eq!(gui.labels[2], "Map [ X: 1 Y: 0 Group: 0 ]");

    // A changed map keeps the main map's tiles under its key.
    let _ = interact_with_map((3, 4), &mut gui, &mut tileset, &mut view, &mut editor, &locations, &sheets, 20);
    assert!(!leave_map(&mut editor, &view, Direction::West));
    assert!(editor.has_map(&map_key(1, 0, 0)));
    editor.add_map(map_key(0, 0, 0), MapData::default());
    show_current_map(&editor, &mut view, &mut gui, &[false; 8]);
    assert_eq!(view.maps[0].get_tile((3, 4, 0)).texture_id, 0);
    assert!(leave_map(&mut editor, &view, Direction::East));
    show_current_map(&editor, &mut view, &mut gui, &[false; 8]);
    assert_eq!(view.maps[0].get_tile((3, 4, 0)).texture_id, 3);
    assert_eq!(gui.labels[2], "Map [ X: 1 Y: 0 Group: 0 ] Unsaved");
}

#[test]
fn pointer_routing() {
    let mut gui = Interface::new(&names("layer", 8), &names("sheet", 4), KeybindData::default(), 500);
    assert_eq!(press_target(&gui, true, false, PressType::PressNone), (PointerTarget::Panel(true, false), PressType::PressTileset));
    assert_eq!(press_target(&gui, false, true, PressType::PressTileset), (PointerTarget::Panel(false, true), PressType::PressMap));
    assert_eq!(press_target(&gui, false, false, PressType::PressMap), (PointerTarget::Panel(false, false), PressType::PressMap));
    assert_eq!(drag_target(&gui, true, false, PressType::PressTileset), DragTarget::TilesetSelection);
    assert_eq!(drag_target(&gui, true, false, PressType::PressMap), DragTarget::Nothing);
    assert_eq!(drag_target(&gui, false, true, PressType::PressMap), DragTarget::MapTool);
    gui.scrollbar.in_hold = true;
    assert_eq!(press_target(&gui, true, true, PressType::PressNone).0, PointerTarget::Held);
    assert_eq!(drag_target(&gui, false, true, PressType::PressMap), DragTarget::AttributeScrollbar);
    gui.scrollbar.in_hold = false;
    gui.current_tab = TAB_ATTRIBUTE;
    assert_eq!(press_target(&gui, true, false, PressType::PressNone), (PointerTarget::Panel(false, false), PressType::PressNone));
    gui.preference.is_open = true;
    assert_eq!(press_target(&gui, true, true, PressType::PressNone).0, PointerTarget::Preference);
    gui.open_dialog(DialogType::TypeExitConfirm, None, 300);
    assert_eq!(drag_target(&gui, true, true, PressType::PressMap), DragTarget::Dialog);
}

#[test]
fn a_press_on_the_map_can_be_undone() {
    let sheets = sheets();
    let mut gui = Interface::new(&names("layer", 8), &names("sheet", 4), KeybindData::default(), 500);
    let mut tileset = Tileset::new(&sheets, 20);
    let mut view = MapView::new(20);
    let mut editor = EditorData::new(MapData::default());
    let locations = IndexMap::new();
    let out = map_press((3, 4), &mut gui, &mut tileset, &mut view, &mut editor, &locations, &sheets, 20);
    assert!(matches!(out, ToolOutcome::MapChanged));
    assert_eq!(view.record.undo.len(), 1);
    assert_eq!(view.maps[0].get_tile((3, 4, 0)).texture_id, 3);
    let _ = map_press((5, 4), &mut gui, &mut tileset, &mut view, &mut editor, &locations, &sheets, 20);
    assert_eq!(view.record.undo.len(), 1);
    view.record.stop_record();
    view.apply_change(true);
    assert_eq!(view.maps[0].get_tile((3, 4, 0)).texture_id, 0);
    assert_eq!(view.maps[0].get_tile((5, 4, 0)).texture_id, 0);
    assert_eq!(view.record.undo.len(), 0);
}

#[test]
fn presses_go_to_the_tileset_or_the_map() {
    let sheets = sheets();
    let mut gui = Interface::new(&names("layer", 8), &names("sheet", 4), KeybindData::default(), 500);
    let mut tileset = Tileset::new(&sheets, 20);
    let mut view = MapView::new(20);
    let mut editor = EditorData::new(MapData::default());
    let locations = IndexMap::new();

    let (kind, out) = pointer_press(&mut gui, &mut tileset, &mut view, &mut editor, &locations, &sheets, 20,
        true, (2, 1), false, (0, 0), PressType::PressNone);
    assert_eq!(kind, PressType::PressTileset);
    assert!(matches!(out, ToolOutcome::Nothing));
    assert_eq!(tileset.select_start, (2, 1));
    assert_eq!(tileset.select_size, (1, 1));
    assert_eq!(view.preview_size, (1, 1));

    let top = mapeditor::resource::MAX_TILE_Y - 1;
    tileset.set_selection((0, top), (0, top));
    let (kind, out) = pointer_press(&mut gui, &mut tileset, &mut view, &mut editor, &locations, &sheets, 20,
        false, (0, 0), true, (3, 4), kind);
    assert_eq!(kind, PressType::PressMap);
    assert!(matches!(out, ToolOutcome::MapChanged));
    assert_eq!(view.maps[0].get_tile((3, 4, 0)).texture_id, 3);
    assert_eq!(view.record.undo.len(), 1);

    gui.scrollbar.in_hold = true;
    let (kind, out) = pointer_press(&mut gui, &mut tileset, &mut view, &mut editor, &locations, &sheets, 20,
        false, (0, 0), true, (5, 5), PressType::PressNone);
    assert_eq!(kind, PressType::PressNone);
    assert!(matches!(out, ToolOutcome::Nothing));
    assert_eq!(view.maps[0].get_tile((5, 5, 0)).texture_id, 0);
}

#[test]
fn drags_grow_the_selection_or_keep_drawing() {
    let sheets = sheets();
    let mut gui = Interface::new(&names("layer", 8), &names("sheet", 4), KeybindData::default(), 500);
    let mut tileset = Tileset::new(&sheets, 20);
    let mut view = MapView::new(20);
    let mut editor = EditorData::new(MapData::default());
    let locations = IndexMap::new();

    let (target, end, out) = pointer_drag(&mut gui, &mut tileset, &mut view, &mut editor, &locations, &sheets, 20,
        true, (3, 2), ((1, 4), (1, 4)), false, (0, 0), PressType::PressTileset);
    assert_eq!(target, DragTarget::TilesetSelection);
    assert_eq!(end, (3, 2));
    assert!(matches!(out, ToolOutcome::Nothing));
    assert_eq!(tileset.select_start, (1, 2));
    assert_eq!(tileset.select_size, (3, 3));
    assert_eq!(view.preview_size, (3, 3));

    let top = mapeditor::resource::MAX_TILE_Y - 1;
    tileset.set_selection((0, top), (0, top));
    view.record.set_undo_record();
    let (target, end, out) = pointer_drag(&mut gui, &mut tileset, &mut view, &mut editor, &locations, &sheets, 20,
        false, (0, 0), ((1, 4), (3, 2)), true, (6, 7), PressType::PressMap);
    assert_eq!(target, DragTarget::MapTool);
    assert_eq!(end, (3, 2));
    assert!(matches!(out, ToolOutcome::MapChanged));
    assert_eq!(view.maps[0].get_tile((6, 7, 0)).texture_id, 3);
    assert_eq!(gui.labels[3], "Tile [ X: 6 Y: 7 ]");
    assert_eq!(view.preview_pos, (6, 7));

    let (target, _, out) = pointer_drag(&mut gui, &mut tileset, &mut view, &mut editor, &locations, &sheets, 20,
        false, (0, 0), ((1, 4), (3, 2)), true, (8, 8), PressType::PressTileset);
    assert_eq!(target, DragTarget::Nothing);
    assert!(matches!(out, ToolOutcome::Nothing));
    assert_eq!(view.maps[0].get_tile((8, 8, 0)).texture_id, 0);
}
