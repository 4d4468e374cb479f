use mapeditor::color::Color;
use mapeditor::editor_attributes::{InsertTypes, MapAttribute};
use mapeditor::interface::dialog::DialogType;
use mapeditor::interface::tabs::open_attribute_settings;
use mapeditor::interface::panel::Interface;
use mapeditor::interface::tabtext::TabText;
use mapeditor::interface::textbox::Textbox;
use mapeditor::interface::tool_button::{ButtonState, ToolButton};
use mapeditor::keys::KeybindData;
use mapeditor::map_view::MapZoneSetting;
use mapeditor::map_view::tools::{TAB_ATTRIBUTE, TAB_LAYER};
use mapeditor::resource::TilesheetData;
use mapeditor::texture::{Tile, TileSheet};
use mapeditor::tile_map::TileData;
use mapeditor::tileset::Tileset;

fn sheet(tiles: Vec<Tile>) -> TilesheetData {
    TilesheetData { name: String::from("sheet.png"), tile: TileSheet { tiles } }
}

fn names(prefix: &str, n: usize) -> Vec<String> {
    let mut v = Vec::new();
    for i in 0..n {
        v.push(format!("{}{}", prefix, i));
    }
    v
}

fn fresh_panel() -> Interface {
    Interface::new(&names("layer", 8), &names("sheet", 4), KeybindData::default(), 500)
}

fn panel(buttons: usize, labels: usize, fields: usize) -> Interface {
    let mut p = fresh_panel();
    let mut b = Vec::new();
    for i in 0..buttons {
        b.push(ToolButton::new(i));
    }
    b[0].set_state(ButtonState::Selected);
    let mut t = Vec::new();
    for _ in 0..labels {
        let mut l = TabText::new();
        l.init("option", 194);
        t.push(l);
    }
    let mut f = Vec::new();
    for _ in 0..fields {
        f.push(Textbox::new());
    }
    p.buttons = b;
    p.current_tool = 0;
    p.current_tab = TAB_LAYER;
    p.current_tab_data = 0;
    p.current_selected_area = 0;
    p.start_view = 0;
    p.tab_labels = t;
    p.selected_textbox = -1;
    p.editor_textbox = f;
    p
}

#[test]
fn tileset_lays_out_first_sheet() {
    let sheets = vec![sheet(vec![
        Tile { x: 0, y: 0, id: 0, tex_id: 0 },
        Tile { x: 20, y: 0, id: 1, tex_id: 7 },
        Tile { x: 40, y: 60, id: 2, tex_id: 9 },
    ])];
    let t = Tileset::new(&sheets, 20);
    assert!(t.map.can_render);
    assert_eq!(t.select_start, (0, 19));
    assert_eq!(t.select_size, (1, 1));
    let white = Color { r: 255, g: 255, b: 255, alpha: 255 };
    assert_eq!(t.map.get_tile((1, 19, 0)), TileData { texture_id: 7, texture_layer: 0, color: white });
    assert_eq!(t.map.get_tile((2, 16, 0)), TileData { texture_id: 9, texture_layer: 0, color: white });
    // A tile without an atlas id leaves the panel empty.
    assert_eq!(t.map.get_tile((0, 19, 0)).texture_id, 0);
}

#[test]
fn tileset_selection_either_corner() {
    let sheets = vec![sheet(vec![])];
    let mut t = Tileset::new(&sheets, 20);
    assert_eq!(t.set_selection((5, 7), (2, 3)), (4, 5));
    assert_eq!(t.select_start, (2, 3));
    assert_eq!(t.set_selection((1, 1), (1, 1)), (1, 1));
    assert_eq!(t.select_start, (1, 1));
}

#[test]
fn tileset_change_replaces_sheet() {
    let sheets = vec![
        sheet(vec![Tile { x: 0, y: 0, id: 0, tex_id: 3 }]),
        sheet(vec![Tile { x: 20, y: 20, id: 0, tex_id: 4 }]),
    ];
    let mut t = Tileset::new(&sheets, 20);
    assert_eq!(t.map.get_tile((0, 19, 0)).texture_id, 3);
    t.change_tileset(&sheets, 1, 20);
    assert_eq!(t.selected_tile, 1);
    assert_eq!(t.map.get_tile((0, 19, 0)).texture_id, 0);
    assert_eq!(t.map.get_tile((1, 18, 0)).texture_id, 4);
    // The sheet shown already changes nothing.
    t.change_tileset(&sheets, 1, 20);
    assert_eq!(t.map.get_tile((1, 18, 0)).texture_id, 4);
}

#[test]
fn panel_switches_tool() {
    let mut p = panel(4, 2, 0);
    p.set_tool(2);
    assert_eq!(p.current_tool, 2);
    assert_eq!(p.buttons[0].state, ButtonState::Normal);
    assert_eq!(p.buttons[0].image_row, 0);
    assert_eq!(p.buttons[2].state, ButtonState::Selected);
    assert_eq!(p.buttons[2].image_row, 2);
}

#[test]
fn panel_releases_buttons() {
    let mut p = panel(3, 0, 0);
    p.buttons[1].set_hover(true);
    p.buttons[1].set_click(true);
    p.reset_tool_button_click();
    assert!(p.buttons[1].in_click);
    p.reset_tool_button = true;
    p.reset_tool_button_click();
    assert!(!p.buttons[1].in_click);
    assert_eq!(p.buttons[1].image_row, 1);
}

#[test]
fn panel_tab_option_data() {
    let mut p = panel(1, 4, 0);
    p.current_tab_data = 3;
    assert_eq!(p.get_tab_option_data(), 3);
    p.current_tab = 7;
    assert_eq!(p.get_tab_option_data(), 0);
}

#[test]
fn panel_selects_layer_option() {
    let mut p = panel(1, 4, 0);
    p.tab_labels[0].set_select(true);
    p.select_tab_option(2);
    assert_eq!(p.current_selected_area, 2);
    assert_eq!(p.current_tab_data, 2);
    assert!(!p.tab_labels[0].is_selected);
    assert!(p.tab_labels[2].is_selected);
    assert_eq!(p.tab_labels[2].button_uv_y, 40);
}

#[test]
fn panel_selects_scrolled_attribute() {
    let mut p = panel(1, 4, 0);
    p.current_tab = TAB_ATTRIBUTE;
    p.current_selected_area = -1;
    p.start_view = 5;
    p.select_tab_option(1);
    assert_eq!(p.current_selected_area, 1);
    assert_eq!(p.current_tab_data, 6);
    assert!(p.tab_labels[1].is_selected);
}

#[test]
fn panel_hidden_option_is_ignored() {
    let mut p = panel(1, 4, 0);
    p.tab_labels[3].close();
    p.select_tab_option(3);
    assert_eq!(p.current_selected_area, 0);
    assert_eq!(p.current_tab_data, 0);
}

#[test]
fn panel_textbox_focus() {
    let mut p = panel(1, 0, 3);
    p.select_textbox(Some(1));
    assert_eq!(p.selected_textbox, 1);
    assert!(p.editor_textbox[1].is_selected);
    p.select_textbox(Some(2));
    assert_eq!(p.selected_textbox, 2);
    assert!(!p.editor_textbox[1].is_selected);
    assert!(p.editor_textbox[2].is_selected);
    p.select_textbox(None);
    assert_eq!(p.selected_textbox, -1);
    assert!(!p.editor_textbox[2].is_selected);
}

#[test]
fn panel_fills_zone_form() {
    let mut p = panel(1, 0, 6);
    let mut setting = MapZoneSetting::default();
    setting.max_npc = 12;
    setting.npc_id[1] = Some(305);
    p.open_zone_settings(&setting);
    assert_eq!(p.editor_textbox[0].data, "12");
    assert_eq!(p.editor_textbox[1].data, "");
    assert_eq!(p.editor_textbox[2].data, "305");
    assert_eq!(p.editor_textbox[5].data, "");
}

#[test]
fn panel_reads_attribute_form() {
    let mut p = panel(1, 0, 5);
    p.current_tab_data = 1;
    p.editor_textbox[0].input_text(String::from("3"));
    p.editor_textbox[1].input_text(String::from("-2"));
    p.editor_textbox[2].input_text(String::from("x"));
    p.editor_textbox[3].input_text(String::from("8"));
    p.editor_textbox[4].input_text(String::from("9"));
    assert_eq!(p.get_attribute_setting(), MapAttribute::Warp(3, -2, 0, 8, 9));
    p.current_tab_data = 2;
    assert_eq!(p.get_attribute_setting(), MapAttribute::Sign(String::from("3")));
    p.current_tab_data = 0;
    assert_eq!(p.get_attribute_setting(), MapAttribute::Blocked);
}

#[test]
fn panel_starts_on_layers() {
    let p = fresh_panel();
    assert_eq!(p.labels[1], "sheet0");
    assert_eq!(p.labels[2], "Map [ X: 0 Y: 0 Group: 0 ]");
    assert_eq!(p.labels[3], "Tile [ X: 32 Y: 32 ]");
    assert_eq!(p.current_tool, 4);
    assert_eq!(p.current_tab, TAB_LAYER);
    assert_eq!(p.buttons.len(), 13);
    assert_eq!(p.buttons[4].state, ButtonState::Selected);
    assert_eq!(p.buttons[8].state, ButtonState::Selected);
    assert_eq!(p.buttons[5].state, ButtonState::Normal);
    assert_eq!(p.tab_labels.len(), 14);
    assert_eq!(p.tab_labels[0].text, "layer0");
    assert!(p.tab_labels[0].is_selected);
    assert_eq!(p.tab_labels[7].text, "layer7");
    assert!(p.tab_labels[7].is_visible);
    assert!(!p.tab_labels[8].is_visible);
    assert_eq!(p.tileset_list.texts[3], "sheet3");
    assert_eq!(p.preference.setting_data.len(), 3);
    assert_eq!(p.selected_textbox, -1);
}

#[test]
fn panel_hover_and_click_tools() {
    let mut p = fresh_panel();
    let mut hovered = vec![false; 13];
    hovered[2] = true;
    p.hover_tool_button(&hovered);
    assert!(p.buttons[2].in_hover);
    assert_eq!(p.buttons[2].image_row, 1);
    let mut hits = vec![false; 13];
    hits[2] = true;
    hits[6] = true;
    assert_eq!(p.click_tool_button(&hits), Some(2));
    assert!(p.buttons[2].in_click);
    assert!(p.reset_tool_button);
    assert_eq!(p.click_tool_button(&vec![false; 13]), None);
}

#[test]
fn panel_switches_to_attribute_tab() {
    let mut p = fresh_panel();
    let mut view = mapeditor::map_view::MapView::new(20);
    let layers = names("layer", 8);
    p.set_tab(TAB_ATTRIBUTE, &layers, &mut view, 200, (1, 1));
    assert_eq!(p.current_tab, TAB_ATTRIBUTE);
    assert_eq!(p.buttons[8].state, ButtonState::Normal);
    assert_eq!(p.buttons[9].state, ButtonState::Selected);
    assert_eq!(p.tab_labels[0].text, "Blocked");
    assert_eq!(p.tab_labels[1].text, "Warp");
    assert_eq!(p.tab_labels[2].text, "Sign");
    assert_eq!(p.tab_labels[0].button_width, 180);
    assert!(p.tab_labels[0].is_selected);
    assert!(!p.tab_labels[3].is_visible);
    assert!(p.scrollbar.visible);
    assert_eq!(p.labels[4], "Attribute Properties");
    // Choosing the open tab again changes nothing.
    p.set_tab(TAB_ATTRIBUTE, &layers, &mut view, 200, (1, 1));
    assert_eq!(p.tab_labels[2].text, "Sign");
}

#[test]
fn panel_switches_to_zone_tab() {
    let mut p = fresh_panel();
    let mut view = mapeditor::map_view::MapView::new(20);
    view.map_zone_setting[0].max_npc = 7;
    view.map_zone_setting[0].npc_id[2] = Some(41);
    p.set_tab(10, &names("layer", 8), &mut view, 200, (1, 1));
    assert_eq!(p.tab_labels[4].text, "Zone 5");
    assert!(!p.tab_labels[5].is_visible);
    assert_eq!(p.labels[4], "Zone Settings");
    assert_eq!(p.editor_label.len(), 7);
    assert_eq!(p.editor_label[0], "Max NPC");
    assert_eq!(p.editor_textbox.len(), 6);
    assert_eq!(p.editor_textbox[0].data, "7");
    assert_eq!(p.editor_textbox[3].data, "41");
    assert_eq!(p.editor_textbox[1].data, "");
    assert!(!p.scrollbar.visible);
}

#[test]
fn panel_switches_to_properties_tab() {
    let mut p = fresh_panel();
    let mut view = mapeditor::map_view::MapView::new(20);
    view.fixed_weather = 2;
    p.set_tab(11, &names("layer", 8), &mut view, 200, (1, 1));
    assert_eq!(p.editor_button.len(), 3);
    assert_eq!(p.editor_button[2].label, "Preference");
    assert_eq!(p.editor_label[0], "Weather");
    assert_eq!(p.editor_selectionbox.len(), 1);
    assert_eq!(p.editor_selectionbox[0].selected_index, 2);
    assert_eq!(p.editor_selectionbox[0].text, "Snow");
    assert!(!p.tab_labels[0].is_visible);
}

#[test]
fn panel_scrolls_attribute_list() {
    let mut p = fresh_panel();
    let mut view = mapeditor::map_view::MapView::new(20);
    p.set_tab(TAB_ATTRIBUTE, &names("layer", 8), &mut view, 200, (1, 1));
    p.current_tab_data = 2;
    p.update_scroll(1);
    assert_eq!(p.start_view, 1);
    assert_eq!(p.tab_labels[0].text, "Warp");
    assert_eq!(p.tab_labels[1].text, "Sign");
    assert!(p.tab_labels[1].is_selected);
    assert!(!p.tab_labels[0].is_selected);
    assert_eq!(p.current_selected_area, 1);
}

#[test]
fn panel_tab_option_under_pointer() {
    let p = fresh_panel();
    let mut hits = vec![false; 14];
    hits[9] = true;
    assert_eq!(p.click_tab_option(&hits), None);
    hits[3] = true;
    assert_eq!(p.click_tab_option(&hits), Some(3));
}

#[test]
fn panel_opens_attribute_forms() {
    let mut p = fresh_panel();
    open_attribute_settings(&mut p, 2, &vec![]);
    assert_eq!(p.editor_label.len(), 7);
    assert_eq!(p.editor_label[4], "Tile Location");
    assert_eq!(p.editor_textbox.len(), 5);
    assert_eq!(p.editor_textbox[4].data, "0");
    let data = vec![InsertTypes::Int(-3), InsertTypes::Int(4), InsertTypes::UInt(5), InsertTypes::UInt(6), InsertTypes::UInt(7)];
    open_attribute_settings(&mut p, 2, &data);
    assert_eq!(p.editor_textbox[0].data, "-3");
    assert_eq!(p.editor_textbox[2].data, "5");
    open_attribute_settings(&mut p, 3, &vec![InsertTypes::Str(String::from("hello"))]);
    assert_eq!(p.editor_label[0], "Sign Text");
    assert_eq!(p.editor_textbox[0].data, "hello");
    open_attribute_settings(&mut p, 1, &vec![]);
    assert!(p.editor_textbox.is_empty());
    assert_eq!(p.selected_textbox, -1);
}

#[test]
fn panel_dialog_opens_once() {
    let mut p = fresh_panel();
    p.open_dialog(DialogType::TypeExitConfirm, None, 100);
    assert_eq!(p.dialog.as_ref().unwrap().buttons.len(), 2);
    p.open_dialog(DialogType::TypeMapLoad, None, 100);
    assert_eq!(p.dialog.as_ref().unwrap().dialog_type, DialogType::TypeExitConfirm);
    p.close_dialog();
    assert!(p.dialog.is_none());
}

#[test]
fn map_preview_stays_on_the_map() {
    let mut view = mapeditor::map_view::MapView::new(20);
    assert_eq!(view.preview_extent, (1, 1));
    view.change_selection_preview_size((4, 3));
    assert_eq!(view.preview_extent, (4, 3));
    view.hover_selection_preview((30, 5));
    assert_eq!(view.preview_pos, (30, 5));
    assert_eq!(view.preview_extent, (2, 3));
    // A position off the map is ignored.
    view.hover_selection_preview((32, 5));
    assert_eq!(view.preview_pos, (30, 5));
}

#[test]
fn linked_maps_unshade_under_pointer() {
    let mut view = mapeditor::map_view::MapView::new(20);
    let mut hits = vec![false; 8];
    hits[3] = true;
    assert_eq!(view.hover_linked_selection(&hits), Some(3));
    assert_eq!(view.link_map_selection[3].alpha, 0);
    assert_eq!(view.link_map_selection[2].alpha, 130);
    assert_eq!(view.hover_linked_selection(&vec![false; 8]), None);
    assert_eq!(view.link_map_selection[3].alpha, 130);
}

#[test]
fn layer_tab_sizes_preview() {
    let mut p = fresh_panel();
    let mut view = mapeditor::map_view::MapView::new(20);
    let layers = names("layer", 8);
    p.set_tab(TAB_ATTRIBUTE, &layers, &mut view, 200, (1, 1));
    p.set_tab(TAB_LAYER, &layers, &mut view, 200, (3, 2));
    assert_eq!(view.preview_size, (3, 2));
    assert_eq!(p.tab_labels[3].text, "layer3");
    assert!(p.tab_labels[0].is_selected);
    assert!(!p.scrollbar.visible);
}

#[test]
fn panel_drop_down_box_press_and_release() {
    let mut p = fresh_panel();
    let mut view = mapeditor::map_view::MapView::new(20);
    p.set_tab(11, &names("layer", 8), &mut view, 200, (1, 1));
    p.hover_selectionbox(&vec![true]);
    assert!(p.editor_selectionbox[0].is_hover);
    assert_eq!(p.editor_selectionbox[0].button_uv_y, 24);
    assert_eq!(p.click_selectionbox(&vec![true]), Some(0));
    assert!(p.editor_selectionbox[0].is_click);
    assert_eq!(p.editor_selectionbox[0].button_uv_y, 48);
    p.release_selectionbox_click();
    assert!(!p.editor_selectionbox[0].is_click);
    assert_eq!(p.editor_selectionbox[0].button_uv_y, 24);
    assert_eq!(p.click_selectionbox(&vec![false]), None);
}

#[test]
fn panel_hovers_shown_options_only() {
    let mut p = fresh_panel();
    let mut hovered = vec![false; 14];
    hovered[1] = true;
    hovered[10] = true;
    p.hover_tab_option(&hovered);
    assert!(p.tab_labels[1].is_hover);
    assert_eq!(p.tab_labels[1].button_uv_y, 20);
    assert!(!p.tab_labels[10].is_hover);
    // The chosen option keeps its row.
    hovered[0] = true;
    p.hover_tab_option(&hovered);
    assert!(p.tab_labels[0].is_hover);
    assert_eq!(p.tab_labels[0].button_uv_y, 40);
}

#[test]
fn panel_form_buttons() {
    let mut p = fresh_panel();
    let mut view = mapeditor::map_view::MapView::new(20);
    p.set_tab(11, &names("layer", 8), &mut view, 200, (1, 1));
    p.hover_buttons(&vec![false, true, false]);
    assert_eq!(p.editor_button[1].image_row, 1);
    assert_eq!(p.click_buttons(&vec![false, true, false]), Some(1));
    assert_eq!(p.editor_button[1].image_row, 2);
    p.release_click();
    assert_eq!(p.editor_button[1].image_row, 1);
}

#[test]
fn pointer_release_lets_go_of_the_panel() {
    let mut p = fresh_panel();
    let mut view = mapeditor::map_view::MapView::new(20);
    p.set_tab(11, &names("layer", 8), &mut view, 200, (1, 1));
    let mut hits = vec![false; 13];
    hits[2] = true;
    assert_eq!(p.click_tool_button(&hits), Some(2));
    assert_eq!(p.click_selectionbox(&vec![true]), Some(0));
    p.scrollbar.visible = true;
    p.scrollbar.hold_scrollbar();
    assert!(p.scrollbar.in_hold);
    p.selected_dropbox = 0;
    p.editor_selectionbox[0].scrollbar.visible = true;
    p.editor_selectionbox[0].scrollbar.hold_scrollbar();
    mapeditor::interface_input::release_input(&mut p);
    assert!(!p.buttons[2].in_click);
    assert!(!p.editor_selectionbox[0].is_click);
    assert_eq!(p.editor_selectionbox[0].button_uv_y, 0);
    assert!(!p.scrollbar.in_hold);
    assert_eq!(p.scrollbar.image_uv_y, [0, 5, 12]);
    assert!(!p.editor_selectionbox[0].scrollbar.in_hold);
    assert_eq!(p.editor_selectionbox[0].scrollbar.image_uv_y, [0, 5, 12]);
}

#[test]
fn dragging_a_held_scrollbar_scrolls_its_list() {
    let sheet_names = names("sheet", 20);
    let mut p = Interface::new(&names("layer", 8), &sheet_names, KeybindData::default(), 500);
    p.tileset_list.show();
    p.tileset_list.scrollbar.update_scroll_max_value(2);
    p.tileset_list.scrollbar.hold_scrollbar();
    assert!(p.tileset_list.scrollbar.in_hold);
    let end = p.tileset_list.scrollbar.end_pos;
    mapeditor::interface_input::scrollbar_drag(&mut p, &sheet_names, end, true);
    assert_eq!(p.tileset_list.scrollbar.cur_value, 2);
    assert_eq!(p.tileset_list.scrollbar.bar_pos, end);
    assert_eq!(p.tileset_list.start_view_index, 2);
    assert_eq!(p.tileset_list.texts[0], "sheet2");
    assert!(p.tileset_list.scrollbar.in_hover);

    // With no bar held nothing moves.
    p.tileset_list.scrollbar.release_scrollbar();
    let start = p.tileset_list.scrollbar.start_pos;
    mapeditor::interface_input::scrollbar_drag(&mut p, &sheet_names, start, false);
    assert_eq!(p.tileset_list.start_view_index, 2);
}
