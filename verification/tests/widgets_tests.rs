use indexmap::IndexMap;
use mapeditor::interface::button::{find_last_hit, Button};
use mapeditor::interface::color_selection::{ColorEditor, ColorSelection};
use mapeditor::interface::dialog::{Dialog, DialogButtonType, DialogType};
use mapeditor::interface::preference::{open_preference_tab, KeybindWindow, Preference, SettingData, PREF_TAB_KEYBIND};
use mapeditor::interface::selection_box::SelectionBox;
use mapeditor::interface::tileset_list::TilesetList;
use mapeditor::keys::{KeyPress, KeybindData};

fn names(n: usize) -> Vec<String> {
    (0..n).map(|i| format!("entry{}", i)).collect()
}

#[test]
fn button_rows() {
    let mut b = Button::new("Save");
    assert_eq!(b.label, "Save");
    assert_eq!(b.image_row, 0);
    b.set_hover(true);
    assert_eq!(b.image_row, 1);
    b.set_click(true);
    assert_eq!(b.image_row, 2);
    assert!(b.text_pressed);
    b.set_hover(false);
    assert_eq!(b.image_row, 2);
    b.set_click(false);
    assert_eq!(b.image_row, 0);
    assert!(!b.text_pressed);
}

#[test]
fn last_hit_is_found() {
    assert_eq!(find_last_hit(&vec![false, true, false, true, false]), Some(3));
    assert_eq!(find_last_hit(&vec![false, false]), None);
    assert_eq!(find_last_hit(&vec![]), None);
}

#[test]
fn tileset_list_choice() {
    let mut l = TilesetList::new(&names(4));
    assert!(l.selection_buttons[0].is_selected);
    assert_eq!(l.texts[2], "entry2");
    // A hidden list takes no choice.
    assert!(!l.select_list(Some(2)));
    l.show();
    assert!(l.visible);
    assert!(l.scrollbar.visible);
    assert!(l.select_list(Some(2)));
    assert_eq!(l.selected_tileset, 2);
    assert!(!l.selection_buttons[0].is_selected);
    assert!(l.selection_buttons[2].is_selected);
    assert_eq!(l.selection_buttons[2].image_row, 2);
    assert!(!l.select_list(Some(2)));
    l.hover_selection(&vec![false, true, false, false]);
    assert_eq!(l.selection_buttons[1].image_row, 1);
    assert!(l.update_scroll(1));
    assert!(!l.update_scroll(1));
    let more = names(6);
    l.update_list(&more);
    assert_eq!(l.texts[0], "entry1");
    assert_eq!(l.view_index, Some(1));
    assert!(l.selection_buttons[1].is_selected);
    assert!(!l.selection_buttons[2].is_selected);
    l.hide_list();
    assert!(!l.visible);
}

#[test]
fn selection_box_lists() {
    let mut b = SelectionBox::new(names(7), 120);
    assert_eq!(b.text, "entry0");
    assert_eq!(b.list_text.len(), 5);
    assert!(b.list_exceed);
    b.show_list();
    assert!(b.is_list_visible);
    assert!(b.list_text[0].is_select);
    assert!(b.scrollbar.visible);
    b.update_list(2);
    assert_eq!(b.start_index, 2);
    assert_eq!(b.list_text[0].text, "entry2");
    assert!(!b.list_text[0].is_select);
    assert_eq!(b.click_list(&vec![false, true, false, true, false]), Some(3));
    b.switch_list(3);
    assert_eq!(b.selected_index, 5);
    assert_eq!(b.text, "entry5");
    b.hover_list(&vec![true, false, false, false, false]);
    assert!(b.list_text[0].is_hover);
    b.set_hover(true);
    assert_eq!(b.button_uv_y, 24);
    b.set_click(true);
    assert_eq!(b.button_uv_y, 48);
    b.set_click(false);
    assert_eq!(b.button_uv_y, 24);
    b.hide_list();
    assert!(!b.is_list_visible);
}

#[test]
fn selection_box_short_list_does_not_scroll() {
    let mut b = SelectionBox::new(names(3), 120);
    assert_eq!(b.list_text.len(), 3);
    assert!(!b.list_exceed);
    b.update_list(1);
    assert_eq!(b.start_index, 0);
    assert_eq!(b.list_text[0].text, "entry0");
}

#[test]
fn keybind_window_records_a_key() {
    let mut w = KeybindWindow::new();
    assert_eq!(w.text, "Please enter a Key");
    w.open_key(3);
    assert!(w.is_open);
    assert_eq!(w.key_index, 3);
    w.edit_key(&KeyPress::Modifier(0, true));
    w.edit_key(&KeyPress::Modifier(1, true));
    w.edit_key(&KeyPress::Bindable(String::from("k"), true));
    assert_eq!(w.key_code, Some(String::from("k")));
    assert_eq!(w.key_modifier, [true, true, false]);
    assert_eq!(w.text, "Ctrl + Shift + k");
    w.edit_key(&KeyPress::Other);
    assert_eq!(w.text, "Ctrl + Shift + k");
    assert_eq!(w.click_buttons(&vec![false, true]), Some(1));
    assert!(w.buttons[1].in_click);
    w.release_click();
    assert!(!w.buttons[1].in_click);
    w.close_key();
    assert!(!w.is_open);
}

#[test]
fn preference_tabs() {
    let mut p = Preference::new(KeybindData::default(), 300);
    assert!(p.menu_button[0].is_selected);
    open_preference_tab(&mut p);
    assert_eq!(p.setting_data.len(), 3);
    match &p.setting_data[1] {
        SettingData::Checkbox(c) => assert_eq!(c.text, "Hide Something?"),
        SettingData::Empty => panic!("a checkbox was expected"),
    }
    p.open();
    assert!(p.is_open);
    assert!(p.select_menu_button(&vec![false, true]));
    assert_eq!(p.selected_menu, PREF_TAB_KEYBIND);
    assert!(!p.select_menu_button(&vec![false, true]));
    open_preference_tab(&mut p);
    assert_eq!(p.key_list.len(), 8);
    assert_eq!(p.key_list[0].text, "Load");
    assert_eq!(p.key_list[1].key_string, "Ctrl + s");
    assert_eq!(p.key_list[4].key_string, "d");
    assert!(p.setting_data.is_empty());
    assert_eq!(p.select_keylist(&vec![false, false, true, false, false, false, false, false]), Some(2));
    p.config_data.key_code[4] = String::from("q");
    p.update_key_list(4);
    assert_eq!(p.key_list[4].key_string, "q");
    p.keywindow.open_key(4);
    assert_eq!(p.click_buttons(&vec![true, false, false]), None);
    assert_eq!(p.select_keylist(&vec![true; 8]), None);
    p.keywindow.close_key();
    assert_eq!(p.click_buttons(&vec![true, false, true]), Some(2));
    assert!(p.buttons[2].in_click);
    p.release_click();
    assert!(!p.buttons[2].in_click);
    p.reset_preference();
    assert_eq!(p.config_data.key_code[4], "d");
    assert_eq!(p.key_list[4].key_string, "d");
    p.close();
    assert!(!p.is_open);
    assert!(!p.scrollbar.visible);
}

#[test]
fn save_dialog_lists_unsaved_maps() {
    let mut data = IndexMap::new();
    data.insert(String::from("0_0_0"), true);
    data.insert(String::from("1_0_0"), false);
    data.insert(String::from("0_1_0"), true);
    let d = Dialog::new(DialogType::TypeMapSave, Some(data), 100);
    assert_eq!(d.editor_data, vec![String::from("0_0_0"), String::from("0_1_0")]);
    assert_eq!(d.content_text, vec![String::from("0_0_0"), String::from("0_1_0"), String::new(), String::new()]);
    assert_eq!(d.buttons.len(), 3);
    assert_eq!(d.buttons[1].label, "Don't Save");
    assert_eq!(d.message, "Would you like to save the changes to the following map/s?");
    assert_eq!(d.scrollbar.max_value, 0);
}

#[test]
fn save_dialog_scrolls() {
    let mut data = IndexMap::new();
    for i in 0..6 {
        data.insert(format!("{}_0_0", i), true);
    }
    let mut d = Dialog::new(DialogType::TypeMapSave, Some(data), 100);
    assert_eq!(d.scrollbar.max_value, 2);
    assert!(d.update_scroll(2));
    d.update_list();
    assert_eq!(d.content_text[0], "2_0_0");
    assert_eq!(d.content_text[3], "5_0_0");
    assert!(!d.update_scroll(2));
}

#[test]
fn load_dialog_fields_and_buttons() {
    let mut d = Dialog::new(DialogType::TypeMapLoad, None, 100);
    assert_eq!(d.content_text, vec![String::from("X"), String::from("Y"), String::from("Group")]);
    assert_eq!(d.editor_textbox.len(), 3);
    d.select_text(&vec![false, true, false]);
    assert_eq!(d.editing_index, 1);
    assert!(d.editor_textbox[1].is_selected);
    d.select_text(&vec![false, false, false]);
    assert_eq!(d.editing_index, 1);
    assert!(!d.editor_textbox[1].is_selected);
    d.hover_buttons(&vec![true, false]);
    assert_eq!(d.buttons[0].image_uv_y, 36);
    assert_eq!(d.click_buttons(&vec![false, true]), DialogButtonType::ButtonCancel);
    assert!(d.did_click);
    d.release_click();
    assert!(!d.buttons[1].in_click);
    assert_eq!(d.click_buttons(&vec![false, false]), DialogButtonType::ButtonNone);
}

#[test]
fn exit_dialog_offers_yes_and_no() {
    let d = Dialog::new(DialogType::TypeExitConfirm, None, 100);
    assert_eq!(d.buttons[0].label, "Yes");
    assert_eq!(d.buttons[1].button_type, DialogButtonType::ButtonCancel);
    assert!(d.editor_data.is_empty());
    assert!(d.scrollbar.visible);
}

#[test]
fn color_editor_shows_channels() {
    let e = ColorEditor::new([10, 200, 0, 255], false);
    assert_eq!(e.label, vec![String::from("R"), String::from("G"), String::from("B")]);
    assert_eq!(e.textbox.len(), 3);
    assert_eq!(e.textbox[1].data, "200");
    assert_eq!(e.button.label, "Apply");
    let with_alpha = ColorEditor::new([1, 2, 3, 4], true);
    assert_eq!(with_alpha.textbox[3].data, "4");
    let mut c = ColorSelection::new([1, 2, 3, 4], Some("Map"), true);
    assert_eq!(c.text, "Map");
    assert_eq!(c.image_color.b, 3);
    c.set_hover(true);
    assert_eq!(c.border_color.r, 200);
    c.color_editor.textbox[0].set_select(true);
    c.open_color_editor();
    assert!(c.color_editor.is_open);
    assert!(!c.color_editor.textbox[0].is_selected);
    c.close_color_editor();
    assert!(!c.color_editor.is_open);
}

#[test]
fn dragging_the_scrollbar_sets_its_value() {
    let mut s = mapeditor::interface::scrollbar::Scrollbar::new(300, 10, 100, 20);
    assert_eq!((s.end_pos, s.length, s.bar_pos), (220, 80, 300));
    // Not held: nothing moves.
    s.move_scrollbar(260, false);
    assert_eq!((s.bar_pos, s.cur_value), (300, 0));
    s.move_scrollbar(260, true);
    assert_eq!((s.bar_pos, s.cur_value), (260, 5));
    s.move_scrollbar(100, true);
    assert_eq!((s.bar_pos, s.cur_value), (220, 10));
    s.visible = true;
    s.hold_scrollbar();
    s.move_scrollbar(400, false);
    assert_eq!((s.bar_pos, s.cur_value), (300, 0));
}
