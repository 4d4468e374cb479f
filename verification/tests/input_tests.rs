use mapeditor::editor_data::EditorData;
use mapeditor::input::{
    dialog_key_input, dialog_release_input, handle_key_input, interface_key_input, is_scrollbar_in_hold,
    preference_input, update_map_name, DialogAction, PreferenceAction, PreferenceClick,
};
use mapeditor::interface::preference::{open_preference_tab, Preference};
use mapeditor::interface::dialog::{Dialog, DialogButtonType, DialogType};
use mapeditor::interface::panel::Interface;
use mapeditor::interface::textbox::TextKey;
use mapeditor::keys::{KeyPress, KeybindData};
use mapeditor::map_data::MapData;
use mapeditor::map_view::MapView;

fn names(prefix: &str, n: usize) -> Vec<String> {
    (0..n).map(|i| format!("{}{}", prefix, i)).collect()
}

fn panel() -> Interface {
    Interface::new(&names("layer", 8), &names("sheet", 4), KeybindData::default(), 500)
}

fn typed(s: &str) -> TextKey {
    TextKey::Other(Some(String::from(s)), true)
}

#[test]
fn map_name_marks_unsaved() {
    let mut gui = panel();
    let mut data = EditorData::new(MapData::default());
    update_map_name(&mut gui, &data);
    assert_eq!(gui.labels[2], "Map [ X: 0 Y: 0 Group: 0 ]");
    data.set_map_change();
    update_map_name(&mut gui, &data);
    assert_eq!(gui.labels[2], "Map [ X: 0 Y: 0 Group: 0 ] Unsaved");
}

#[test]
fn scrollbar_hold_is_seen() {
    let mut gui = panel();
    assert!(!is_scrollbar_in_hold(&gui));
    gui.scrollbar.in_hold = true;
    assert!(is_scrollbar_in_hold(&gui));
}

#[test]
fn zone_form_sets_zone_and_marks_map() {
    let mut gui = panel();
    let mut view = MapView::new(20);
    let mut data = EditorData::new(MapData::default());
    gui.set_tab(10, &names("layer", 8), &mut view, 200, (1, 1));
    gui.current_tab_data = 1;
    gui.select_textbox(Some(0));
    assert_eq!(gui.editor_textbox[0].data, "0");
    assert!(interface_key_input(&TextKey::Delete, true, &mut gui, &mut view, &mut data));
    assert!(interface_key_input(&typed("1"), true, &mut gui, &mut view, &mut data));
    assert!(interface_key_input(&typed("2"), true, &mut gui, &mut view, &mut data));
    assert_eq!(gui.editor_textbox[0].data, "12");
    assert_eq!(view.map_zone_setting[1].max_npc, 12);
    assert_eq!(view.map_zone_setting[0].max_npc, 0);
    assert!(data.did_change(0, 0, 0));
    assert_eq!(gui.labels[2], "Map [ X: 0 Y: 0 Group: 0 ] Unsaved");
    gui.select_textbox(Some(2));
    assert!(interface_key_input(&typed("7"), true, &mut gui, &mut view, &mut data));
    assert_eq!(view.map_zone_setting[1].npc_id[1], Some(7));
    assert!(interface_key_input(&TextKey::Backspace, true, &mut gui, &mut view, &mut data));
    assert_eq!(view.map_zone_setting[1].npc_id[1], None);
}

#[test]
fn warp_form_takes_numbers() {
    let mut gui = panel();
    let mut view = MapView::new(20);
    let mut data = EditorData::new(MapData::default());
    gui.set_tab(9, &names("layer", 8), &mut view, 200, (1, 1));
    gui.current_tab_data = 1;
    mapeditor::interface::tabs::open_attribute_settings(&mut gui, 2, &vec![]);
    gui.select_textbox(Some(0));
    assert!(interface_key_input(&TextKey::Delete, true, &mut gui, &mut view, &mut data));
    assert!(interface_key_input(&typed("-"), true, &mut gui, &mut view, &mut data));
    assert!(interface_key_input(&typed("4"), true, &mut gui, &mut view, &mut data));
    assert!(interface_key_input(&typed("x"), true, &mut gui, &mut view, &mut data));
    assert_eq!(gui.editor_textbox[0].data, "-4");
    assert!(!data.did_change(0, 0, 0));
    // Without a field in use nothing is taken.
    gui.select_textbox(None);
    assert!(!interface_key_input(&typed("4"), true, &mut gui, &mut view, &mut data));
}

#[test]
fn keys_go_to_the_key_window_while_preferences_are_open() {
    let mut gui = panel();
    let mut view = MapView::new(20);
    gui.preference.open();
    gui.preference.selected_menu = 1;
    gui.preference.keywindow.open_key(2);
    assert!(handle_key_input(&KeyPress::Bindable(String::from("u"), true), &typed("u"), true, &mut gui, &mut view));
    assert_eq!(gui.preference.keywindow.key_code, Some(String::from("u")));
    assert_eq!(gui.preference.keywindow.text, "u");
}

#[test]
fn released_keys_are_ignored_outside_preferences() {
    let mut gui = panel();
    let mut view = MapView::new(20);
    assert!(!handle_key_input(&KeyPress::Other, &typed("1"), false, &mut gui, &mut view));
}

#[test]
fn load_dialog_types_and_reads_location() {
    let mut d = Dialog::new(DialogType::TypeMapLoad, None, 100);
    d.select_text(&vec![true, false, false]);
    dialog_key_input(&typed("-"), true, &mut d);
    dialog_key_input(&typed("3"), true, &mut d);
    d.select_text(&vec![false, true, false]);
    dialog_key_input(&typed("5"), true, &mut d);
    d.select_text(&vec![false, false, true]);
    dialog_key_input(&typed("-"), true, &mut d);
    dialog_key_input(&typed("2"), true, &mut d);
    assert_eq!(d.editor_textbox[2].data, "2");
    assert_eq!(dialog_release_input(&d, DialogButtonType::ButtonConfirm), DialogAction::LoadMap(-3, 5, 2));
    assert_eq!(dialog_release_input(&d, DialogButtonType::ButtonCancel), DialogAction::Close);
    assert_eq!(dialog_release_input(&d, DialogButtonType::ButtonDecline), DialogAction::Nothing);
}

#[test]
fn dialog_buttons_decide() {
    let exit = Dialog::new(DialogType::TypeExitConfirm, None, 100);
    assert_eq!(dialog_release_input(&exit, DialogButtonType::ButtonConfirm), DialogAction::Exit);
    let mut flags = indexmap::IndexMap::new();
    flags.insert(String::from("0_0_0"), true);
    let save = Dialog::new(DialogType::TypeMapSave, Some(flags), 100);
    assert_eq!(dialog_release_input(&save, DialogButtonType::ButtonConfirm), DialogAction::SaveAllAndExit);
    assert_eq!(dialog_release_input(&save, DialogButtonType::ButtonDecline), DialogAction::Exit);
    assert_eq!(dialog_release_input(&save, DialogButtonType::ButtonNone), DialogAction::Nothing);
}

#[test]
fn dialog_key_input_ignores_other_dialogs() {
    let mut d = Dialog::new(DialogType::TypeExitConfirm, None, 100);
    dialog_key_input(&typed("3"), true, &mut d);
    assert!(d.editor_textbox.is_empty());
}

fn click(buttons: Vec<bool>, menu: Vec<bool>, keys: Vec<bool>, kw: Vec<bool>) -> PreferenceClick {
    PreferenceClick { scrollbar_held: false, buttons, menu, keys, keywindow_buttons: kw }
}

#[test]
fn preference_rebinds_a_key() {
    let mut p = Preference::new(KeybindData::default(), 300);
    open_preference_tab(&mut p);
    p.open();
    // Open the bindings tab.
    let a = preference_input(&mut p, &click(vec![false; 3], vec![false, true], vec![false; 3], vec![false; 2]));
    assert_eq!(a, PreferenceAction::Nothing);
    assert_eq!(p.selected_menu, 1);
    assert_eq!(p.key_list.len(), 8);
    // Click the binding of "Draw".
    let mut keys = vec![false; 8];
    keys[4] = true;
    preference_input(&mut p, &click(vec![false; 3], vec![false; 2], keys, vec![false; 2]));
    assert!(p.keywindow.is_open);
    assert_eq!(p.keywindow.key_index, 4);
    p.keywindow.edit_key(&KeyPress::Modifier(1, true));
    p.keywindow.edit_key(&KeyPress::Bindable(String::from("p"), true));
    // Save in the key window.
    preference_input(&mut p, &click(vec![false; 3], vec![false; 2], vec![false; 8], vec![false, true]));
    assert!(!p.keywindow.is_open);
    assert_eq!(p.config_data.key_code[4], "p");
    assert_eq!(p.config_data.key_code_modifier[4], [false, true, false]);
    assert_eq!(p.key_list[4].key_string, "Shift + p");
    // Save the window.
    let a = preference_input(&mut p, &click(vec![false, false, true], vec![false; 2], vec![false; 8], vec![false; 2]));
    assert_eq!(a, PreferenceAction::SaveConfig);
    assert!(!p.is_open);
}

#[test]
fn preference_cancel_and_reset() {
    let mut p = Preference::new(KeybindData::default(), 300);
    open_preference_tab(&mut p);
    p.open();
    p.config_data.key_code[0] = String::from("x");
    let a = preference_input(&mut p, &click(vec![false, true, false], vec![false; 2], vec![false; 0], vec![false; 2]));
    assert_eq!(a, PreferenceAction::Nothing);
    assert_eq!(p.config_data.key_code[0], "o");
    assert!(p.is_open);
    let a = preference_input(&mut p, &click(vec![true, false, false], vec![false; 2], vec![false; 0], vec![false; 2]));
    assert_eq!(a, PreferenceAction::ReloadConfig);
    assert!(!p.is_open);
    // A closed window takes no click.
    let a = preference_input(&mut p, &click(vec![true, false, false], vec![false; 2], vec![false; 0], vec![false; 2]));
    assert_eq!(a, PreferenceAction::Nothing);
}

#[test]
fn key_window_cancel_keeps_binding() {
    let mut p = Preference::new(KeybindData::default(), 300);
    p.selected_menu = 1;
    open_preference_tab(&mut p);
    p.open();
    p.selected_menu = 1;
    p.keywindow.open_key(2);
    p.keywindow.edit_key(&KeyPress::Bindable(String::from("w"), true));
    preference_input(&mut p, &click(vec![false; 3], vec![false; 2], vec![false; 8], vec![true, false]));
    assert!(!p.keywindow.is_open);
    assert_eq!(p.config_data.key_code[2], "z");
}

#[test]
fn action_slots() {
    assert_eq!(mapeditor::input::action_index(mapeditor::input::Action::Quit), 0);
    assert_eq!(mapeditor::input::action_index(mapeditor::input::Action::Select), 1);
    assert_eq!(mapeditor::input::ACTION_SIZE, 3);
}
