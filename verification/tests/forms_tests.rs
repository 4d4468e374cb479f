use mapeditor::editor_attributes::{attribute_from_form, MapAttribute};
use mapeditor::editor_data::{map_name_label, EditorData};
use mapeditor::interface::scrollbar::{Scrollbar, TextureState};
use mapeditor::interface::textbox::{TextKey, Textbox};
use mapeditor::map_data::{Direction, MapData};
use mapeditor::map_view::MapView;
use mapeditor::text::{is_numeric, parse_or_zero};

fn strings(v: &[&str]) -> Vec<String> {
    v.iter().map(|s| s.to_string()).collect()
}

#[test]
fn numbers_in_text() {
    assert!(is_numeric("5"));
    assert!(is_numeric(" 42 "));
    assert!(is_numeric("-3"));
    assert!(!is_numeric("-"));
    assert!(!is_numeric("a"));
    assert!(!is_numeric(""));
    assert_eq!(parse_or_zero("17"), 17);
    assert_eq!(parse_or_zero(" 17"), 0);
    assert_eq!(parse_or_zero("x"), 0);
}

#[test]
fn numeric_field_typing() {
    let mut t = Textbox::new();
    t.enter_numeric(true, &TextKey::Other(Some("1".to_string()), true), 5, true);
    assert_eq!(t.data, "");
    t.set_select(true);
    t.enter_numeric(true, &TextKey::Other(Some("-".to_string()), true), 5, true);
    assert_eq!(t.data, "-");
    t.enter_numeric(true, &TextKey::Other(Some("-".to_string()), true), 5, true);
    assert_eq!(t.data, "-");
    t.enter_numeric(true, &TextKey::Other(Some("4".to_string()), true), 5, true);
    t.enter_numeric(false, &TextKey::Other(Some("9".to_string()), true), 5, true);
    t.enter_numeric(true, &TextKey::Other(Some("a".to_string()), true), 5, true);
    assert_eq!(t.data, "-4");
    for _ in 0..5 {
        t.enter_numeric(true, &TextKey::Other(Some("7".to_string()), true), 5, true);
    }
    assert_eq!(t.data, "-4777");
    t.enter_numeric(true, &TextKey::Backspace, 5, true);
    assert_eq!(t.data, "-477");
    t.enter_numeric(true, &TextKey::Delete, 5, true);
    assert_eq!(t.data, "");
    t.enter_numeric(true, &TextKey::Backspace, 5, true);
    assert_eq!(t.data, "");
    // Without negatives a minus sign is refused.
    t.enter_numeric(true, &TextKey::Other(Some("-".to_string()), true), 5, false);
    assert_eq!(t.data, "");
}

#[test]
fn free_text_typing() {
    let mut t = Textbox::new();
    t.set_select(true);
    t.enter_text(true, &TextKey::Other(Some("h".to_string()), true), 3);
    t.enter_text(true, &TextKey::Other(Some("\u{7f}".to_string()), false), 3);
    t.enter_text(true, &TextKey::Other(Some("i".to_string()), true), 3);
    t.enter_text(true, &TextKey::Other(Some("é".to_string()), true), 3);
    assert_eq!(t.data, "hié");
    // The limit counts bytes: "é" takes two.
    t.enter_text(true, &TextKey::Other(Some("x".to_string()), true), 3);
    assert_eq!(t.data, "hié");
    t.enter_text(true, &TextKey::Backspace, 3);
    assert_eq!(t.data, "hi");
    t.set_select(false);
    t.enter_text(true, &TextKey::Delete, 3);
    assert_eq!(t.data, "hi");
}

#[test]
fn attribute_forms() {
    assert_eq!(attribute_from_form(0, &vec![]), MapAttribute::Blocked);
    assert_eq!(
        attribute_from_form(1, &strings(&["-2", "3", "x", "7", "8"])),
        MapAttribute::Warp(-2, 3, 0, 7, 8)
    );
    assert_eq!(attribute_from_form(1, &strings(&["4", "5"])), MapAttribute::Warp(4, 5, 0, 0, 0));
    assert_eq!(
        attribute_from_form(1, &strings(&["1", "2", "3", "4", "5", "6", "9"])),
        MapAttribute::Warp(9, 2, 3, 4, 5)
    );
    assert_eq!(attribute_from_form(2, &strings(&["a sign"])), MapAttribute::Sign("a sign".to_string()));
    assert_eq!(attribute_from_form(5, &vec![]), MapAttribute::Walkable);
}

#[test]
fn zone_settings_from_fields() {
    let mut view = MapView::new(20);
    view.set_zone_setting(1, 0, "12");
    assert_eq!(view.map_zone_setting[1].max_npc, 12);
    view.set_zone_setting(1, 0, "no");
    assert_eq!(view.map_zone_setting[1].max_npc, 0);
    view.set_zone_setting(1, 3, "40");
    assert_eq!(view.map_zone_setting[1].npc_id, [None, None, Some(40), None, None]);
    view.set_zone_setting(1, 3, "");
    assert_eq!(view.map_zone_setting[1].npc_id, [None; 5]);
    assert_eq!(view.map_zone_setting[0].max_npc, 0);
}

#[test]
fn map_titles_and_unsaved_list() {
    assert_eq!(map_name_label(0, -3, 2, false), "Map [ X: 0 Y: -3 Group: 2 ]");
    assert_eq!(map_name_label(10, 1, 0, true), "Map [ X: 10 Y: 1 Group: 0 ] Unsaved");
    let mut e = EditorData::new(MapData::default());
    assert!(e.unsaved_maps().is_empty());
    assert!(!e.did_change(0, 0, 0));
    e.set_map_change();
    assert!(e.did_change(0, 0, 0));
    e.move_map(Direction::East);
    e.add_map(e.current_index.clone(), MapData::default());
    e.add_map("5_5_0".to_string(), MapData::default());
    e.set_map_change();
    assert_eq!(e.unsaved_maps(), strings(&["0_0_0", "1_0_0"]));
    assert!(!e.did_change(5, 5, 0));
    assert!(!e.did_change(9, 9, 9));
}

#[test]
fn scrollbar_states() {
    let mut s = Scrollbar::new(200, 4, 75, 5);
    assert_eq!(s.scrollbar_size, 15);
    assert_eq!(s.end_pos, 140);
    assert_eq!(s.length, 60);
    assert_eq!(s.image_uv_y, [0, 5, 12]);
    s.set_hover(true);
    assert!(!s.in_hover);
    s.show();
    s.set_hover(true);
    assert_eq!(s.image_uv_y, [16, 21, 28]);
    s.hold_scrollbar();
    assert!(s.in_hold);
    assert_eq!(s.image_uv_y, [32, 37, 44]);
    s.set_hover(false);
    assert_eq!(s.image_uv_y, [32, 37, 44]);
    s.release_scrollbar();
    assert_eq!(s.image_uv_y, [0, 5, 12]);
    s.set_texture_state(TextureState::Hover);
    assert_eq!(s.image_uv_y, [16, 21, 28]);
    s.cur_value = 3;
    s.update_scroll_max_value(100);
    assert_eq!(s.scrollbar_size, 5);
    assert_eq!(s.end_pos, 130);
    assert_eq!(s.cur_value, 0);
    s.cur_value = 2;
    s.update_scroll_max_value(100);
    assert_eq!(s.cur_value, 0);
    assert!(!s.in_hover);
    s.hide_scrollbar();
    assert!(!s.visible);
}

#[test]
fn unicode_white_space_is_trimmed() {
    assert!(is_numeric("\t7\n"));
    assert!(is_numeric("\u{a0}8\u{3000}"));
    assert!(!is_numeric("8\u{200b}"));
}
