use mapeditor::keys::{
    find_binding, get_key_name, set_key_modifier_value, shortcut_action, shortcut_key, EditorKey, KeyPress,
    KeybindData, Shortcut, EDITOR_KEY_COUNT,
};
use mapeditor::map_view::tools::{TOOL_DRAW, TOOL_ERASE, TOOL_EYEDROP, TOOL_FILL};

#[test]
fn command_names() {
    let names: Vec<&str> = (0..9).map(EditorKey::as_str).collect();
    assert_eq!(names, vec!["Load", "Save", "Undo", "Redo", "Draw", "Erase", "Fill", "Eyetool", "Error"]);
}

#[test]
fn key_names_list_the_modifiers() {
    assert_eq!(get_key_name("s", [false, false, false]), "s");
    assert_eq!(get_key_name("s", [true, false, false]), "Ctrl + s");
    assert_eq!(get_key_name("z", [true, true, false]), "Ctrl + Shift + z");
    assert_eq!(get_key_name("a", [false, true, true]), "Shift + Space + a");
    assert_eq!(get_key_name("q", [true, true, true]), "Ctrl + Shift + Space + q");
    assert_eq!(get_key_name("", [false, false, true]), "Space + ");
}

#[test]
fn default_bindings() {
    let k = KeybindData::default();
    assert_eq!(k.key_code.len(), EDITOR_KEY_COUNT);
    assert_eq!(k.key_code, vec!["o", "s", "z", "y", "d", "e", "f", "y"]);
    let ctrl = [true, false, false];
    let none = [false, false, false];
    assert_eq!(k.key_code_modifier, vec![ctrl, ctrl, ctrl, ctrl, none, none, none, none]);
}

#[test]
fn bindings_are_found_by_key_and_modifiers() {
    let k = KeybindData::default();
    assert_eq!(find_binding(&k, "y", [true, false, false]), Some(3));
    assert_eq!(find_binding(&k, "y", [false, false, false]), Some(7));
    assert_eq!(find_binding(&k, "y", [false, true, false]), None);
    assert_eq!(find_binding(&k, "q", [true, false, false]), None);
}

#[test]
fn actions_of_commands() {
    assert!(matches!(shortcut_action(0), Shortcut::Load));
    assert!(matches!(shortcut_action(1), Shortcut::Save));
    assert!(matches!(shortcut_action(2), Shortcut::Undo));
    assert!(matches!(shortcut_action(3), Shortcut::Redo));
    assert!(matches!(shortcut_action(4), Shortcut::Tool(t) if t == TOOL_DRAW));
    assert!(matches!(shortcut_action(5), Shortcut::Tool(t) if t == TOOL_ERASE));
    assert!(matches!(shortcut_action(6), Shortcut::Tool(t) if t == TOOL_FILL));
    assert!(matches!(shortcut_action(7), Shortcut::Tool(t) if t == TOOL_EYEDROP));
}

#[test]
fn modifiers_are_held_until_a_key_is_pressed() {
    let k = KeybindData::default();
    let mut held = [false; 3];
    set_key_modifier_value(&mut held, 1, true);
    assert_eq!(held, [false, true, false]);
    set_key_modifier_value(&mut held, 1, false);
    assert_eq!(held, [false, false, false]);

    assert!(shortcut_key(&mut held, &k, &KeyPress::Modifier(0, true)).is_none());
    assert_eq!(held, [true, false, false]);
    assert!(shortcut_key(&mut held, &k, &KeyPress::Other).is_none());
    assert_eq!(held, [true, false, false]);
    // Releasing a key calls nothing and keeps the modifiers.
    assert!(shortcut_key(&mut held, &k, &KeyPress::Bindable("z".to_string(), false)).is_none());
    assert_eq!(held, [true, false, false]);
    let r = shortcut_key(&mut held, &k, &KeyPress::Bindable("z".to_string(), true));
    assert!(matches!(r, Some(Shortcut::Undo)));
    assert_eq!(held, [false, false, false]);
    // Without Ctrl, y is the eyedropper.
    let r = shortcut_key(&mut held, &k, &KeyPress::Bindable("y".to_string(), true));
    assert!(matches!(r, Some(Shortcut::Tool(t)) if t == TOOL_EYEDROP));
    // An unbound key calls nothing but still clears the modifiers.
    held = [false, false, true];
    assert!(shortcut_key(&mut held, &k, &KeyPress::Bindable("k".to_string(), true)).is_none());
    assert_eq!(held, [false, false, false]);
}

#[test]
fn rebound_key_runs_its_command() {
    let mut config = KeybindData::default();
    config.key_code[4] = String::from("p");
    config.key_code_modifier[4] = [false, true, false];
    let mut hold = [false, true, false];
    let r = shortcut_key(&mut hold, &config, &KeyPress::Bindable(String::from("p"), true));
    assert!(matches!(r, Some(Shortcut::Tool(4))));
    // The old key of the command no longer runs it.
    let mut hold = [false; 3];
    assert!(shortcut_key(&mut hold, &config, &KeyPress::Bindable(String::from("d"), true)).is_none());
}
