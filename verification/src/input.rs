//! What the editor does with a key typed into a form and with a dialog
//! button released: the decisions of the input handlers, over the
//! widgets' state.

use vstd::prelude::*;
use crate::editor_attributes::MapAttribute;
use crate::editor_data::{EditorData, change_flags, key_in, key_place, inserted, map_title, map_name_label};
use crate::interface::dialog::{Dialog, DialogType, DialogButtonType, dialog_made, dialog_buttons, idle_dialog_button};
use indexmap::IndexMap;
use crate::interface::panel::Interface;
use crate::interface::textbox::{TextKey, numeric_after, text_after};
use crate::interface::preference::{Preference, KeybindWindow, edited, key_line, tab_filled, open_preference_tab, PREF_TAB_KEYBIND};
use crate::interface::button::{last_hit, button_after_click};
use crate::keys::EDITOR_KEY_COUNT;
use crate::keys::KeyPress;
use crate::map_view::{MapView, MapZoneSetting};
use crate::map_view::tools::{TAB_ATTRIBUTE, TAB_ZONE, TAB_PROPERTIES};
use crate::text::{field_value, parse_or_zero, triple_key};

verus! {

/// An action of the program's own input bindings.
#[derive(Clone, Copy, Debug, Hash, PartialEq, Eq)]
pub enum Action {
    Quit,
    Select,
}

/// How many slots the program's input bindings have.
pub const ACTION_SIZE: usize = 3;

/// The slot of an action among the input bindings.
pub fn action_index(action: Action) -> (i: usize)
    ensures
        i == (match action {
            Action::Quit => 0usize,
            Action::Select => 1usize,
        }),
        i < ACTION_SIZE,
{
    match action {
        Action::Quit => 0,
        Action::Select => 1,
    }
}

/// The label showing the map's name.
pub const LABEL_MAPNAME: usize = 2;

/// Whether the map with key `key` is loaded and changed since it was
/// loaded or saved.
pub open spec fn map_unsaved(flags: Seq<(Seq<char>, bool)>, key: Seq<char>) -> bool {
    key_in(flags, key) && flags[key_place(flags, key)].1
}

/// The panel after its map name label shows the current map of editor
/// `e`, marked unsaved when it changed; nothing else changes.
pub open spec fn name_shown(before: Interface, after: Interface, e: EditorData) -> bool {
    &&& after.labels@ == before.labels@.update(LABEL_MAPNAME as int, after.labels@[LABEL_MAPNAME as int])
    &&& after.labels@[LABEL_MAPNAME as int]@ == map_title(e.x as int, e.y as int, e.group as int,
        map_unsaved(change_flags(e.did_map_change), triple_key(e.x as int, e.y as int, e.group as int)))
    &&& after == (Interface { labels: after.labels, ..before })
}

/// Shows the current map's name, marked unsaved when it changed.
pub fn update_map_name(gui: &mut Interface, editor_data: &EditorData)
    requires
        editor_data.wf(),
        old(gui).labels@.len() > LABEL_MAPNAME,
    ensures
        name_shown(*old(gui), *final(gui), *editor_data),
{
    let unsaved = editor_data.did_change(editor_data.x, editor_data.y, editor_data.group);
    let name = map_name_label(editor_data.x, editor_data.y, editor_data.group, unsaved);
    gui.labels.set(LABEL_MAPNAME, name);
}

/// Whether a scrollbar is held: the tileset list's, the attribute list's,
/// or, on the properties tab, the open drop-down list's.
pub fn is_scrollbar_in_hold(gui: &Interface) -> (held: bool)
    requires
        gui.current_tab == TAB_PROPERTIES && gui.selected_dropbox >= 0
            ==> gui.selected_dropbox < gui.editor_selectionbox@.len(),
    ensures
        held == (gui.tileset_list.scrollbar.in_hold || gui.scrollbar.in_hold
            || (gui.current_tab == TAB_PROPERTIES && gui.selected_dropbox >= 0
                && gui.editor_selectionbox@[gui.selected_dropbox as int].scrollbar.in_hold)),
{
    if gui.tileset_list.scrollbar.in_hold {
        return true;
    } else if gui.scrollbar.in_hold {
        return true;
    } else if gui.current_tab == TAB_PROPERTIES && gui.selected_dropbox >= 0 {
        if gui.editor_selectionbox[gui.selected_dropbox as usize].scrollbar.in_hold {
            return true;
        }
    }
    false
}

/// The zone setting after field `field` of its form reads `text` (see
/// `MapView::set_zone_setting`).
pub open spec fn zone_after_field(s: MapZoneSetting, field: int, text: Seq<char>) -> (u64, Seq<Option<u64>>) {
    if field == 0 {
        (field_value(text) as u64, s.npc_id@)
    } else {
        (s.max_npc, s.npc_id@.update(field - 1, if text.len() > 0 { Some(field_value(text) as u64) } else { None }))
    }
}

/// Types a key (pressed or not) into the open tab's form. On the
/// attribute tab the warp's fields take numbers (the map's x and y may be
/// negative) and the sign's field text; on the zone tab the field's
/// number becomes the zone's setting, the map is marked changed and its
/// name shown again. Says whether a field took the key.
pub fn interface_key_input(key: &TextKey, pressed: bool, gui: &mut Interface, mapview: &mut MapView,
    database: &mut EditorData) -> (taken: bool)
    requires
        old(gui).selected_textbox < old(gui).editor_textbox@.len(),
        old(gui).current_tab_data < u32::MAX,
        old(gui).current_tab == TAB_ZONE ==> old(gui).current_tab_data < 5 && old(gui).selected_textbox <= 5,
        old(gui).labels@.len() > LABEL_MAPNAME,
        old(mapview).wf(),
        old(database).wf(),
    ensures
        final(mapview).wf(),
        final(database).wf(),
        ({
            let sel = old(gui).selected_textbox;
            let kind = old(gui).current_tab_data + 1;
            if old(gui).current_tab == TAB_ATTRIBUTE && (kind == 2 || kind == 3) && sel >= 0 {
                &&& taken
                &&& final(gui).editor_textbox@.len() == old(gui).editor_textbox@.len()
                &&& final(gui).editor_textbox@[sel as int].data@ == (if !pressed || !old(gui).editor_textbox@[sel as int].is_selected {
                    old(gui).editor_textbox@[sel as int].data@
                } else if kind == 2 {
                    numeric_after(old(gui).editor_textbox@[sel as int].data@, *key, 5, sel < 2)
                } else {
                    text_after(old(gui).editor_textbox@[sel as int].data@, *key, 100)
                })
                &&& final(gui).editor_textbox@[sel as int].is_selected == old(gui).editor_textbox@[sel as int].is_selected
                &&& forall|i: int| 0 <= i < old(gui).editor_textbox@.len() && i != sel
                    ==> #[trigger] final(gui).editor_textbox@[i] == old(gui).editor_textbox@[i]
                &&& final(gui).labels == old(gui).labels
                &&& *final(mapview) == *old(mapview)
                &&& *final(database) == *old(database)
            } else if old(gui).current_tab == TAB_ZONE && sel >= 0 {
                let typed = if pressed && old(gui).editor_textbox@[sel as int].is_selected {
                    numeric_after(old(gui).editor_textbox@[sel as int].data@, *key, 5, false)
                } else {
                    old(gui).editor_textbox@[sel as int].data@
                };
                let zone = old(gui).current_tab_data as int;
                let flags = change_flags(old(database).did_map_change);
                &&& taken
                &&& final(gui).editor_textbox@.len() == old(gui).editor_textbox@.len()
                &&& final(gui).editor_textbox@[sel as int].data@ == typed
                &&& forall|i: int| 0 <= i < old(gui).editor_textbox@.len() && i != sel
                    ==> #[trigger] final(gui).editor_textbox@[i] == old(gui).editor_textbox@[i]
                &&& (final(mapview).map_zone_setting@[zone].max_npc, final(mapview).map_zone_setting@[zone].npc_id@)
                    == zone_after_field(old(mapview).map_zone_setting@[zone], sel as int, typed)
                &&& forall|z: int| 0 <= z < 5 && z != zone ==> #[trigger] final(mapview).map_zone_setting@[z]
                    == old(mapview).map_zone_setting@[z]
                &&& final(mapview).maps == old(mapview).maps
                &&& final(mapview).map_zone == old(mapview).map_zone
                &&& change_flags(final(database).did_map_change) == (if key_in(flags, old(database).current_index@) {
                    inserted(flags, old(database).current_index@, true)
                } else {
                    flags
                })
                &&& final(gui).labels@[LABEL_MAPNAME as int]@ == map_title(old(database).x as int, old(database).y as int,
                    old(database).group as int, map_unsaved(change_flags(final(database).did_map_change),
                        triple_key(old(database).x as int, old(database).y as int, old(database).group as int)))
            } else {
                &&& !taken
                &&& *final(gui) == *old(gui)
                &&& *final(mapview) == *old(mapview)
                &&& *final(database) == *old(database)
            }
        }),
{
    if gui.current_tab == TAB_ATTRIBUTE {
        let attribute = MapAttribute::convert_to_plain_enum(gui.current_tab_data + 1);
        match attribute {
            MapAttribute::Warp(_, _, _, _, _) => {
                if gui.selected_textbox >= 0 {
                    let sel = gui.selected_textbox as usize;
                    gui.editor_textbox[sel].enter_numeric(pressed, key, 5, sel < 2);
                    return true;
                }
                false
            },
            MapAttribute::Sign(_) => {
                if gui.selected_textbox >= 0 {
                    let sel = gui.selected_textbox as usize;
                    gui.editor_textbox[sel].enter_text(pressed, key, 100);
                    return true;
                }
                false
            },
            _ => false,
        }
    } else if gui.current_tab == TAB_ZONE {
        if gui.selected_textbox >= 0 {
            let sel = gui.selected_textbox as usize;
            gui.editor_textbox[sel].enter_numeric(pressed, key, 5, false);
            let zone = gui.current_tab_data as usize;
            mapview.set_zone_setting(zone, sel, gui.editor_textbox[sel].data.as_str());
            database.set_map_change();
            update_map_name(gui, database);
            return true;
        }
        false
    } else {
        false
    }
}

/// Types a key (pressed or not) into the load dialog's field in use: the
/// map's x and y may be negative, its group not.
pub fn dialog_key_input(key: &TextKey, pressed: bool, dialog: &mut Dialog)
    requires
        old(dialog).dialog_type == DialogType::TypeMapLoad ==> old(dialog).editing_index < old(dialog).editor_textbox@.len(),
    ensures
        old(dialog).dialog_type != DialogType::TypeMapLoad ==> *final(dialog) == *old(dialog),
        old(dialog).dialog_type == DialogType::TypeMapLoad ==> {
            let i = old(dialog).editing_index as int;
            &&& final(dialog).editor_textbox@.len() == old(dialog).editor_textbox@.len()
            &&& final(dialog).editor_textbox@[i].data@ == (if pressed && old(dialog).editor_textbox@[i].is_selected {
                numeric_after(old(dialog).editor_textbox@[i].data@, *key, 5, i < 2)
            } else {
                old(dialog).editor_textbox@[i].data@
            })
            &&& final(dialog).editor_textbox@[i].is_selected == old(dialog).editor_textbox@[i].is_selected
            &&& forall|j: int| 0 <= j < old(dialog).editor_textbox@.len() && j != i
                ==> #[trigger] final(dialog).editor_textbox@[j] == old(dialog).editor_textbox@[j]
            &&& *final(dialog) == (Dialog { editor_textbox: final(dialog).editor_textbox, ..*old(dialog) })
        },
{
    if dialog.dialog_type == DialogType::TypeMapLoad {
        let i = dialog.editing_index;
        dialog.editor_textbox[i].enter_numeric(pressed, key, 5, i < 2);
    }
}

/// Handles a key event: `key` as bindings read it, `text` as fields read
/// it. While the preference window is open it takes every key: on its
/// bindings tab, with the key window open, the key is recorded there.
/// Otherwise only a pressed key counts: the load dialog's field in use
/// takes it when that dialog is open, else the open tab's form takes it
/// as `interface_key_input` does, without marking the map changed. Says
/// whether the key was taken.
pub fn handle_key_input(key: &KeyPress, text: &TextKey, pressed: bool, gui: &mut Interface, mapview: &mut MapView) -> (taken: bool)
    requires
        key matches KeyPress::Modifier(i, _) ==> i < 3,
        old(gui).selected_textbox < old(gui).editor_textbox@.len(),
        old(gui).current_tab_data < u32::MAX,
        old(gui).current_tab == TAB_ZONE ==> old(gui).current_tab_data < 5 && old(gui).selected_textbox <= 5,
        old(gui).dialog is Some && old(gui).dialog->0.dialog_type == DialogType::TypeMapLoad
            ==> old(gui).dialog->0.editing_index < old(gui).dialog->0.editor_textbox@.len(),
        old(mapview).wf(),
    ensures
        final(mapview).wf(),
        old(gui).preference.is_open ==> {
            &&& taken
            &&& *final(mapview) == *old(mapview)
            &&& (old(gui).preference.selected_menu == PREF_TAB_KEYBIND && old(gui).preference.keywindow.is_open) ==> {
                &&& edited(old(gui).preference.keywindow, *key, final(gui).preference.keywindow)
                &&& *final(gui) == (Interface {
                    preference: Preference { keywindow: final(gui).preference.keywindow, ..old(gui).preference },
                    ..*old(gui)
                })
            }
            &&& !(old(gui).preference.selected_menu == PREF_TAB_KEYBIND && old(gui).preference.keywindow.is_open)
                ==> *final(gui) == *old(gui)
        },
        !old(gui).preference.is_open && !pressed ==> !taken && *final(gui) == *old(gui) && *final(mapview) == *old(mapview),
        !old(gui).preference.is_open && pressed && old(gui).dialog is Some ==> {
            let d = old(gui).dialog->0;
            &&& taken == (d.dialog_type == DialogType::TypeMapLoad)
            &&& *final(mapview) == *old(mapview)
            &&& final(gui).dialog matches Some(f) && (d.dialog_type != DialogType::TypeMapLoad ==> f == d)
                && (d.dialog_type == DialogType::TypeMapLoad ==> {
                    let i = d.editing_index as int;
                    &&& f.editor_textbox@.len() == d.editor_textbox@.len()
                    &&& f.editor_textbox@[i].data@ == (if d.editor_textbox@[i].is_selected {
                        numeric_after(d.editor_textbox@[i].data@, *text, 5, i < 2)
                    } else {
                        d.editor_textbox@[i].data@
                    })
                    &&& forall|j: int| 0 <= j < d.editor_textbox@.len() && j != i
                        ==> #[trigger] f.editor_textbox@[j] == d.editor_textbox@[j]
                    &&& f == (Dialog { editor_textbox: f.editor_textbox, ..d })
                })
            &&& *final(gui) == (Interface { dialog: final(gui).dialog, ..*old(gui) })
        },
        !old(gui).preference.is_open && pressed && old(gui).dialog is None ==> ({
            let sel = old(gui).selected_textbox;
            let kind = old(gui).current_tab_data + 1;
            let typed = if old(gui).editor_textbox@[sel as int].is_selected {
                if old(gui).current_tab == TAB_ATTRIBUTE && kind == 3 {
                    text_after(old(gui).editor_textbox@[sel as int].data@, *text, 100)
                } else {
                    numeric_after(old(gui).editor_textbox@[sel as int].data@, *text, 5,
                        old(gui).current_tab == TAB_ATTRIBUTE && sel < 2)
                }
            } else {
                old(gui).editor_textbox@[sel as int].data@
            };
            let takes = sel >= 0 && (old(gui).current_tab == TAB_ZONE
                || (old(gui).current_tab == TAB_ATTRIBUTE && (kind == 2 || kind == 3)));
            &&& taken == takes
            &&& !takes ==> *final(gui) == *old(gui) && *final(mapview) == *old(mapview)
            &&& takes ==> {
                &&& final(gui).editor_textbox@.len() == old(gui).editor_textbox@.len()
                &&& final(gui).editor_textbox@[sel as int].data@ == typed
                &&& final(gui).editor_textbox@[sel as int].is_selected == old(gui).editor_textbox@[sel as int].is_selected
                &&& forall|i: int| 0 <= i < old(gui).editor_textbox@.len() && i != sel
                    ==> #[trigger] final(gui).editor_textbox@[i] == old(gui).editor_textbox@[i]
                &&& *final(gui) == (Interface { editor_textbox: final(gui).editor_textbox, ..*old(gui) })
            }
            &&& takes && old(gui).current_tab == TAB_ZONE ==> {
                let zone = old(gui).current_tab_data as int;
                &&& (final(mapview).map_zone_setting@[zone].max_npc, final(mapview).map_zone_setting@[zone].npc_id@)
                    == zone_after_field(old(mapview).map_zone_setting@[zone], sel as int, typed)
                &&& forall|z: int| 0 <= z < 5 && z != zone ==> #[trigger] final(mapview).map_zone_setting@[z]
                    == old(mapview).map_zone_setting@[z]
                &&& final(mapview).maps == old(mapview).maps
            }
            &&& takes && old(gui).current_tab != TAB_ZONE ==> *final(mapview) == *old(mapview)
        }),
{
    if gui.preference.is_open {
        if gui.preference.selected_menu == PREF_TAB_KEYBIND && gui.preference.keywindow.is_open {
            gui.preference.keywindow.edit_key(key);
        }
        return true;
    }
    if !pressed {
        return false;
    }
    if gui.dialog.is_some() {
        let mut result = false;
        match &mut gui.dialog {
            Some(dialog) => {
                if dialog.dialog_type == DialogType::TypeMapLoad {
                    dialog_key_input(text, true, dialog);
                    result = true;
                }
            },
            None => {},
        }
        return result;
    }
    if gui.current_tab == TAB_ATTRIBUTE {
        let attribute = MapAttribute::convert_to_plain_enum(gui.current_tab_data + 1);
        match attribute {
            MapAttribute::Warp(_, _, _, _, _) => {
                if gui.selected_textbox >= 0 {
                    let sel = gui.selected_textbox as usize;
                    gui.editor_textbox[sel].enter_numeric(true, text, 5, sel < 2);
                    return true;
                }
                false
            },
            MapAttribute::Sign(_) => {
                if gui.selected_textbox >= 0 {
                    let sel = gui.selected_textbox as usize;
                    gui.editor_textbox[sel].enter_text(true, text, 100);
                    return true;
                }
                false
            },
            _ => false,
        }
    } else if gui.current_tab == TAB_ZONE {
        if gui.selected_textbox >= 0 {
            let sel = gui.selected_textbox as usize;
            gui.editor_textbox[sel].enter_numeric(true, text, 5, false);
            let zone = gui.current_tab_data as usize;
            mapview.set_zone_setting(zone, sel, gui.editor_textbox[sel].data.as_str());
            return true;
        }
        false
    } else {
        false
    }
}

/// What the editor does after a click on the preference window.
#[derive(PartialEq, Eq, Structural, Debug, Clone, Copy)]
pub enum PreferenceAction {
    /// Nothing more.
    Nothing,
    /// The window was cancelled: read the bindings back from the
    /// configuration file.
    ReloadConfig,
    /// The window was saved: write the bindings to the configuration
    /// file.
    SaveConfig,
}

/// Where a click on the preference window landed: whether it took a
/// scrollbar, and which buttons, tabs, bindings and key window buttons
/// lie under the pointer.
pub struct PreferenceClick {
    pub scrollbar_held: bool,
    pub buttons: Vec<bool>,
    pub menu: Vec<bool>,
    pub keys: Vec<bool>,
    pub keywindow_buttons: Vec<bool>,
}

/// Takes a click on the open preference window. While the key window is
/// open only its buttons answer: Cancel closes it; Save binds the key
/// recorded, if any, to the binding edited, shows that binding's line
/// again, and closes it. Otherwise, unless a scrollbar took the click,
/// the window's buttons answer (Cancel closes the window, asking for the
/// bindings to be read back; Reset puts the default bindings back; Save
/// closes the window, asking for the bindings to be written), a tab
/// clicked opens and is filled, and on the bindings tab a binding clicked
/// opens the key window for it (the tabs and the Reset button lie apart
/// from the bindings, so a click that changed the tab or reset them
/// opens no key window).
pub fn preference_input(pref: &mut Preference, click: &PreferenceClick) -> (action: PreferenceAction)
    requires
        old(pref).wf(),
        click.buttons@.len() == old(pref).buttons@.len(),
        click.menu@.len() == old(pref).menu_button@.len(),
        click.keys@.len() == old(pref).key_list@.len(),
        click.keywindow_buttons@.len() == old(pref).keywindow.buttons@.len(),
        old(pref).keywindow.is_open ==> old(pref).keywindow.key_index < EDITOR_KEY_COUNT
            && old(pref).keywindow.key_index < old(pref).key_list@.len(),
    ensures
        final(pref).wf(),
        !old(pref).is_open ==> action == PreferenceAction::Nothing && *final(pref) == *old(pref),
        old(pref).is_open && old(pref).keywindow.is_open ==> {
            let found = last_hit(click.keywindow_buttons@);
            let w = old(pref).keywindow;
            &&& action == PreferenceAction::Nothing
            &&& found is None ==> *final(pref) == *old(pref)
            &&& found is Some ==> {
                &&& !final(pref).keywindow.is_open
                &&& final(pref).keywindow.buttons@ == w.buttons@.update(found->0 as int,
                    button_after_click(w.buttons@[found->0 as int], true))
                &&& final(pref).keywindow.reset_button
                &&& final(pref).keywindow == (KeybindWindow {
                    is_open: false, buttons: final(pref).keywindow.buttons, reset_button: true, ..w })
            }
            &&& (found is Some && (found->0 == 0 || w.key_code is None)) ==>
                *final(pref) == (Preference { keywindow: final(pref).keywindow, ..*old(pref) })
            &&& (found is Some && found->0 != 0 && w.key_code is Some) ==> {
                let k = w.key_index as int;
                &&& final(pref).config_data.key_code@ == old(pref).config_data.key_code@.update(k, w.key_code->0)
                &&& final(pref).config_data.key_code_modifier@ == old(pref).config_data.key_code_modifier@.update(k, w.key_modifier)
                &&& final(pref).key_list@ == old(pref).key_list@.update(k, final(pref).key_list@[k])
                &&& key_line(final(pref).key_list@[k], final(pref).config_data, k)
                &&& *final(pref) == (Preference {
                    keywindow: final(pref).keywindow,
                    config_data: final(pref).config_data,
                    key_list: final(pref).key_list,
                    ..*old(pref)
                })
            }
        },
        old(pref).is_open && !old(pref).keywindow.is_open && click.scrollbar_held
            ==> action == PreferenceAction::Nothing && *final(pref) == *old(pref),
        old(pref).is_open && !old(pref).keywindow.is_open && !click.scrollbar_held ==> {
            let pressed = last_hit(click.buttons@);
            &&& action == (match pressed {
                Some(0) => PreferenceAction::ReloadConfig,
                Some(1) => PreferenceAction::Nothing,
                Some(_) => PreferenceAction::SaveConfig,
                None => PreferenceAction::Nothing,
            })
            &&& pressed is Some ==> final(pref).reset_button
            &&& (pressed is Some && pressed->0 != 1) ==> !final(pref).is_open && !final(pref).scrollbar.visible
            &&& pressed is None || pressed->0 == 1 ==> final(pref).is_open
            &&& (pressed matches Some(1)) ==> {
                &&& forall|i: int| 0 <= i < EDITOR_KEY_COUNT ==> #[trigger] final(pref).config_data.key_code@[i]@
                    == crate::keys::default_key(i as usize)
                &&& forall|i: int| 0 <= i < EDITOR_KEY_COUNT ==> #[trigger] final(pref).config_data.key_code_modifier@[i]@
                    == seq![crate::keys::default_needs_ctrl(i as usize), false, false]
            }
            &&& !(pressed matches Some(1)) ==> final(pref).config_data == old(pref).config_data
            &&& final(pref).selected_menu == (match last_hit(click.menu@) {
                Some(m) => m,
                None => old(pref).selected_menu,
            })
            &&& ((last_hit(click.menu@) is Some && last_hit(click.menu@)->0 != old(pref).selected_menu)
                || pressed matches Some(1)) ==> tab_filled(*final(pref))
            &&& final(pref).keywindow.is_open == (final(pref).selected_menu == PREF_TAB_KEYBIND
                && (last_hit(click.menu@) is None || last_hit(click.menu@)->0 == old(pref).selected_menu)
                && !(pressed matches Some(1))
                && last_hit(click.keys@) is Some)
            &&& final(pref).keywindow.is_open ==> final(pref).keywindow.key_index == last_hit(click.keys@)->0
                && final(pref).keywindow.key_code is None
        },
{
    let _ = click.buttons.len();
    let _ = click.menu.len();
    let _ = click.keys.len();
    let _ = click.keywindow_buttons.len();
    proof {
        crate::interface::button::lemma_last_hit(click.buttons@);
        crate::interface::button::lemma_last_hit(click.menu@);
        crate::interface::button::lemma_last_hit(click.keys@);
        crate::interface::button::lemma_last_hit(click.keywindow_buttons@);
    }
    if !pref.is_open {
        return PreferenceAction::Nothing;
    }
    if pref.keywindow.is_open {
        let found = pref.keywindow.click_buttons(&click.keywindow_buttons);
        match found {
            Some(index) => {
                if index != 0 {
                    let code = match &pref.keywindow.key_code {
                        Some(code) => Some(code.clone()),
                        None => None,
                    };
                    match code {
                        Some(code) => {
                            let k = pref.keywindow.key_index;
                            let modifier = pref.keywindow.key_modifier;
                            pref.config_data.key_code.set(k, code);
                            pref.config_data.key_code_modifier.set(k, modifier);
                            assert(pref.wf());
                            pref.update_key_list(k);
                        },
                        None => {},
                    }
                }
                pref.keywindow.close_key();
            },
            None => {},
        }
        return PreferenceAction::Nothing;
    }
    if click.scrollbar_held {
        return PreferenceAction::Nothing;
    }
    let mut action = PreferenceAction::Nothing;
    let pressed = pref.click_buttons(&click.buttons);
    match pressed {
        Some(index) => {
            if index == 0 {
                pref.close();
                assert(pref.wf());
                action = PreferenceAction::ReloadConfig;
            } else if index == 1 {
                pref.reset_preference();
            } else {
                pref.close();
                assert(pref.wf());
                action = PreferenceAction::SaveConfig;
            }
        },
        None => {},
    }
    assert(pref.wf());
    let menu_changed = pref.select_menu_button(&click.menu);
    if menu_changed {
        open_preference_tab(pref);
    }
    if pref.selected_menu == PREF_TAB_KEYBIND && !menu_changed && !(pressed == Some(1usize)) {
        match pref.select_keylist(&click.keys) {
            Some(key_index) => { pref.keywindow.open_key(key_index); },
            None => {},
        }
    }
    action
}

/// What the editor does once a dialog button is released.
#[derive(PartialEq, Eq, Structural, Debug, Clone, Copy)]
pub enum DialogAction {
    /// Nothing.
    Nothing,
    /// Quit the editor.
    Exit,
    /// Go to map (x, y, group), load it and its neighbours, show its name
    /// and close the dialog.
    LoadMap(i32, i32, u64),
    /// Save every map, then quit.
    SaveAllAndExit,
    /// Close the dialog.
    Close,
}

/// The number typed in field `k` of a form whose fields read `texts`, 0
/// when there is no such field (a text that is not a number reads 0).
pub open spec fn typed_value(texts: Seq<Seq<char>>, k: int) -> i64 {
    if 0 <= k < texts.len() { field_value(texts[k]) } else { 0 }
}

/// The map location typed in the load dialog: field 1 is y, field 2 the
/// group, and x is the last of the other fields (field 0 when there are
/// three).
pub open spec fn typed_location(texts: Seq<Seq<char>>) -> (i32, i32, u64) {
    (
        (if texts.len() > 3 { typed_value(texts, texts.len() - 1) } else { typed_value(texts, 0) }) as i32,
        typed_value(texts, 1) as i32,
        typed_value(texts, 2) as u64,
    )
}

/// What releasing a button of kind `button` on `dialog` asks for: on the
/// exit dialog, confirming quits; on the load dialog, confirming loads
/// the location typed; on the save dialog, confirming saves everything
/// and quits while declining quits; cancelling closes any dialog.
pub open spec fn release_action(dialog: Dialog, button: DialogButtonType) -> DialogAction {
    match button {
        DialogButtonType::ButtonConfirm => match dialog.dialog_type {
            DialogType::TypeExitConfirm => DialogAction::Exit,
            DialogType::TypeMapLoad => {
                let loc = typed_location(Seq::new(dialog.editor_textbox@.len(), |i: int| dialog.editor_textbox@[i].data@));
                DialogAction::LoadMap(loc.0, loc.1, loc.2)
            },
            DialogType::TypeMapSave => DialogAction::SaveAllAndExit,
            DialogType::TypeNone => DialogAction::Nothing,
        },
        DialogButtonType::ButtonDecline => if dialog.dialog_type == DialogType::TypeMapSave {
            DialogAction::Exit
        } else {
            DialogAction::Nothing
        },
        DialogButtonType::ButtonCancel => DialogAction::Close,
        DialogButtonType::ButtonNone => DialogAction::Nothing,
    }
}

/// What releasing dialog button `button` asks for: on the exit dialog,
/// confirming quits; on the load dialog, confirming loads the location
/// typed; on the save dialog, confirming saves everything and quits while
/// declining quits; cancelling closes any dialog.
pub fn dialog_release_input(dialog: &Dialog, button: DialogButtonType) -> (action: DialogAction)
    ensures
        action == release_action(*dialog, button),
{
    match button {
        DialogButtonType::ButtonConfirm => match dialog.dialog_type {
            DialogType::TypeExitConfirm => DialogAction::Exit,
            DialogType::TypeMapLoad => {
                let ghost texts = Seq::new(dialog.editor_textbox@.len(), |i: int| dialog.editor_textbox@[i].data@);
                let mut x: i32 = 0;
                let mut y: i32 = 0;
                let mut group: u64 = 0;
                let n = dialog.editor_textbox.len();
                let mut index: usize = 0;
                while index < n
                    invariant
                        n == dialog.editor_textbox@.len(),
                        texts == Seq::new(dialog.editor_textbox@.len(), |i: int| dialog.editor_textbox@[i].data@),
                        index <= n,
                        y == (if index > 1 { typed_value(texts, 1) as i32 } else { 0 }),
                        group == (if index > 2 { typed_value(texts, 2) as u64 } else { 0 }),
                        x == (if index > 3 { typed_value(texts, index - 1) as i32 }
                            else if index > 0 { typed_value(texts, 0) as i32 } else { 0 }),
                    decreases n - index,
                {
                    let value = parse_or_zero(dialog.editor_textbox[index].data.as_str());
                    if index == 1 {
                        y = #[verifier::truncate] (value as i32);
                    } else if index == 2 {
                        group = value as u64;
                    } else {
                        x = #[verifier::truncate] (value as i32);
                    }
                    index = index + 1;
                }
                DialogAction::LoadMap(x, y, group)
            },
            DialogType::TypeMapSave => DialogAction::SaveAllAndExit,
            DialogType::TypeNone => DialogAction::Nothing,
        },
        DialogButtonType::ButtonDecline => {
            if dialog.dialog_type == DialogType::TypeMapSave {
                DialogAction::Exit
            } else {
                DialogAction::Nothing
            }
        },
        DialogButtonType::ButtonCancel => DialogAction::Close,
        DialogButtonType::ButtonNone => DialogAction::Nothing,
    }
}

/// On a save dialog as `Dialog::new` makes it, the button labelled
/// "Save" confirms, and releasing it saves every map and quits; the one
/// labelled "Don't Save" declines, and releasing it quits without
/// saving; the one labelled "Cancel" closes the dialog.
pub proof fn lemma_save_dialog_buttons(d: Dialog, data: Option<IndexMap<String, bool>>, start: usize, i: int)
    requires
        dialog_made(d, DialogType::TypeMapSave, data, start),
        0 <= i < d.buttons@.len(),
    ensures
        d.buttons@[i].label@ == "Save"@ ==> d.buttons@[i].button_type == DialogButtonType::ButtonConfirm
            && release_action(d, d.buttons@[i].button_type) == DialogAction::SaveAllAndExit,
        d.buttons@[i].label@ == "Don't Save"@ ==> d.buttons@[i].button_type == DialogButtonType::ButtonDecline
            && release_action(d, d.buttons@[i].button_type) == DialogAction::Exit,
        d.buttons@[i].label@ == "Cancel"@ ==> d.buttons@[i].button_type == DialogButtonType::ButtonCancel
            && release_action(d, d.buttons@[i].button_type) == DialogAction::Close,
{
    reveal_strlit("Save");
    reveal_strlit("Don't Save");
    reveal_strlit("Cancel");
    let t = dialog_buttons(DialogType::TypeMapSave);
    assert(idle_dialog_button(d.buttons@[i], t[i].0, t[i].1));
    assert(t[0] == ("Save"@, DialogButtonType::ButtonConfirm));
    assert(t[1] == ("Don't Save"@, DialogButtonType::ButtonDecline));
    assert(t[2] == ("Cancel"@, DialogButtonType::ButtonCancel));
    assert("Save"@.len() == 4 && "Don't Save"@.len() == 10 && "Cancel"@.len() == 6);
}

/// On an exit dialog as `Dialog::new` makes it, the button labelled
/// "Yes" confirms, and releasing it quits the editor; the one labelled
/// "No" cancels, and releasing it closes the dialog.
pub proof fn lemma_exit_dialog_buttons(d: Dialog, data: Option<IndexMap<String, bool>>, start: usize, i: int)
    requires
        dialog_made(d, DialogType::TypeExitConfirm, data, start),
        0 <= i < d.buttons@.len(),
    ensures
        d.buttons@[i].label@ == "Yes"@ ==> d.buttons@[i].button_type == DialogButtonType::ButtonConfirm
            && release_action(d, d.buttons@[i].button_type) == DialogAction::Exit,
        d.buttons@[i].label@ == "No"@ ==> d.buttons@[i].button_type == DialogButtonType::ButtonCancel
            && release_action(d, d.buttons@[i].button_type) == DialogAction::Close,
{
    reveal_strlit("Yes");
    reveal_strlit("No");
    let t = dialog_buttons(DialogType::TypeExitConfirm);
    assert(idle_dialog_button(d.buttons@[i], t[i].0, t[i].1));
    assert(t[0] == ("Yes"@, DialogButtonType::ButtonConfirm));
    assert(t[1] == ("No"@, DialogButtonType::ButtonCancel));
    assert("Yes"@.len() == 3 && "No"@.len() == 2);
}

/// On a load dialog as `Dialog::new` makes it, the button labelled
/// "Load" confirms, and releasing it loads the map whose location the
/// dialog's fields hold; the one labelled "Cancel" closes the dialog.
pub proof fn lemma_load_dialog_buttons(d: Dialog, data: Option<IndexMap<String, bool>>, start: usize, i: int)
    requires
        dialog_made(d, DialogType::TypeMapLoad, data, start),
        0 <= i < d.buttons@.len(),
    ensures
        d.buttons@[i].label@ == "Load"@ ==> d.buttons@[i].button_type == DialogButtonType::ButtonConfirm
            && release_action(d, d.buttons@[i].button_type) is LoadMap,
        d.buttons@[i].label@ == "Cancel"@ ==> d.buttons@[i].button_type == DialogButtonType::ButtonCancel
            && release_action(d, d.buttons@[i].button_type) == DialogAction::Close,
{
    reveal_strlit("Load");
    reveal_strlit("Cancel");
    let t = dialog_buttons(DialogType::TypeMapLoad);
    assert(idle_dialog_button(d.buttons@[i], t[i].0, t[i].1));
    assert(t[0] == ("Load"@, DialogButtonType::ButtonConfirm));
    assert(t[1] == ("Cancel"@, DialogButtonType::ButtonCancel));
    assert("Load"@.len() == 4 && "Cancel"@.len() == 6);
}

} // verus!
