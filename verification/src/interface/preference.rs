//! The preference window: a menu of two tabs (general settings, key
//! bindings), its Cancel, Reset and Save buttons, the list of bindings,
//! and the small window that records a new key for one of them.

use vstd::prelude::*;
use crate::color::Color;
use crate::interface::button::{Button, button_after_click, buttons_hovered, buttons_released, last_hit,
    hover_all, release_all, find_last_hit, idle_button};
use crate::interface::checkbox::{Checkbox, hover_colors};
use crate::interface::scrollbar::{Scrollbar, track_of, bar_size};
use crate::keys::{KeybindData, KeyPress, EditorKey, EDITOR_KEY_COUNT, get_key_name, key_name, command_name,
    set_key_modifier_value};

verus! {

/// The general settings tab.
pub const PREF_TAB_GENERAL: usize = 0;

/// The key bindings tab.
pub const PREF_TAB_KEYBIND: usize = 1;

/// A tab of the window's menu.
pub struct MenuButton {
    pub text: String,
    pub rect_color: Color,
    pub text_color: Color,
    pub is_selected: bool,
}

/// The colours of a menu tab, chosen or not.
pub open spec fn menu_look(is_selected: bool) -> (Color, Color) {
    if is_selected {
        (Color { r: 50, g: 50, b: 50, alpha: 255 }, Color { r: 180, g: 180, b: 180, alpha: 255 })
    } else {
        (Color { r: 50, g: 50, b: 50, alpha: 0 }, Color { r: 50, g: 50, b: 50, alpha: 255 })
    }
}

/// The tab after `set_select`.
pub open spec fn menu_after_select(b: MenuButton, is_selected: bool) -> MenuButton {
    if b.is_selected == is_selected {
        b
    } else {
        MenuButton { is_selected, rect_color: menu_look(is_selected).0, text_color: menu_look(is_selected).1, ..b }
    }
}

impl MenuButton {
    /// A tab labelled `msg`, not chosen.
    pub fn new(msg: &str) -> (b: Self)
        ensures
            b.text@ == msg@,
            !b.is_selected,
            b.rect_color == (Color { r: 50, g: 50, b: 50, alpha: 0 }),
            b.text_color == (Color { r: 20, g: 20, b: 20, alpha: 255 }),
    {
        MenuButton {
            text: String::from_str(msg),
            rect_color: Color::rgba(50, 50, 50, 0),
            text_color: Color::rgba(20, 20, 20, 255),
            is_selected: false,
        }
    }

    /// Chooses the tab or not.
    pub fn set_select(&mut self, is_selected: bool)
        ensures
            *final(self) == menu_after_select(*old(self), is_selected),
    {
        if self.is_selected == is_selected {
            return;
        }
        self.is_selected = is_selected;
        if self.is_selected {
            self.rect_color = Color::rgba(50, 50, 50, 255);
            self.text_color = Color::rgba(180, 180, 180, 255);
        } else {
            self.rect_color = Color::rgba(50, 50, 50, 0);
            self.text_color = Color::rgba(50, 50, 50, 255);
        }
    }
}

/// A line of the bindings list: the command's name and its key.
pub struct KeyList {
    pub text: String,
    pub key_string: String,
    pub key_button_color: Color,
    pub key_string_color: Color,
    pub is_hover: bool,
}

/// The colours of a key's button and text, hovered or not.
pub open spec fn key_look(is_hover: bool) -> (Color, Color) {
    if is_hover {
        (Color { r: 180, g: 180, b: 180, alpha: 255 }, Color { r: 40, g: 40, b: 40, alpha: 255 })
    } else {
        (Color { r: 50, g: 50, b: 50, alpha: 255 }, Color { r: 180, g: 180, b: 180, alpha: 255 })
    }
}

/// The line after `set_hover`.
pub open spec fn keylist_after_hover(k: KeyList, is_hover: bool) -> KeyList {
    if k.is_hover == is_hover {
        k
    } else {
        KeyList { is_hover, key_button_color: key_look(is_hover).0, key_string_color: key_look(is_hover).1, ..k }
    }
}

/// Line `k` shows command `key` and the key `config` binds to it, idle.
pub open spec fn key_line(k: KeyList, config: KeybindData, key: int) -> bool {
    &&& k.text@ == command_name(key as usize)
    &&& k.key_string@ == key_name(config.key_code@[key]@, config.key_code_modifier@[key]@)
    &&& !k.is_hover
    &&& (k.key_button_color, k.key_string_color) == key_look(false)
}

impl KeyList {
    /// An idle line for command `msg` bound to `keystr`.
    pub fn new(msg: &str, keystr: &str) -> (k: Self)
        ensures
            k.text@ == msg@,
            k.key_string@ == keystr@,
            !k.is_hover,
            (k.key_button_color, k.key_string_color) == key_look(false),
    {
        KeyList {
            text: String::from_str(msg),
            key_string: String::from_str(keystr),
            key_button_color: Color::rgba(50, 50, 50, 255),
            key_string_color: Color::rgba(180, 180, 180, 255),
            is_hover: false,
        }
    }

    /// Records whether the pointer is over the key.
    pub fn set_hover(&mut self, is_hover: bool)
        ensures
            *final(self) == keylist_after_hover(*old(self), is_hover),
    {
        if self.is_hover == is_hover {
            return;
        }
        self.is_hover = is_hover;
        if self.is_hover {
            self.key_button_color = Color::rgba(180, 180, 180, 255);
            self.key_string_color = Color::rgba(40, 40, 40, 255);
        } else {
            self.key_button_color = Color::rgba(50, 50, 50, 255);
            self.key_string_color = Color::rgba(180, 180, 180, 255);
        }
    }
}

/// The window that records a key for a binding: its prompt (or the key
/// recorded), whether it is open, its Cancel and Save buttons, the
/// modifiers held now, the binding edited, and the key and modifiers
/// recorded.
pub struct KeybindWindow {
    pub text: String,
    pub is_open: bool,
    pub reset_button: bool,
    pub buttons: Vec<Button>,
    pub hold_key_modifier: [bool; 3],
    pub key_index: usize,
    pub key_code: Option<String>,
    pub key_modifier: [bool; 3],
}

/// The button after it was redrawn.
pub open spec fn redrawn(b: Button) -> Button {
    Button { image_changed: true, text_changed: true, ..b }
}

/// Buttons `buttons` after each one was redrawn.
pub open spec fn all_redrawn(buttons: Seq<Button>) -> Seq<Button> {
    Seq::new(buttons.len(), |i: int| redrawn(buttons[i]))
}

/// Redraws a row of buttons.
fn redraw_all(buttons: &mut Vec<Button>)
    ensures
        final(buttons)@ == all_redrawn(old(buttons)@),
{
    let n = buttons.len();
    let mut index: usize = 0;
    while index < n
        invariant
            n == old(buttons)@.len(),
            index <= n,
            buttons@.len() == n,
            forall|i: int| 0 <= i < index ==> #[trigger] buttons@[i] == redrawn(old(buttons)@[i]),
            forall|i: int| index <= i < n ==> #[trigger] buttons@[i] == old(buttons)@[i],
        decreases n - index,
    {
        buttons[index].image_changed = true;
        buttons[index].text_changed = true;
        index = index + 1;
    }
    assert(buttons@ =~= all_redrawn(old(buttons)@));
}

/// Presses the last button under the pointer (`hits[i]` for button
/// `i`), if any, and returns its index.
fn press_last(buttons: &mut Vec<Button>, reset_button: &mut bool, hits: &Vec<bool>) -> (found: Option<usize>)
    requires
        hits@.len() == old(buttons)@.len(),
    ensures
        found == last_hit(hits@),
        found matches Some(i) ==> final(buttons)@ == old(buttons)@.update(i as int,
            button_after_click(old(buttons)@[i as int], true)) && *final(reset_button),
        found is None ==> *final(buttons) == *old(buttons) && *final(reset_button) == *old(reset_button),
{
    let found = find_last_hit(hits);
    match found {
        Some(index) => {
            buttons[index].set_click(true);
            *reset_button = true;
        },
        None => {},
    }
    found
}

/// Window `after` is window `before` after key event `key` (see
/// `KeybindWindow::edit_key`).
pub open spec fn edited(before: KeybindWindow, key: KeyPress, after: KeybindWindow) -> bool {
    match key {
        KeyPress::Modifier(i, pressed) => {
            &&& after.hold_key_modifier@ == before.hold_key_modifier@.update(i as int, pressed)
            &&& after == (KeybindWindow { hold_key_modifier: after.hold_key_modifier, ..before })
        },
        KeyPress::Bindable(text, _) => {
            &&& after.key_code == Some(text)
            &&& after.key_modifier == before.hold_key_modifier
            &&& after.text@ == key_name(text@, before.hold_key_modifier@)
            &&& after == (KeybindWindow { key_code: after.key_code, key_modifier: after.key_modifier, text: after.text, ..before })
        },
        KeyPress::Other => after == before,
    }
}

impl KeybindWindow {
    /// A closed window prompting for a key, with nothing held or
    /// recorded.
    pub fn new() -> (w: Self)
        ensures
            w.text@ == "Please enter a Key"@,
            !w.is_open,
            !w.reset_button,
            w.buttons@.len() == 2,
            idle_button(w.buttons@[0], "Cancel"@),
            idle_button(w.buttons@[1], "Save"@),
            w.hold_key_modifier@ == seq![false, false, false],
            w.key_index == 0,
            w.key_code is None,
            w.key_modifier@ == seq![false, false, false],
    {
        let mut buttons: Vec<Button> = Vec::new();
        buttons.push(Button::new("Cancel"));
        buttons.push(Button::new("Save"));
        let w = KeybindWindow {
            text: String::from_str("Please enter a Key"),
            is_open: false,
            reset_button: false,
            buttons,
            hold_key_modifier: [false, false, false],
            key_index: 0,
            key_code: None,
            key_modifier: [false, false, false],
        };
        assert(w.hold_key_modifier@ =~= seq![false, false, false]);
        assert(w.key_modifier@ =~= seq![false, false, false]);
        w
    }

    /// Opens the window to record a key for binding `key_index`: the
    /// prompt shows again and nothing is recorded.
    pub fn open_key(&mut self, key_index: usize)
        ensures
            final(self).is_open,
            final(self).key_index == key_index,
            final(self).key_code is None,
            final(self).key_modifier@ == seq![false, false, false],
            final(self).text@ == "Please enter a Key"@,
            final(self).buttons@ == all_redrawn(old(self).buttons@),
            final(self).hold_key_modifier == old(self).hold_key_modifier,
            final(self).reset_button == old(self).reset_button,
    {
        self.is_open = true;
        redraw_all(&mut self.buttons);
        self.key_code = None;
        self.key_modifier = [false, false, false];
        assert(self.key_modifier@ =~= seq![false, false, false]);
        self.key_index = key_index;
        self.text = String::from_str("Please enter a Key");
    }

    /// Closes the window.
    pub fn close_key(&mut self)
        ensures
            *final(self) == (KeybindWindow { is_open: false, ..*old(self) }),
    {
        self.is_open = false;
    }

    /// Records whether modifier `modifier_index` (Ctrl, Shift, Space) is
    /// held.
    pub fn set_key_modifier_value(&mut self, modifier_index: usize, is_pressed: bool)
        requires
            modifier_index < 3,
        ensures
            final(self).hold_key_modifier@ == old(self).hold_key_modifier@.update(modifier_index as int, is_pressed),
            *final(self) == (KeybindWindow { hold_key_modifier: final(self).hold_key_modifier, ..*old(self) }),
    {
        set_key_modifier_value(&mut self.hold_key_modifier, modifier_index, is_pressed);
    }

    /// Takes a key event: a modifier is recorded as held or not; a key
    /// that can be bound is recorded with the modifiers held, and the
    /// window shows the binding; any other key is ignored.
    pub fn edit_key(&mut self, key: &KeyPress)
        requires
            key matches KeyPress::Modifier(i, _) ==> i < 3,
        ensures
            edited(*old(self), *key, *final(self)),
    {
        match key {
            KeyPress::Modifier(index, pressed) => {
                self.set_key_modifier_value(*index, *pressed);
            },
            KeyPress::Bindable(text, _) => {
                self.key_code = Some(text.clone());
                self.key_modifier = self.hold_key_modifier;
                self.text = get_key_name(text.as_str(), self.key_modifier);
            },
            KeyPress::Other => {},
        }
    }

    /// Hovers the buttons under the pointer (`hovered[i]` for button
    /// `i`) and no other.
    pub fn hover_buttons(&mut self, hovered: &Vec<bool>)
        requires
            hovered@.len() == old(self).buttons@.len(),
        ensures
            final(self).buttons@ == buttons_hovered(old(self).buttons@, hovered@),
            *final(self) == (KeybindWindow { buttons: final(self).buttons, ..*old(self) }),
    {
        hover_all(&mut self.buttons, hovered);
    }

    /// Once a button was pressed, releases every button.
    pub fn release_click(&mut self)
        ensures
            !old(self).reset_button ==> *final(self) == *old(self),
            old(self).reset_button ==> final(self).buttons@ == buttons_released(old(self).buttons@)
                && *final(self) == (KeybindWindow { buttons: final(self).buttons, ..*old(self) }),
    {
        if !self.reset_button {
            return;
        }
        release_all(&mut self.buttons);
    }

    /// Presses the last button under the pointer (`hits[i]` for button
    /// `i`) and returns its index.
    pub fn click_buttons(&mut self, hits: &Vec<bool>) -> (found: Option<usize>)
        requires
            hits@.len() == old(self).buttons@.len(),
        ensures
            found == last_hit(hits@),
            found matches Some(i) ==> final(self).buttons@ == old(self).buttons@.update(i as int,
                button_after_click(old(self).buttons@[i as int], true)) && final(self).reset_button,
            found is None ==> *final(self) == *old(self),
            *final(self) == (KeybindWindow { buttons: final(self).buttons, reset_button: final(self).reset_button, ..*old(self) }),
    {
        press_last(&mut self.buttons, &mut self.reset_button, hits)
    }
}

/// A setting of the general tab.
pub enum SettingData {
    Empty,
    Checkbox(Checkbox),
}

/// The checkbox after `set_hover`.
pub open spec fn checkbox_after_hover(c: Checkbox, is_hover: bool) -> Checkbox {
    if c.is_hover == is_hover {
        c
    } else {
        Checkbox { is_hover, button_color: hover_colors(is_hover).0, text_color: hover_colors(is_hover).1, ..c }
    }
}

/// The setting after the pointer moved: a checkbox lights up under it.
pub open spec fn setting_after_hover(s: SettingData, is_hover: bool) -> SettingData {
    match s {
        SettingData::Checkbox(c) => SettingData::Checkbox(checkbox_after_hover(c, is_hover)),
        SettingData::Empty => SettingData::Empty,
    }
}

/// The labels of the general tab's settings.
pub open spec fn general_labels() -> Seq<Seq<char>> {
    seq!["Hide FPS?"@, "Hide Something?"@, "Checkbox Test"@]
}

/// The preference window.
pub struct Preference {
    pub is_open: bool,
    pub buttons: Vec<Button>,
    pub menu_button: Vec<MenuButton>,
    pub scrollbar: Scrollbar,
    pub reset_button: bool,
    pub selected_menu: usize,
    pub config_data: KeybindData,
    pub setting_data: Vec<SettingData>,
    pub key_list: Vec<KeyList>,
    pub keywindow: KeybindWindow,
}

impl Preference {
    /// The window has its three buttons and two tabs, one of them chosen,
    /// a binding per command, and a scrollbar on its 275 pixel content.
    pub open spec fn wf(self) -> bool {
        &&& self.buttons@.len() == 3
        &&& self.menu_button@.len() == 2
        &&& self.selected_menu < 2
        &&& self.config_data.key_code@.len() >= EDITOR_KEY_COUNT
        &&& self.config_data.key_code_modifier@.len() >= EDITOR_KEY_COUNT
        &&& self.scrollbar.max_scroll_size == 275
        &&& self.scrollbar.min_bar_size == 20
        &&& track_of(self.scrollbar, self.scrollbar.max_value)
    }

    /// A closed window over the bindings `config_data`, on its general
    /// tab with nothing listed yet; its scrollbar's track starts at
    /// `scrollbar_start`.
    pub fn new(config_data: KeybindData, scrollbar_start: usize) -> (p: Self)
        requires
            config_data.key_code@.len() >= EDITOR_KEY_COUNT,
            config_data.key_code_modifier@.len() >= EDITOR_KEY_COUNT,
        ensures
            p.wf(),
            !p.is_open,
            idle_button(p.buttons@[0], "Cancel"@),
            idle_button(p.buttons@[1], "Reset"@),
            idle_button(p.buttons@[2], "Save"@),
            p.menu_button@[0].text@ == "General"@ && p.menu_button@[0].is_selected,
            (p.menu_button@[0].rect_color, p.menu_button@[0].text_color) == menu_look(true),
            p.menu_button@[1].text@ == "Keybinds"@ && !p.menu_button@[1].is_selected,
            p.menu_button@[1].rect_color == (Color { r: 50, g: 50, b: 50, alpha: 0 }),
            p.menu_button@[1].text_color == (Color { r: 20, g: 20, b: 20, alpha: 255 }),
            p.selected_menu == PREF_TAB_GENERAL,
            !p.reset_button,
            p.config_data == config_data,
            p.setting_data@.len() == 0,
            p.key_list@.len() == 0,
            !p.keywindow.is_open,
            track_of(p.scrollbar, 0),
            p.scrollbar.start_pos == scrollbar_start,
            !p.scrollbar.visible,
    {
        let mut buttons: Vec<Button> = Vec::new();
        buttons.push(Button::new("Cancel"));
        buttons.push(Button::new("Reset"));
        buttons.push(Button::new("Save"));
        let mut menu_button: Vec<MenuButton> = Vec::new();
        menu_button.push(MenuButton::new("General"));
        menu_button.push(MenuButton::new("Keybinds"));
        menu_button[0].set_select(true);
        proof {
            assert(bar_size(275, 0, 20) == 275);
        }
        let scrollbar = Scrollbar::new(scrollbar_start, 0, 275, 20);
        Preference {
            is_open: false,
            buttons,
            menu_button,
            scrollbar,
            reset_button: false,
            selected_menu: 0,
            config_data,
            setting_data: Vec::new(),
            key_list: Vec::new(),
            keywindow: KeybindWindow::new(),
        }
    }

    /// Opens the window on its general tab, redrawing its buttons, and
    /// shows the scrollbar.
    pub fn open(&mut self)
        requires
            old(self).wf(),
        ensures
            final(self).wf(),
            final(self).is_open,
            final(self).selected_menu == PREF_TAB_GENERAL,
            final(self).menu_button@ == ({
                let off = old(self).menu_button@.update(old(self).selected_menu as int,
                    menu_after_select(old(self).menu_button@[old(self).selected_menu as int], false));
                off.update(0, menu_after_select(off[0], true))
            }),
            final(self).buttons@ == all_redrawn(old(self).buttons@),
            final(self).scrollbar == (Scrollbar { visible: true, images_changed: true, ..old(self).scrollbar }),
            final(self).config_data == old(self).config_data,
            final(self).key_list == old(self).key_list,
            final(self).setting_data == old(self).setting_data,
            final(self).keywindow == old(self).keywindow,
            final(self).reset_button == old(self).reset_button,
    {
        self.is_open = true;
        redraw_all(&mut self.buttons);
        let sel = self.selected_menu;
        self.menu_button[sel].set_select(false);
        self.menu_button[0].set_select(true);
        self.selected_menu = 0;
        self.scrollbar.show();
    }

    /// Closes the window and hides its scrollbar.
    pub fn close(&mut self)
        ensures
            *final(self) == (Preference {
                is_open: false,
                scrollbar: Scrollbar { visible: false, ..old(self).scrollbar },
                ..*old(self)
            }),
    {
        self.is_open = false;
        self.scrollbar.hide_scrollbar();
    }

    /// Moves the pointer, unless a key is being recorded: the buttons
    /// under it (`hovered_buttons`) light up, and on the open tab the
    /// keys (`hovered_keys`) or the settings (`hovered_settings`) under
    /// it.
    pub fn hover_buttons(&mut self, hovered_buttons: &Vec<bool>, hovered_keys: &Vec<bool>, hovered_settings: &Vec<bool>)
        requires
            hovered_buttons@.len() == old(self).buttons@.len(),
            hovered_keys@.len() == old(self).key_list@.len(),
            hovered_settings@.len() == old(self).setting_data@.len(),
        ensures
            old(self).keywindow.is_open ==> *final(self) == *old(self),
            !old(self).keywindow.is_open ==> {
                &&& final(self).buttons@ == buttons_hovered(old(self).buttons@, hovered_buttons@)
                &&& old(self).selected_menu == PREF_TAB_KEYBIND ==> final(self).key_list@ == Seq::new(
                    old(self).key_list@.len(), |i: int| keylist_after_hover(old(self).key_list@[i], hovered_keys@[i]))
                &&& old(self).selected_menu != PREF_TAB_KEYBIND ==> final(self).key_list == old(self).key_list
                &&& old(self).selected_menu == PREF_TAB_GENERAL ==> final(self).setting_data@ == Seq::new(
                    old(self).setting_data@.len(), |i: int| setting_after_hover(old(self).setting_data@[i], hovered_settings@[i]))
                &&& old(self).selected_menu != PREF_TAB_GENERAL ==> final(self).setting_data == old(self).setting_data
                &&& *final(self) == (Preference {
                    buttons: final(self).buttons,
                    key_list: final(self).key_list,
                    setting_data: final(self).setting_data,
                    ..*old(self)
                })
            },
    {
        if self.keywindow.is_open {
            return;
        }
        hover_all(&mut self.buttons, hovered_buttons);
        if self.selected_menu == PREF_TAB_KEYBIND {
            let n = self.key_list.len();
            let mut index: usize = 0;
            while index < n
                invariant
                    n == old(self).key_list@.len(),
                    hovered_keys@.len() == n,
                    index <= n,
                    self.key_list@.len() == n,
                    forall|i: int| 0 <= i < index ==> #[trigger] self.key_list@[i]
                        == keylist_after_hover(old(self).key_list@[i], hovered_keys@[i]),
                    forall|i: int| index <= i < n ==> #[trigger] self.key_list@[i] == old(self).key_list@[i],
                    *self == (Preference { buttons: self.buttons, key_list: self.key_list, ..*old(self) }),
                    self.buttons@ == buttons_hovered(old(self).buttons@, hovered_buttons@),
                decreases n - index,
            {
                self.key_list[index].set_hover(hovered_keys[index]);
                index = index + 1;
            }
            assert(self.key_list@ =~= Seq::new(n as nat, |i: int| keylist_after_hover(old(self).key_list@[i], hovered_keys@[i])));
        } else if self.selected_menu == PREF_TAB_GENERAL {
            let n = self.setting_data.len();
            let mut index: usize = 0;
            while index < n
                invariant
                    n == old(self).setting_data@.len(),
                    hovered_settings@.len() == n,
                    index <= n,
                    self.setting_data@.len() == n,
                    forall|i: int| 0 <= i < index ==> #[trigger] self.setting_data@[i]
                        == setting_after_hover(old(self).setting_data@[i], hovered_settings@[i]),
                    forall|i: int| index <= i < n ==> #[trigger] self.setting_data@[i] == old(self).setting_data@[i],
                    *self == (Preference { buttons: self.buttons, setting_data: self.setting_data, ..*old(self) }),
                    self.buttons@ == buttons_hovered(old(self).buttons@, hovered_buttons@),
                decreases n - index,
            {
                let updated = match &self.setting_data[index] {
                    SettingData::Checkbox(checkbox) => {
                        let mut c = checkbox.duplicate();
                        c.set_hover(hovered_settings[index]);
                        SettingData::Checkbox(c)
                    },
                    SettingData::Empty => SettingData::Empty,
                };
                self.setting_data.set(index, updated);
                index = index + 1;
            }
            assert(self.setting_data@ =~= Seq::new(n as nat, |i: int| setting_after_hover(old(self).setting_data@[i], hovered_settings@[i])));
        }
    }

    /// Once a button was pressed, releases every button.
    pub fn release_click(&mut self)
        ensures
            !old(self).reset_button ==> *final(self) == *old(self),
            old(self).reset_button ==> final(self).buttons@ == buttons_released(old(self).buttons@)
                && *final(self) == (Preference { buttons: final(self).buttons, ..*old(self) }),
    {
        if !self.reset_button {
            return;
        }
        release_all(&mut self.buttons);
    }

    /// Presses the last button under the pointer (`hits[i]` for button
    /// `i`) and returns its index; nothing while a key is being recorded.
    pub fn click_buttons(&mut self, hits: &Vec<bool>) -> (found: Option<usize>)
        requires
            hits@.len() == old(self).buttons@.len(),
        ensures
            old(self).keywindow.is_open ==> found is None && *final(self) == *old(self),
            !old(self).keywindow.is_open ==> {
                &&& found == last_hit(hits@)
                &&& found matches Some(i) ==> final(self).buttons@ == old(self).buttons@.update(i as int,
                    button_after_click(old(self).buttons@[i as int], true)) && final(self).reset_button
                &&& found is None ==> *final(self) == *old(self)
                &&& *final(self) == (Preference { buttons: final(self).buttons, reset_button: final(self).reset_button, ..*old(self) })
            },
    {
        if self.keywindow.is_open {
            return None;
        }
        press_last(&mut self.buttons, &mut self.reset_button, hits)
    }

    /// Chooses the last tab under the pointer (`hits[i]` for tab `i`),
    /// unless a key is being recorded; says whether the tab changed.
    pub fn select_menu_button(&mut self, hits: &Vec<bool>) -> (changed: bool)
        requires
            old(self).wf(),
            hits@.len() == old(self).menu_button@.len(),
        ensures
            final(self).wf(),
            changed == (!old(self).keywindow.is_open && (last_hit(hits@) matches Some(i) && i != old(self).selected_menu)),
            !changed ==> *final(self) == *old(self),
            changed ==> ({
                let i = last_hit(hits@)->0;
                let off = old(self).menu_button@.update(old(self).selected_menu as int,
                    menu_after_select(old(self).menu_button@[old(self).selected_menu as int], false));
                &&& final(self).selected_menu == i
                &&& final(self).menu_button@ == off.update(i as int, menu_after_select(off[i as int], true))
                &&& *final(self) == (Preference { menu_button: final(self).menu_button, selected_menu: i, ..*old(self) })
            }),
    {
        if self.keywindow.is_open {
            return false;
        }
        let found = find_last_hit(hits);
        match found {
            Some(index) => {
                if self.selected_menu == index {
                    return false;
                }
                let sel = self.selected_menu;
                self.menu_button[sel].set_select(false);
                self.menu_button[index].set_select(true);
                self.selected_menu = index;
                true
            },
            None => false,
        }
    }

    /// The last binding under the pointer (`hits[i]` for binding `i`),
    /// unless a key is being recorded.
    pub fn select_keylist(&self, hits: &Vec<bool>) -> (found: Option<usize>)
        requires
            hits@.len() == self.key_list@.len(),
        ensures
            found == (if self.keywindow.is_open { None } else { last_hit(hits@) }),
    {
        if self.keywindow.is_open {
            return None;
        }
        find_last_hit(hits)
    }

    /// Shows again the line of binding `key_index`, after it changed.
    pub fn update_key_list(&mut self, key_index: usize)
        requires
            old(self).wf(),
            key_index < EDITOR_KEY_COUNT,
            key_index < old(self).key_list@.len(),
        ensures
            final(self).key_list@ == old(self).key_list@.update(key_index as int, final(self).key_list@[key_index as int]),
            key_line(final(self).key_list@[key_index as int], old(self).config_data, key_index as int),
            *final(self) == (Preference { key_list: final(self).key_list, ..*old(self) }),
    {
        let key_text = get_key_name(self.config_data.key_code[key_index].as_str(),
            self.config_data.key_code_modifier[key_index]);
        let line = KeyList::new(EditorKey::as_str(key_index), key_text.as_str());
        self.key_list.set(key_index, line);
    }

    /// Puts the default bindings back and fills the open tab again.
    pub fn reset_preference(&mut self)
        requires
            old(self).wf(),
        ensures
            final(self).wf(),
            final(self).selected_menu == old(self).selected_menu,
            tab_filled(*final(self)),
            final(self).keywindow == old(self).keywindow,
            final(self).buttons == old(self).buttons,
            final(self).menu_button == old(self).menu_button,
            final(self).is_open == old(self).is_open,
            final(self).reset_button == old(self).reset_button,
            final(self).scrollbar.visible == old(self).scrollbar.visible,
            forall|i: int| 0 <= i < EDITOR_KEY_COUNT ==> #[trigger] final(self).config_data.key_code@[i]@
                == crate::keys::default_key(i as usize),
            forall|i: int| 0 <= i < EDITOR_KEY_COUNT ==> #[trigger] final(self).config_data.key_code_modifier@[i]@
                == seq![crate::keys::default_needs_ctrl(i as usize), false, false],
    {
        self.config_data = KeybindData::default();
        open_preference_tab(self);
    }
}

/// The open tab lists what it shows: on the bindings tab a line per
/// command, on the general tab its three checkboxes, unticked.
pub open spec fn tab_filled(p: Preference) -> bool {
    if p.selected_menu == PREF_TAB_KEYBIND {
        &&& p.key_list@.len() == EDITOR_KEY_COUNT
        &&& forall|k: int| 0 <= k < EDITOR_KEY_COUNT ==> key_line(#[trigger] p.key_list@[k], p.config_data, k)
        &&& p.setting_data@.len() == 0
    } else {
        &&& p.key_list@.len() == 0
        &&& p.setting_data@.len() == 3
        &&& forall|k: int| 0 <= k < 3 ==> (#[trigger] p.setting_data@[k] matches SettingData::Checkbox(c)
            && c.text@ == general_labels()[k] && !c.is_hover)
    }
}

/// Fills the open tab of the window (see `tab_filled`); its scrollbar
/// has no values to scroll.
pub fn open_preference_tab(preference: &mut Preference)
    requires
        old(preference).wf(),
    ensures
        final(preference).wf(),
        tab_filled(*final(preference)),
        track_of(final(preference).scrollbar, 0),
        final(preference).scrollbar.cur_value == 0,
        final(preference).is_open == old(preference).is_open,
        final(preference).selected_menu == old(preference).selected_menu,
        final(preference).config_data == old(preference).config_data,
        final(preference).buttons == old(preference).buttons,
        final(preference).menu_button == old(preference).menu_button,
        final(preference).keywindow == old(preference).keywindow,
        final(preference).reset_button == old(preference).reset_button,
        final(preference).scrollbar.visible == old(preference).scrollbar.visible,
{
    proof {
        assert(275usize / 1usize == 275usize) by (nonlinear_arith);
        assert(bar_size(275, 0, 20) == 275);
    }
    preference.scrollbar.update_scroll_max_value(0);
    if preference.selected_menu == PREF_TAB_KEYBIND {
        let mut key_list: Vec<KeyList> = Vec::new();
        let mut key: usize = 0;
        while key < EDITOR_KEY_COUNT
            invariant
                key <= EDITOR_KEY_COUNT,
                preference.wf(),
                key_list@.len() == key,
                forall|k: int| 0 <= k < key ==> key_line(#[trigger] key_list@[k], preference.config_data, k),
            decreases EDITOR_KEY_COUNT - key,
        {
            let key_text = get_key_name(preference.config_data.key_code[key].as_str(),
                preference.config_data.key_code_modifier[key]);
            key_list.push(KeyList::new(EditorKey::as_str(key), key_text.as_str()));
            key = key + 1;
        }
        preference.key_list = key_list;
        preference.setting_data = Vec::new();
    } else {
        preference.key_list = Vec::new();
        let mut settings: Vec<SettingData> = Vec::new();
        settings.push(SettingData::Checkbox(Checkbox::new("Hide FPS?")));
        settings.push(SettingData::Checkbox(Checkbox::new("Hide Something?")));
        settings.push(SettingData::Checkbox(Checkbox::new("Checkbox Test")));
        preference.setting_data = settings;
    }
}

} // verus!
