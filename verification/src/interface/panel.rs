//! The editor panel's state: the tool in use, the settings tab open and
//! the option chosen on it, the scroll of the attribute list, and the
//! text fields of the tab's form.

use vstd::prelude::*;
use indexmap::IndexMap;
use crate::editor_attributes::{MapAttribute, attribute_name, attribute_from_form, form_attribute};
use crate::interface::button::{Button, button_after_click, buttons_hovered, buttons_released, last_hit, hover_all, release_all, find_last_hit};
use crate::interface::dialog::{Dialog, DialogType};
use crate::interface::preference::{Preference, open_preference_tab, tab_filled, PREF_TAB_GENERAL};
use crate::interface::scrollbar::track_of;
use crate::interface::tabs::{LAYER_COUNT, options_wf, option_shown};
use crate::interface::tileset_list::LIST_ENTRIES;
use crate::editor_data::{map_title, map_name_label};
use crate::keys::{KeybindData, EDITOR_KEY_COUNT};
use crate::interface::scrollbar::Scrollbar;
use crate::interface::selection_box::SelectionBox;
use crate::interface::tabtext::{TabText, tab_after_select, tab_after_hover};
use crate::interface::textbox::Textbox;
use crate::interface::tileset_list::TilesetList;
use crate::interface::tool_button::{ToolButton, ButtonState, after_state, after_click, after_hover};
use crate::map_view::MapZoneSetting;
use crate::map_view::tools::{TAB_LAYER, TAB_ATTRIBUTE, TAB_ZONE, TOOL_DRAW};
use crate::editor_attributes::MAX_ATTRIBUTE;
use crate::text::{decimal, push_decimal};

verus! {

/// How many options a tab lists at once.
pub const MAX_TAB_LABEL: usize = 14;

/// How many buttons the bar has: eight tools, four tabs, and the button
/// that opens the tileset list.
pub const BUTTON_COUNT: usize = 13;

/// The editor panel: the texts of its labels (fps, tileset, map name,
/// tile position, header of the options), the bar's buttons and the tool
/// in use, the tileset list, the tab open and the option chosen on it,
/// the dialog and preference windows, the scroll of the attribute list,
/// and the form of the open tab (labels, text fields, buttons, drop-down
/// lists, and which field and list are in use).
pub struct Interface {
    pub labels: Vec<String>,
    pub buttons: Vec<ToolButton>,
    pub current_tool: usize,
    pub tileset_list: TilesetList,
    pub current_tab: usize,
    pub reset_tool_button: bool,
    pub reset_button: bool,
    pub reset_selectionbox: bool,
    pub dialog: Option<Dialog>,
    pub preference: Preference,
    pub current_tab_data: u32,
    pub current_selected_area: i32,
    pub tab_labels: Vec<TabText>,
    pub scrollbar: Scrollbar,
    pub start_view: usize,
    pub editor_label: Vec<String>,
    pub editor_textbox: Vec<Textbox>,
    pub editor_button: Vec<Button>,
    pub editor_selectionbox: Vec<SelectionBox>,
    pub selected_textbox: i32,
    pub selected_dropbox: i32,
}

/// Option `t` after `TabText::update` with label `name`: a hidden option
/// stays as it was; a shown one takes the label and is selected exactly
/// when `chosen`.
pub open spec fn relabelled(after: TabText, t: TabText, name: Seq<char>, chosen: bool) -> bool {
    if !t.is_visible {
        after == t
    } else {
        let marked = tab_after_select(TabText { text_changed: true, ..t }, chosen);
        &&& after.text@ == name
        &&& after.text_changed
        &&& after.is_selected == marked.is_selected
        &&& after.button_uv_y == marked.button_uv_y
        &&& after.button_changed == marked.button_changed
        &&& after.is_hover == t.is_hover
        &&& after.is_visible
        &&& after.button_width == t.button_width
    }
}

/// Whether a tab lists options.
pub open spec fn lists_options(tab: usize) -> bool {
    tab == TAB_LAYER || tab == TAB_ATTRIBUTE || tab == TAB_ZONE
}

/// The decimal text of a number.
fn decimal_text(n: u64) -> (s: String)
    ensures
        s@ == decimal(n as nat),
{
    let mut s = String::new();
    push_decimal(&mut s, n);
    assert(s@ =~= decimal(n as nat));
    s
}

/// Whether field `i` is selected after the pointer went to `hit`, where
/// `old_selected` was the selected field (negative for none) and `was`
/// tells whether field `i` was selected.
pub open spec fn selected_after(old_selected: i32, hit: Option<usize>, i: int, was: bool) -> bool {
    match hit {
        Some(h) => if old_selected >= 0 && old_selected == h {
            was
        } else if i == h {
            true
        } else if i == old_selected {
            false
        } else {
            was
        },
        None => if i == old_selected {
            false
        } else {
            was
        },
    }
}

/// The panel after tool `tool_index` is taken up (see
/// `Interface::set_tool`): the old tool's button goes back to normal and
/// the new one's shows selected; nothing else changes.
pub open spec fn tool_chosen(before: Interface, after: Interface, tool_index: usize) -> bool {
    &&& after.current_tool == tool_index
    &&& before.current_tool == tool_index ==> after.buttons == before.buttons
    &&& before.current_tool != tool_index ==> after.buttons@ == before.buttons@
        .update(before.current_tool as int, after_state(before.buttons@[before.current_tool as int], ButtonState::Normal))
        .update(tool_index as int, after_state(before.buttons@[tool_index as int], ButtonState::Selected))
    &&& after == (Interface { current_tool: after.current_tool, buttons: after.buttons, ..before })
}

/// The panel after the option listed at place `tab_index` of the open
/// tab is chosen (see `Interface::select_tab_option`): only the chosen
/// place, the tab's data and the options' looks change.
pub open spec fn tab_option_chosen(before: Interface, after: Interface, tab_index: usize) -> bool {
    let changes = before.current_selected_area != tab_index as i32
        && (before.current_tab == TAB_LAYER || before.current_tab == TAB_ZONE || before.current_tab == TAB_ATTRIBUTE)
        && before.tab_labels@[tab_index as int].is_visible;
    let area = before.current_selected_area;
    let unselected = if area >= 0 {
        before.tab_labels@.update(area as int, tab_after_select(before.tab_labels@[area as int], false))
    } else {
        before.tab_labels@
    };
    if changes {
        &&& after.current_selected_area == tab_index as i32
        &&& after.current_tab_data == (if before.current_tab == TAB_ATTRIBUTE {
            (before.start_view + tab_index) as u32
        } else {
            tab_index as u32
        })
        &&& after.tab_labels@ == unselected.update(tab_index as int, tab_after_select(unselected[tab_index as int], true))
        &&& after == (Interface {
            current_selected_area: after.current_selected_area,
            current_tab_data: after.current_tab_data,
            tab_labels: after.tab_labels,
            ..before
        })
    } else {
        after == before
    }
}

/// The panel after the zone tab's form is filled with `setting` (see
/// `Interface::open_zone_settings`).
pub open spec fn zone_form_filled(before: Interface, after: Interface, setting: MapZoneSetting) -> bool {
    &&& after.editor_textbox@.len() == before.editor_textbox@.len()
    &&& after.editor_textbox@[0].data@ == decimal(setting.max_npc as nat)
    &&& forall|i: int| 1 <= i < 6 ==> #[trigger] after.editor_textbox@[i].data@ == (match setting.npc_id[i - 1] {
        Some(id) => decimal(id as nat),
        None => Seq::<char>::empty(),
    })
    &&& forall|i: int| 6 <= i < after.editor_textbox@.len() ==> #[trigger] after.editor_textbox@[i] == before.editor_textbox@[i]
    &&& forall|i: int| 0 <= i < after.editor_textbox@.len() ==> #[trigger] after.editor_textbox@[i].is_selected
        == before.editor_textbox@[i].is_selected
    &&& after == (Interface { editor_textbox: after.editor_textbox, ..before })
}

impl Interface {
    /// Switches to tool `tool_index`: the button of the tool in use goes
    /// back to normal and the new one shows selected.
    pub fn set_tool(&mut self, tool_index: usize)
        requires
            old(self).current_tool < old(self).buttons@.len(),
            tool_index < old(self).buttons@.len(),
        ensures
            tool_chosen(*old(self), *final(self), tool_index),
    {
        if self.current_tool != tool_index {
            let cur = self.current_tool;
            self.buttons[cur].set_state(ButtonState::Normal);
            self.buttons[tool_index].set_state(ButtonState::Selected);
            self.current_tool = tool_index;
        }
    }

    /// Releases every tool button, once a button was clicked.
    pub fn reset_tool_button_click(&mut self)
        ensures
            !old(self).reset_tool_button ==> *final(self) == *old(self),
            old(self).reset_tool_button ==> final(self).buttons@.len() == old(self).buttons@.len()
                && forall|i: int| 0 <= i < old(self).buttons@.len()
                    ==> #[trigger] final(self).buttons@[i] == after_click(old(self).buttons@[i], false),
            *final(self) == (Interface { buttons: final(self).buttons, ..*old(self) }),
    {
        if !self.reset_tool_button {
            return;
        }
        let mut i: usize = 0;
        while i < self.buttons.len()
            invariant
                i <= self.buttons@.len(),
                self.buttons@.len() == old(self).buttons@.len(),
                forall|j: int| 0 <= j < i ==> #[trigger] self.buttons@[j] == after_click(old(self).buttons@[j], false),
                forall|j: int| i <= j < self.buttons@.len() ==> #[trigger] self.buttons@[j] == old(self).buttons@[j],
                *self == (Interface { buttons: self.buttons, ..*old(self) }),
            decreases self.buttons@.len() - i,
        {
            self.buttons[i].set_click(false);
            i = i + 1;
        }
    }

    /// The option chosen on the open tab: the layer, attribute or zone;
    /// 0 on any other tab.
    pub fn get_tab_option_data(&self) -> (d: u32)
        ensures
            d == (if self.current_tab == TAB_LAYER || self.current_tab == TAB_ATTRIBUTE || self.current_tab == TAB_ZONE {
                self.current_tab_data
            } else {
                0
            }),
    {
        if self.current_tab == TAB_LAYER || self.current_tab == TAB_ATTRIBUTE || self.current_tab == TAB_ZONE {
            self.current_tab_data
        } else {
            0
        }
    }

    /// Chooses the option listed at place `tab_index` of the open tab,
    /// when it is shown: the option chosen before is unselected. On the
    /// attribute tab the option is counted from the top of the scrolled
    /// list.
    pub fn select_tab_option(&mut self, tab_index: usize)
        requires
            tab_index < old(self).tab_labels@.len(),
            old(self).current_selected_area < old(self).tab_labels@.len(),
            (old(self).current_tab == TAB_LAYER || old(self).current_tab == TAB_ZONE)
                && old(self).current_selected_area != tab_index as i32
                && old(self).tab_labels@[tab_index as int].is_visible ==> old(self).current_selected_area >= 0,
            old(self).current_tab == TAB_ATTRIBUTE ==> old(self).start_view + tab_index <= u32::MAX,
        ensures
            tab_option_chosen(*old(self), *final(self), tab_index),
    {
        if self.current_selected_area != tab_index as i32 {
            if self.current_tab == TAB_LAYER || self.current_tab == TAB_ZONE {
                if self.tab_labels[tab_index].is_visible {
                    let area = self.current_selected_area as usize;
                    self.tab_labels[area].set_select(false);
                    self.tab_labels[tab_index].set_select(true);
                    self.current_tab_data = tab_index as u32;
                    self.current_selected_area = tab_index as i32;
                }
            } else if self.current_tab == TAB_ATTRIBUTE {
                if self.tab_labels[tab_index].is_visible {
                    if self.current_selected_area >= 0 {
                        let area = self.current_selected_area as usize;
                        self.tab_labels[area].set_select(false);
                    }
                    self.tab_labels[tab_index].set_select(true);
                    self.current_tab_data = (self.start_view + tab_index) as u32;
                    self.current_selected_area = tab_index as i32;
                }
            }
        }
    }

    /// Chooses the text field the pointer is over (`hit`), unselecting
    /// the one selected before; with no field under the pointer, none is
    /// selected.
    pub fn select_textbox(&mut self, hit: Option<usize>)
        requires
            hit matches Some(i) ==> i < old(self).editor_textbox@.len(),
            old(self).selected_textbox < old(self).editor_textbox@.len(),
        ensures
            final(self).editor_textbox@.len() == old(self).editor_textbox@.len(),
            final(self).selected_textbox == (match hit { Some(i) => i as i32, None => -1i32 }),
            forall|i: int| 0 <= i < final(self).editor_textbox@.len() ==> #[trigger] final(self).editor_textbox@[i].data
                == old(self).editor_textbox@[i].data,
            forall|i: int| 0 <= i < final(self).editor_textbox@.len() ==> #[trigger] final(self).editor_textbox@[i].is_selected
                == selected_after(old(self).selected_textbox, hit, i, old(self).editor_textbox@[i].is_selected),
            final(self).buttons == old(self).buttons,
            final(self).tab_labels == old(self).tab_labels,
            final(self).current_tab_data == old(self).current_tab_data,
    {
        match hit {
            Some(index) => {
                if self.selected_textbox >= 0 && self.selected_textbox as usize == index {
                    return;
                }
                if self.selected_textbox >= 0 {
                    let cur = self.selected_textbox as usize;
                    self.editor_textbox[cur].set_select(false);
                }
                self.editor_textbox[index].set_select(true);
                self.selected_textbox = index as i32;
            },
            None => {
                if self.selected_textbox >= 0 {
                    let cur = self.selected_textbox as usize;
                    self.editor_textbox[cur].set_select(false);
                }
                self.selected_textbox = -1;
            },
        }
    }

    /// Fills the zone tab's form with a zone's settings: the most npcs,
    /// then each npc's id, empty where there is none.
    pub fn open_zone_settings(&mut self, setting: &MapZoneSetting)
        requires
            old(self).editor_textbox@.len() >= 6,
        ensures
            zone_form_filled(*old(self), *final(self), *setting),
    {
        self.editor_textbox[0].input_text(decimal_text(setting.max_npc));
        let mut i: usize = 0;
        while i < 5
            invariant
                i <= 5,
                self.editor_textbox@.len() == old(self).editor_textbox@.len(),
                old(self).editor_textbox@.len() >= 6,
                self.editor_textbox@[0].data@ == decimal(setting.max_npc as nat),
                forall|j: int| 1 <= j < i + 1 ==> #[trigger] self.editor_textbox@[j].data@ == (match setting.npc_id[j - 1] {
                    Some(id) => decimal(id as nat),
                    None => Seq::<char>::empty(),
                }),
                forall|j: int| i + 1 <= j < self.editor_textbox@.len() ==> #[trigger] self.editor_textbox@[j] == old(self).editor_textbox@[j],
                forall|j: int| 0 <= j < self.editor_textbox@.len() ==> #[trigger] self.editor_textbox@[j].is_selected
                    == old(self).editor_textbox@[j].is_selected,
                *self == (Interface { editor_textbox: self.editor_textbox, ..*old(self) }),
            decreases 5 - i,
        {
            let text = match setting.npc_id[i] {
                Some(id) => decimal_text(id),
                None => String::new(),
            };
            self.editor_textbox[i + 1].input_text(text);
            i = i + 1;
        }
    }

    /// The attribute that the attribute tab's form describes (see
    /// `form_attribute`).
    pub fn get_attribute_setting(&self) -> (a: MapAttribute)
        requires
            self.current_tab_data < u32::MAX,
            self.current_tab_data + 1 == 3 ==> self.editor_textbox@.len() >= 1,
        ensures
            a == form_attribute(self.current_tab_data,
                Seq::new(self.editor_textbox@.len(), |i: int| self.editor_textbox@[i].data)),
    {
        let mut texts: Vec<String> = Vec::new();
        let mut i: usize = 0;
        while i < self.editor_textbox.len()
            invariant
                i <= self.editor_textbox@.len(),
                texts@.len() == i,
                forall|j: int| 0 <= j < i ==> #[trigger] texts@[j] == self.editor_textbox@[j].data,
            decreases self.editor_textbox@.len() - i,
        {
            texts.push(self.editor_textbox[i].data.clone());
            i = i + 1;
        }
        assert(texts@ =~= Seq::new(self.editor_textbox@.len(), |i: int| self.editor_textbox@[i].data));
        attribute_from_form(self.current_tab_data, &texts)
    }
}

/// `g1` is `g0` with the attribute options scrolled to start at
/// `cur_value` (see `Interface::update_scroll`).
pub open spec fn tabs_scrolled(g0: Interface, g1: Interface, cur_value: usize) -> bool {
    &&& g0.start_view == cur_value ==> g1 == g0
    &&& g0.start_view != cur_value ==> {
        &&& g1.start_view == cur_value
        &&& g1.tab_labels@.len() == g0.tab_labels@.len()
        &&& forall|i: int| 0 <= i < MAX_TAB_LABEL && cur_value + i < MAX_ATTRIBUTE - 1 ==> {
            let t = g0.tab_labels@[i];
            let chosen = g0.current_tab_data == cur_value + i;
            relabelled(#[trigger] g1.tab_labels@[i], t, attribute_name((cur_value + i + 1) as u32), chosen)
        }
        &&& forall|i: int| 0 <= i < g0.tab_labels@.len() && !(i < MAX_TAB_LABEL && cur_value + i < MAX_ATTRIBUTE - 1)
            ==> #[trigger] g1.tab_labels@[i] == g0.tab_labels@[i]
        &&& g1.current_selected_area == (
            if cur_value <= g0.current_tab_data && g0.current_tab_data < cur_value + MAX_TAB_LABEL
                && g0.current_tab_data < MAX_ATTRIBUTE - 1 {
                (g0.current_tab_data - cur_value) as i32
            } else {
                -1i32
            })
        &&& g1 == (Interface {
            tab_labels: g1.tab_labels,
            start_view: cur_value,
            current_selected_area: g1.current_selected_area,
            ..g0
        })
    }
}

impl Interface {
    /// Hovers the bar's buttons under the pointer (`hovered[i]` for
    /// button `i`) and no other.
    pub fn hover_tool_button(&mut self, hovered: &Vec<bool>)
        requires
            old(self).buttons@.len() == BUTTON_COUNT,
            hovered@.len() == BUTTON_COUNT,
        ensures
            final(self).buttons@.len() == BUTTON_COUNT,
            forall|i: int| 0 <= i < BUTTON_COUNT ==> #[trigger] final(self).buttons@[i]
                == after_hover(old(self).buttons@[i], hovered@[i]),
            *final(self) == (Interface { buttons: final(self).buttons, ..*old(self) }),
    {
        let mut index: usize = 0;
        while index < BUTTON_COUNT
            invariant
                index <= BUTTON_COUNT,
                hovered@.len() == BUTTON_COUNT,
                self.buttons@.len() == BUTTON_COUNT,
                *self == (Interface { buttons: self.buttons, ..*old(self) }),
                forall|i: int| 0 <= i < index ==> #[trigger] self.buttons@[i] == after_hover(old(self).buttons@[i], hovered@[i]),
                forall|i: int| index <= i < BUTTON_COUNT ==> #[trigger] self.buttons@[i] == old(self).buttons@[i],
            decreases BUTTON_COUNT - index,
        {
            self.buttons[index].set_hover(hovered[index]);
            index = index + 1;
        }
    }

    /// Presses the first button of the bar under the pointer (`hits[i]`
    /// for button `i`), remembering to release it, and returns its tool
    /// or tab number.
    pub fn click_tool_button(&mut self, hits: &Vec<bool>) -> (found: Option<usize>)
        requires
            hits@.len() == old(self).buttons@.len(),
            forall|i: int| 0 <= i < old(self).buttons@.len() ==> (#[trigger] old(self).buttons@[i]).index < old(self).buttons@.len(),
        ensures
            (forall|j: int| 0 <= j < hits@.len() ==> !#[trigger] hits@[j]) ==> found is None && *final(self) == *old(self),
            forall|i: int| 0 <= i < hits@.len() && #[trigger] hits@[i] && (forall|j: int| 0 <= j < i ==> !#[trigger] hits@[j]) ==> {
                let t = old(self).buttons@[i].index;
                &&& found == Some(t)
                &&& final(self).buttons@ == old(self).buttons@.update(t as int, after_click(old(self).buttons@[t as int], true))
                &&& final(self).reset_tool_button
                &&& *final(self) == (Interface { buttons: final(self).buttons, reset_tool_button: true, ..*old(self) })
            },
    {
        let mut index: usize = 0;
        while index < hits.len()
            invariant
                index <= hits@.len(),
                hits@.len() == old(self).buttons@.len(),
                *self == *old(self),
                forall|i: int| 0 <= i < old(self).buttons@.len() ==> (#[trigger] old(self).buttons@[i]).index < old(self).buttons@.len(),
                forall|j: int| 0 <= j < index ==> !#[trigger] hits@[j],
            decreases hits@.len() - index,
        {
            if hits[index] {
                let tool_index = self.buttons[index].index;
                self.buttons[tool_index].set_click(true);
                self.reset_tool_button = true;
                return Some(tool_index);
            }
            index = index + 1;
        }
        None
    }

    /// Hovers the form's buttons under the pointer (`hovered[i]` for
    /// button `i`) and no other.
    pub fn hover_buttons(&mut self, hovered: &Vec<bool>)
        requires
            hovered@.len() == old(self).editor_button@.len(),
        ensures
            final(self).editor_button@ == buttons_hovered(old(self).editor_button@, hovered@),
            *final(self) == (Interface { editor_button: final(self).editor_button, ..*old(self) }),
    {
        hover_all(&mut self.editor_button, hovered);
    }

    /// Once a form button was pressed, releases every form button.
    pub fn release_click(&mut self)
        ensures
            !old(self).reset_button ==> *final(self) == *old(self),
            old(self).reset_button ==> final(self).editor_button@ == buttons_released(old(self).editor_button@)
                && *final(self) == (Interface { editor_button: final(self).editor_button, ..*old(self) }),
    {
        if !self.reset_button {
            return;
        }
        release_all(&mut self.editor_button);
    }

    /// Presses the last form button under the pointer (`hits[i]` for
    /// button `i`) and returns its index.
    pub fn click_buttons(&mut self, hits: &Vec<bool>) -> (found: Option<usize>)
        requires
            hits@.len() == old(self).editor_button@.len(),
        ensures
            found == last_hit(hits@),
            found matches Some(i) ==> final(self).editor_button@ == old(self).editor_button@.update(i as int,
                button_after_click(old(self).editor_button@[i as int], true)) && final(self).reset_button,
            found is None ==> final(self).editor_button@ == old(self).editor_button@
                && final(self).reset_button == old(self).reset_button,
            *final(self) == (Interface { editor_button: final(self).editor_button, reset_button: final(self).reset_button, ..*old(self) }),
    {
        let found = find_last_hit(hits);
        match found {
            Some(index) => {
                self.editor_button[index].set_click(true);
                self.reset_button = true;
            },
            None => {},
        }
        found
    }

    /// Hovers the form's drop-down lists under the pointer (`hovered[i]`
    /// for list `i`) and no other.
    pub fn hover_selectionbox(&mut self, hovered: &Vec<bool>)
        requires
            hovered@.len() == old(self).editor_selectionbox@.len(),
        ensures
            final(self).editor_selectionbox@.len() == old(self).editor_selectionbox@.len(),
            forall|i: int| 0 <= i < hovered@.len() ==> {
                let b = old(self).editor_selectionbox@[i];
                let h = hovered@[i];
                #[trigger] final(self).editor_selectionbox@[i] == (if b.is_hover == h { b } else {
                    SelectionBox {
                        is_hover: h,
                        box_color: crate::interface::selection_box::box_look(h, false).0,
                        button_uv_y: crate::interface::selection_box::box_look(h, false).1,
                        button_changed: true,
                        ..b
                    }
                })
            },
            *final(self) == (Interface { editor_selectionbox: final(self).editor_selectionbox, ..*old(self) }),
    {
        let n = self.editor_selectionbox.len();
        let mut index: usize = 0;
        while index < n
            invariant
                n == old(self).editor_selectionbox@.len(),
                hovered@.len() == n,
                index <= n,
                self.editor_selectionbox@.len() == n,
                *self == (Interface { editor_selectionbox: self.editor_selectionbox, ..*old(self) }),
                forall|i: int| 0 <= i < index ==> {
                    let b = old(self).editor_selectionbox@[i];
                    let h = hovered@[i];
                    #[trigger] self.editor_selectionbox@[i] == (if b.is_hover == h { b } else {
                        SelectionBox {
                            is_hover: h,
                            box_color: crate::interface::selection_box::box_look(h, false).0,
                            button_uv_y: crate::interface::selection_box::box_look(h, false).1,
                            button_changed: true,
                            ..b
                        }
                    })
                },
                forall|i: int| index <= i < n ==> #[trigger] self.editor_selectionbox@[i] == old(self).editor_selectionbox@[i],
            decreases n - index,
        {
            self.editor_selectionbox[index].set_hover(hovered[index]);
            index = index + 1;
        }
    }

    /// Once a drop-down list was pressed, releases every list's box.
    pub fn release_selectionbox_click(&mut self)
        ensures
            !old(self).reset_selectionbox ==> *final(self) == *old(self),
            old(self).reset_selectionbox ==> {
                &&& final(self).editor_selectionbox@.len() == old(self).editor_selectionbox@.len()
                &&& forall|i: int| 0 <= i < old(self).editor_selectionbox@.len() ==> {
                    let b = old(self).editor_selectionbox@[i];
                    #[trigger] final(self).editor_selectionbox@[i] == (if !b.is_click { b } else {
                        SelectionBox {
                            is_click: false,
                            box_color: crate::interface::selection_box::box_look(b.is_hover, false).0,
                            button_uv_y: crate::interface::selection_box::box_look(b.is_hover, false).1,
                            button_changed: true,
                            ..b
                        }
                    })
                }
                &&& *final(self) == (Interface { editor_selectionbox: final(self).editor_selectionbox, ..*old(self) })
            },
    {
        if !self.reset_selectionbox {
            return;
        }
        let n = self.editor_selectionbox.len();
        let mut index: usize = 0;
        while index < n
            invariant
                n == old(self).editor_selectionbox@.len(),
                index <= n,
                self.editor_selectionbox@.len() == n,
                *self == (Interface { editor_selectionbox: self.editor_selectionbox, ..*old(self) }),
                forall|i: int| 0 <= i < index ==> {
                    let b = old(self).editor_selectionbox@[i];
                    #[trigger] self.editor_selectionbox@[i] == (if !b.is_click { b } else {
                        SelectionBox {
                            is_click: false,
                            box_color: crate::interface::selection_box::box_look(b.is_hover, false).0,
                            button_uv_y: crate::interface::selection_box::box_look(b.is_hover, false).1,
                            button_changed: true,
                            ..b
                        }
                    })
                },
                forall|i: int| index <= i < n ==> #[trigger] self.editor_selectionbox@[i] == old(self).editor_selectionbox@[i],
            decreases n - index,
        {
            self.editor_selectionbox[index].set_click(false);
            index = index + 1;
        }
    }

    /// Presses the box of the last drop-down list under the pointer
    /// (`hits[i]` for list `i`) and returns its index.
    pub fn click_selectionbox(&mut self, hits: &Vec<bool>) -> (found: Option<usize>)
        requires
            hits@.len() == old(self).editor_selectionbox@.len(),
        ensures
            found == last_hit(hits@),
            found matches Some(i) ==> {
                let b = old(self).editor_selectionbox@[i as int];
                &&& final(self).editor_selectionbox@ == old(self).editor_selectionbox@.update(i as int, if b.is_click { b } else {
                    SelectionBox {
                        is_click: true,
                        box_color: crate::interface::selection_box::box_look(b.is_hover, true).0,
                        button_uv_y: crate::interface::selection_box::box_look(b.is_hover, true).1,
                        button_changed: true,
                        ..b
                    }
                })
                &&& final(self).reset_selectionbox
            },
            found is None ==> final(self).editor_selectionbox@ == old(self).editor_selectionbox@
                && final(self).reset_selectionbox == old(self).reset_selectionbox,
            *final(self) == (Interface {
                editor_selectionbox: final(self).editor_selectionbox,
                reset_selectionbox: final(self).reset_selectionbox,
                ..*old(self)
            }),
    {
        let found = find_last_hit(hits);
        match found {
            Some(index) => {
                self.editor_selectionbox[index].set_click(true);
                self.reset_selectionbox = true;
            },
            None => {},
        }
        found
    }

    /// On a tab that lists options, hovers the shown options under the
    /// pointer (`hovered[i]` for option `i`) and no other.
    pub fn hover_tab_option(&mut self, hovered: &Vec<bool>)
        requires
            old(self).tab_labels@.len() >= MAX_TAB_LABEL,
            hovered@.len() >= MAX_TAB_LABEL,
        ensures
            !lists_options(old(self).current_tab) ==> *final(self) == *old(self),
            lists_options(old(self).current_tab) ==> {
                &&& final(self).tab_labels@.len() == old(self).tab_labels@.len()
                &&& forall|i: int| 0 <= i < MAX_TAB_LABEL ==> #[trigger] final(self).tab_labels@[i]
                    == tab_after_hover(old(self).tab_labels@[i], hovered@[i] && old(self).tab_labels@[i].is_visible)
                &&& forall|i: int| MAX_TAB_LABEL <= i < old(self).tab_labels@.len() ==> #[trigger] final(self).tab_labels@[i]
                    == old(self).tab_labels@[i]
                &&& *final(self) == (Interface { tab_labels: final(self).tab_labels, ..*old(self) })
            },
    {
        if !(self.current_tab == TAB_LAYER || self.current_tab == TAB_ATTRIBUTE || self.current_tab == TAB_ZONE) {
            return;
        }
        let mut index: usize = 0;
        while index < MAX_TAB_LABEL
            invariant
                index <= MAX_TAB_LABEL,
                hovered@.len() >= MAX_TAB_LABEL,
                self.tab_labels@.len() == old(self).tab_labels@.len(),
                old(self).tab_labels@.len() >= MAX_TAB_LABEL,
                *self == (Interface { tab_labels: self.tab_labels, ..*old(self) }),
                forall|i: int| 0 <= i < index ==> #[trigger] self.tab_labels@[i]
                    == tab_after_hover(old(self).tab_labels@[i], hovered@[i] && old(self).tab_labels@[i].is_visible),
                forall|i: int| index <= i < old(self).tab_labels@.len() ==> #[trigger] self.tab_labels@[i] == old(self).tab_labels@[i],
            decreases MAX_TAB_LABEL - index,
        {
            let over = hovered[index] && self.tab_labels[index].is_visible;
            self.tab_labels[index].set_hover(over);
            index = index + 1;
        }
    }

    /// On a tab that lists options, the first shown option under the
    /// pointer (`hits[i]` for option `i`).
    pub fn click_tab_option(&self, hits: &Vec<bool>) -> (found: Option<usize>)
        requires
            hits@.len() == self.tab_labels@.len(),
        ensures
            !lists_options(self.current_tab) ==> found is None,
            lists_options(self.current_tab) ==> {
                &&& found matches Some(i) ==> i < MAX_TAB_LABEL && i < hits@.len() && hits@[i as int]
                    && self.tab_labels@[i as int].is_visible
                    && forall|j: int| 0 <= j < i ==> !(#[trigger] hits@[j] && self.tab_labels@[j].is_visible)
                &&& found is None ==> forall|j: int| 0 <= j < hits@.len() && j < MAX_TAB_LABEL
                    ==> !(#[trigger] hits@[j] && self.tab_labels@[j].is_visible)
            },
    {
        if !(self.current_tab == TAB_LAYER || self.current_tab == TAB_ATTRIBUTE || self.current_tab == TAB_ZONE) {
            return None;
        }
        let mut index: usize = 0;
        while index < hits.len() && index < MAX_TAB_LABEL
            invariant
                index <= hits@.len(),
                index <= MAX_TAB_LABEL,
                hits@.len() == self.tab_labels@.len(),
                lists_options(self.current_tab),
                forall|j: int| 0 <= j < index ==> !(#[trigger] hits@[j] && self.tab_labels@[j].is_visible),
            decreases hits@.len() - index,
        {
            if hits[index] && self.tab_labels[index].is_visible {
                return Some(index);
            }
            index = index + 1;
        }
        None
    }

    /// Scrolls the attribute list so that its first option shows
    /// attribute kind `cur_value + 1`: every shown option is relabelled,
    /// selected exactly when it is the attribute chosen, which is then
    /// the selected option (none when the chosen one is out of view).
    pub fn update_scroll(&mut self, cur_value: usize)
        requires
            old(self).tab_labels@.len() >= MAX_TAB_LABEL,
            cur_value + MAX_TAB_LABEL < u32::MAX,
        ensures
            tabs_scrolled(*old(self), *final(self), cur_value),
    {
        if self.start_view == cur_value {
            return;
        }
        self.start_view = cur_value;
        self.current_selected_area = -1;
        let mut index: usize = 0;
        while index < MAX_TAB_LABEL
            invariant
                index <= MAX_TAB_LABEL,
                cur_value + MAX_TAB_LABEL < u32::MAX,
                self.start_view == cur_value,
                self.tab_labels@.len() == old(self).tab_labels@.len(),
                old(self).tab_labels@.len() >= MAX_TAB_LABEL,
                *self == (Interface {
                    tab_labels: self.tab_labels,
                    start_view: cur_value,
                    current_selected_area: self.current_selected_area,
                    ..*old(self)
                }),
                forall|i: int| 0 <= i < index && cur_value + i < MAX_ATTRIBUTE - 1 ==> {
                    let t = old(self).tab_labels@[i];
                    let chosen = old(self).current_tab_data == cur_value + i;
                    relabelled(#[trigger] self.tab_labels@[i], t, attribute_name((cur_value + i + 1) as u32), chosen)
                },
                forall|i: int| 0 <= i < old(self).tab_labels@.len() && !(i < index && cur_value + i < MAX_ATTRIBUTE - 1)
                    ==> #[trigger] self.tab_labels@[i] == old(self).tab_labels@[i],
                self.current_selected_area == (
                    if cur_value <= old(self).current_tab_data && old(self).current_tab_data < cur_value + index
                        && old(self).current_tab_data < MAX_ATTRIBUTE - 1 {
                        (old(self).current_tab_data - cur_value) as i32
                    } else {
                        -1i32
                    }),
            decreases MAX_TAB_LABEL - index,
        {
            let sel_index = self.start_view + index;
            if sel_index < MAX_ATTRIBUTE - 1 {
                let name = MapAttribute::as_str((sel_index + 1) as u32);
                if self.current_tab_data == sel_index as u32 {
                    self.tab_labels[index].update(name, true);
                    self.current_selected_area = index as i32;
                } else {
                    self.tab_labels[index].update(name, false);
                }
            }
            index = index + 1;
        }
    }

    /// Opens a dialog of kind `dialogtype` over `data` (see
    /// `Dialog::new`), unless one is open already.
    pub fn open_dialog(&mut self, dialogtype: DialogType, data: Option<IndexMap<String, bool>>, scrollbar_start: usize)
        requires
            dialogtype == DialogType::TypeMapSave ==> data is Some,
            scrollbar_start >= 75,
        ensures
            old(self).dialog is Some ==> *final(self) == *old(self),
            old(self).dialog is None ==> (final(self).dialog matches Some(d)
                && crate::interface::dialog::dialog_made(d, dialogtype, data, scrollbar_start)),
            old(self).dialog is None ==> *final(self) == (Interface { dialog: final(self).dialog, ..*old(self) }),
    {
        if self.dialog.is_some() {
            return;
        }
        self.dialog = Some(Dialog::new(dialogtype, data, scrollbar_start));
    }

    /// Closes the dialog.
    pub fn close_dialog(&mut self)
        ensures
            *final(self) == (Interface { dialog: None, ..*old(self) }),
    {
        self.dialog = None;
    }
}

/// The text of the tile position label before the pointer moved.
pub open spec fn first_tile_label() -> Seq<char> {
    "Tile [ X: 32 Y: 32 ]"@
}

impl Interface {
    /// The panel as the editor opens: the draw tool and the layer tab
    /// selected, the tab listing the eight layers by name (`layer_names`)
    /// with the first chosen, the tileset list of the sheets
    /// (`tilesheet_names`), the labels naming the first sheet, map
    /// (0, 0, 0) and the first tile position, the attribute scrollbar
    /// (hidden), and a closed preference window over `config_data` on its
    /// filled general tab, whose scrollbar starts at
    /// `preference_scrollbar_start`.
    pub fn new(layer_names: &Vec<String>, tilesheet_names: &Vec<String>, config_data: KeybindData,
        preference_scrollbar_start: usize) -> (gui: Self)
        requires
            layer_names@.len() >= LAYER_COUNT,
            tilesheet_names@.len() >= LIST_ENTRIES,
            config_data.key_code@.len() >= EDITOR_KEY_COUNT,
            config_data.key_code_modifier@.len() >= EDITOR_KEY_COUNT,
        ensures
            gui.labels@.len() == 5,
            gui.labels@[0]@ == Seq::<char>::empty(),
            gui.labels@[1]@ == tilesheet_names@[0]@,
            gui.labels@[2]@ == map_title(0, 0, 0, false),
            gui.labels@[3]@ == first_tile_label(),
            gui.labels@[4]@ == Seq::<char>::empty(),
            gui.buttons@.len() == BUTTON_COUNT,
            forall|i: int| 0 <= i < BUTTON_COUNT ==> (#[trigger] gui.buttons@[i]).index == i
                && gui.buttons@[i].state == (if i == TOOL_DRAW || i == TAB_LAYER { ButtonState::Selected } else { ButtonState::Normal })
                && gui.buttons@[i].image_row == (if i == TOOL_DRAW || i == TAB_LAYER { 2u32 } else { 0u32 })
                && gui.buttons@[i].image_changed == (i == TOOL_DRAW || i == TAB_LAYER)
                && !gui.buttons@[i].in_hover && !gui.buttons@[i].in_click,
            gui.current_tool == TOOL_DRAW,
            gui.current_tab == TAB_LAYER,
            gui.tab_labels@.len() == MAX_TAB_LABEL,
            options_wf(gui.tab_labels@),
            forall|i: int| 0 <= i < LAYER_COUNT ==> option_shown(#[trigger] gui.tab_labels@[i], layer_names@[i]@, 194, i == 0),
            forall|i: int| LAYER_COUNT <= i < MAX_TAB_LABEL ==> !(#[trigger] gui.tab_labels@[i]).is_visible,
            gui.current_tab_data == 0,
            gui.current_selected_area == 0,
            gui.start_view == 0,
            !gui.reset_tool_button && !gui.reset_button && !gui.reset_selectionbox,
            gui.dialog is None,
            gui.editor_label@.len() == 0,
            gui.editor_textbox@.len() == 0,
            gui.editor_button@.len() == 0,
            gui.editor_selectionbox@.len() == 0,
            gui.selected_textbox == -1,
            gui.selected_dropbox == -1,
            track_of(gui.scrollbar, 0),
            !gui.scrollbar.visible,
            gui.scrollbar.start_pos == 326,
            gui.scrollbar.max_scroll_size == 309,
            gui.tileset_list.selected_tileset == 0,
            !gui.tileset_list.visible,
            gui.tileset_list.texts@.len() == LIST_ENTRIES,
            forall|i: int| 0 <= i < LIST_ENTRIES ==> #[trigger] gui.tileset_list.texts@[i]@ == tilesheet_names@[i]@,
            gui.preference.wf(),
            !gui.preference.is_open,
            gui.preference.selected_menu == PREF_TAB_GENERAL,
            gui.preference.config_data == config_data,
            tab_filled(gui.preference),
    {
        let mut labels: Vec<String> = Vec::new();
        labels.push(String::new());
        labels.push(tilesheet_names[0].clone());
        labels.push(map_name_label(0, 0, 0, false));
        labels.push(String::from_str("Tile [ X: 32 Y: 32 ]"));
        labels.push(String::new());

        let mut buttons: Vec<ToolButton> = Vec::new();
        let mut index: usize = 0;
        while index < BUTTON_COUNT
            invariant
                index <= BUTTON_COUNT,
                buttons@.len() == index,
                forall|i: int| 0 <= i < index ==> #[trigger] buttons@[i] == (ToolButton {
                    index: i as usize,
                    image_row: 0,
                    image_changed: false,
                    state: ButtonState::Normal,
                    in_hover: false,
                    in_click: false,
                }),
            decreases BUTTON_COUNT - index,
        {
            buttons.push(ToolButton::new(index));
            index = index + 1;
        }
        buttons[TOOL_DRAW].set_state(ButtonState::Selected);
        buttons[TAB_LAYER].set_state(ButtonState::Selected);

        let mut tab_labels: Vec<TabText> = Vec::new();
        let mut index: usize = 0;
        while index < MAX_TAB_LABEL
            invariant
                index <= MAX_TAB_LABEL,
                tab_labels@.len() == index,
                forall|i: int| 0 <= i < index ==> (#[trigger] tab_labels@[i]).text@ == Seq::<char>::empty()
                    && tab_labels@[i].button_width == 194 && tab_labels@[i].button_uv_y == 0
                    && !tab_labels@[i].is_selected && !tab_labels@[i].is_hover && !tab_labels@[i].is_visible,
            decreases MAX_TAB_LABEL - index,
        {
            tab_labels.push(TabText::new());
            index = index + 1;
        }
        let mut index: usize = 0;
        while index < LAYER_COUNT
            invariant
                index <= LAYER_COUNT,
                layer_names@.len() >= LAYER_COUNT,
                tab_labels@.len() == MAX_TAB_LABEL,
                forall|i: int| 0 <= i < index ==> option_shown(#[trigger] tab_labels@[i], layer_names@[i]@, 194, false),
                forall|i: int| index <= i < MAX_TAB_LABEL ==> (#[trigger] tab_labels@[i]).text@ == Seq::<char>::empty()
                    && tab_labels@[i].button_width == 194 && tab_labels@[i].button_uv_y == 0
                    && !tab_labels@[i].is_selected && !tab_labels@[i].is_hover && !tab_labels@[i].is_visible,
            decreases LAYER_COUNT - index,
        {
            tab_labels[index].init(layer_names[index].as_str(), 194);
            index = index + 1;
        }
        tab_labels[0].set_select(true);

        let scrollbar = Scrollbar::new(326, 0, 309, 20);
        let tileset_list = TilesetList::new(tilesheet_names);
        let mut preference = Preference::new(config_data, preference_scrollbar_start);
        open_preference_tab(&mut preference);

        Interface {
            labels,
            buttons,
            current_tool: TOOL_DRAW,
            tileset_list,
            current_tab: TAB_LAYER,
            reset_tool_button: false,
            reset_button: false,
            reset_selectionbox: false,
            dialog: None,
            preference,
            current_tab_data: 0,
            current_selected_area: 0,
            tab_labels,
            scrollbar,
            start_view: 0,
            editor_label: Vec::new(),
            editor_textbox: Vec::new(),
            editor_button: Vec::new(),
            editor_selectionbox: Vec::new(),
            selected_textbox: -1,
            selected_dropbox: -1,
        }
    }
}

} // verus!
