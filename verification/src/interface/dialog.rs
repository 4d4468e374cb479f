//! Dialog windows: their kinds, their buttons, and the choices they
//! report.

use vstd::prelude::*;
use indexmap::IndexMap;
use crate::editor_data::{flagged_list, flagged_keys, change_flags};
use crate::interface::scrollbar::{Scrollbar, track_of, track_fits};
use crate::interface::textbox::Textbox;

verus! {

#[derive(Clone, Copy, PartialEq, Eq, Structural, Debug)]
pub enum DialogType {
    TypeNone,
    TypeExitConfirm,
    TypeMapSave,
    TypeMapLoad,
}

#[derive(Clone, Copy, PartialEq, Eq, Structural, Debug)]
pub enum DialogButtonType {
    ButtonNone,
    ButtonConfirm,
    ButtonDecline,
    ButtonCancel,
}

/// A dialog button: the row of its image strip (pixels from the top:
/// 0 normal, 36 hovered, 72 pressed) and how far its label sits above
/// the button's bottom edge (6 while pressed, else 8).
pub struct DialogButton {
    pub label: String,
    pub image_uv_y: u32,
    pub text_offset_y: u32,
    pub image_changed: bool,
    pub text_changed: bool,
    pub button_type: DialogButtonType,
    pub in_hover: bool,
    pub in_click: bool,
}

/// The button after `set_hover`.
pub open spec fn dialog_button_after_hover(b: DialogButton, in_hover: bool) -> DialogButton {
    if b.in_hover == in_hover {
        b
    } else if !b.in_click {
        DialogButton { in_hover, image_uv_y: if in_hover { 36 } else { 0 }, image_changed: true, ..b }
    } else {
        DialogButton { in_hover, ..b }
    }
}

/// The button after `set_click`.
pub open spec fn dialog_button_after_click(b: DialogButton, in_click: bool) -> DialogButton {
    if b.in_click == in_click {
        b
    } else if in_click {
        DialogButton { in_click, image_uv_y: 72, text_offset_y: 6, image_changed: true, text_changed: true, ..b }
    } else {
        DialogButton {
            in_click,
            image_uv_y: if !b.in_hover { 0 } else { 36 },
            text_offset_y: 8,
            image_changed: true,
            text_changed: true,
            ..b
        }
    }
}

/// An idle button of kind `button_type` labelled `msg`.
pub open spec fn idle_dialog_button(b: DialogButton, msg: Seq<char>, button_type: DialogButtonType) -> bool {
    &&& b.label@ == msg
    &&& b.image_uv_y == 0
    &&& b.text_offset_y == 8
    &&& !b.image_changed
    &&& !b.text_changed
    &&& b.button_type == button_type
    &&& !b.in_hover
    &&& !b.in_click
}

impl DialogButton {
    /// An idle button of the given kind labelled `msg`.
    pub fn new(msg: &str, button_type: DialogButtonType) -> (b: Self)
        ensures
            idle_dialog_button(b, msg@, button_type),
    {
        DialogButton {
            label: String::from_str(msg),
            image_uv_y: 0,
            text_offset_y: 8,
            image_changed: false,
            text_changed: false,
            button_type,
            in_hover: false,
            in_click: false,
        }
    }

    /// Marks the button hovered or not; a pressed button keeps showing
    /// its pressed row.
    pub fn set_hover(&mut self, in_hover: bool)
        ensures
            *final(self) == dialog_button_after_hover(*old(self), in_hover),
    {
        if self.in_hover == in_hover {
            return;
        }
        self.in_hover = in_hover;
        if !self.in_click {
            if self.in_hover {
                self.image_uv_y = 36;
            } else {
                self.image_uv_y = 0;
            }
            self.image_changed = true;
        }
    }

    /// Presses or releases the button: pressed it shows its third row
    /// and its label sinks; released it shows the hovered or normal row.
    pub fn set_click(&mut self, in_click: bool)
        ensures
            *final(self) == dialog_button_after_click(*old(self), in_click),
    {
        if self.in_click == in_click {
            return;
        }
        self.in_click = in_click;
        if self.in_click {
            self.image_uv_y = 72;
            self.text_offset_y = 6;
        } else {
            if !self.in_hover {
                self.image_uv_y = 0;
            } else {
                self.image_uv_y = 36;
            }
            self.text_offset_y = 8;
        }
        self.image_changed = true;
        self.text_changed = true;
    }
}

/// Pressing and then releasing a button brings back the row and label
/// position it had while hovered or idle.
pub proof fn lemma_press_release_restores(b: DialogButton)
    requires
        !b.in_click,
        b.image_uv_y == (if b.in_hover { 36u32 } else { 0u32 }),
        b.text_offset_y == 8,
    ensures
        dialog_button_after_click(dialog_button_after_click(b, true), false).image_uv_y == b.image_uv_y,
        dialog_button_after_click(dialog_button_after_click(b, true), false).text_offset_y == b.text_offset_y,
        dialog_button_after_click(dialog_button_after_click(b, true), false).in_hover == b.in_hover,
        !dialog_button_after_click(dialog_button_after_click(b, true), false).in_click,
{
}

/// The message a dialog shows.
pub open spec fn dialog_message(t: DialogType) -> Seq<char> {
    match t {
        DialogType::TypeExitConfirm => "Are you sure that you want to close the editor?"@,
        DialogType::TypeMapSave => "Would you like to save the changes to the following map/s?"@,
        DialogType::TypeMapLoad => "Please enter the map location that you would like to load"@,
        DialogType::TypeNone => "Error"@,
    }
}

/// The buttons a dialog offers, in order: each one's label and kind.
pub open spec fn dialog_buttons(t: DialogType) -> Seq<(Seq<char>, DialogButtonType)> {
    match t {
        DialogType::TypeExitConfirm => seq![("Yes"@, DialogButtonType::ButtonConfirm), ("No"@, DialogButtonType::ButtonCancel)],
        DialogType::TypeMapSave => seq![("Save"@, DialogButtonType::ButtonConfirm),
            ("Don't Save"@, DialogButtonType::ButtonDecline), ("Cancel"@, DialogButtonType::ButtonCancel)],
        DialogType::TypeMapLoad => seq![("Load"@, DialogButtonType::ButtonConfirm), ("Cancel"@, DialogButtonType::ButtonCancel)],
        DialogType::TypeNone => Seq::empty(),
    }
}

/// How many lines the save dialog's list shows at once.
pub const DIALOG_LIST_ROWS: usize = 4;

/// The labels of the dialog's content: for the save dialog its list
/// lines, showing the first entries (blank past the last); for the load
/// dialog the names of its three fields.
pub open spec fn dialog_content(t: DialogType, data: Seq<Seq<char>>) -> Seq<Seq<char>> {
    match t {
        DialogType::TypeMapSave => Seq::new(DIALOG_LIST_ROWS as nat, |i: int| if i < data.len() { data[i] } else { Seq::empty() }),
        DialogType::TypeMapLoad => seq!["X"@, "Y"@, "Group"@],
        _ => Seq::empty(),
    }
}

/// A dialog: its kind, buttons and message, whether a button was
/// pressed, its content's labels, its text fields (the load dialog's
/// map x, y and group), the entries it lists (the save dialog's unsaved
/// maps), the field typed into, and the scroll of its list.
pub struct Dialog {
    pub dialog_type: DialogType,
    pub buttons: Vec<DialogButton>,
    pub message: String,
    pub did_click: bool,
    pub content_text: Vec<String>,
    pub editor_textbox: Vec<Textbox>,
    pub editor_data: Vec<String>,
    pub editing_index: usize,
    pub scrollbar: Scrollbar,
    pub start_view_index: usize,
}

/// The dialog `Dialog::new` makes of kind `dialog_type` over `data`,
/// its scrollbar's track starting at `scrollbar_start`.
pub open spec fn dialog_made(d: Dialog, dialog_type: DialogType, data: Option<IndexMap<String, bool>>, scrollbar_start: usize) -> bool {
    &&& d.dialog_type == dialog_type
    &&& d.message@ == dialog_message(dialog_type)
    &&& d.buttons@.len() == dialog_buttons(dialog_type).len()
    &&& forall|i: int| 0 <= i < d.buttons@.len() ==> idle_dialog_button(#[trigger] d.buttons@[i],
        dialog_buttons(dialog_type)[i].0, dialog_buttons(dialog_type)[i].1)
    &&& !d.did_click
    &&& dialog_type == DialogType::TypeMapSave ==> {
        &&& d.editor_data@.len() == flagged_keys(change_flags(data->0)).len()
        &&& forall|i: int| 0 <= i < d.editor_data@.len() ==> #[trigger] d.editor_data@[i]@
            == flagged_keys(change_flags(data->0))[i]
    }
    &&& dialog_type != DialogType::TypeMapSave ==> d.editor_data@.len() == 0
    &&& d.content_text@.len() == dialog_content(dialog_type, Seq::new(d.editor_data@.len(), |i: int| d.editor_data@[i]@)).len()
    &&& forall|i: int| 0 <= i < d.content_text@.len() ==> #[trigger] d.content_text@[i]@
        == dialog_content(dialog_type, Seq::new(d.editor_data@.len(), |i: int| d.editor_data@[i]@))[i]
    &&& d.editor_textbox@.len() == (if dialog_type == DialogType::TypeMapLoad { 3int } else { 0 })
    &&& forall|i: int| 0 <= i < d.editor_textbox@.len() ==> (#[trigger] d.editor_textbox@[i]).data@.len() == 0
        && !d.editor_textbox@[i].is_selected
    &&& d.editing_index == 0
    &&& d.start_view_index == 0
    &&& track_of(d.scrollbar, (if dialog_type == DialogType::TypeMapSave && d.editor_data@.len() > DIALOG_LIST_ROWS {
        d.editor_data@.len() - DIALOG_LIST_ROWS } else { 0 }) as usize)
    &&& d.scrollbar.start_pos == scrollbar_start
    &&& d.scrollbar.visible
    &&& d.scrollbar.cur_value == 0
}

impl Dialog {
    /// A dialog of kind `dialog_type`. The save dialog lists the keys of
    /// `data` whose flag is set, in order, and its scrollbar (whose track
    /// starts at `scrollbar_start`) has a value for each past the first
    /// four; the scrollbar is shown.
    pub fn new(dialog_type: DialogType, data: Option<IndexMap<String, bool>>, scrollbar_start: usize) -> (d: Self)
        requires
            dialog_type == DialogType::TypeMapSave ==> data is Some,
            scrollbar_start >= 75,
        ensures
            dialog_made(d, dialog_type, data, scrollbar_start),
    {
        let mut buttons: Vec<DialogButton> = Vec::new();
        let message;
        match dialog_type {
            DialogType::TypeExitConfirm => {
                buttons.push(DialogButton::new("Yes", DialogButtonType::ButtonConfirm));
                buttons.push(DialogButton::new("No", DialogButtonType::ButtonCancel));
                message = String::from_str("Are you sure that you want to close the editor?");
            },
            DialogType::TypeMapSave => {
                buttons.push(DialogButton::new("Save", DialogButtonType::ButtonConfirm));
                buttons.push(DialogButton::new("Don't Save", DialogButtonType::ButtonDecline));
                buttons.push(DialogButton::new("Cancel", DialogButtonType::ButtonCancel));
                message = String::from_str("Would you like to save the changes to the following map/s?");
            },
            DialogType::TypeMapLoad => {
                buttons.push(DialogButton::new("Load", DialogButtonType::ButtonConfirm));
                buttons.push(DialogButton::new("Cancel", DialogButtonType::ButtonCancel));
                message = String::from_str("Please enter the map location that you would like to load");
            },
            DialogType::TypeNone => {
                message = String::from_str("Error");
            },
        }
        let editor_data: Vec<String> = match dialog_type {
            DialogType::TypeMapSave => {
                match &data {
                    Some(list_data) => flagged_list(list_data),
                    None => Vec::new(),
                }
            },
            _ => Vec::new(),
        };
        let ghost shown = Seq::new(editor_data@.len(), |i: int| editor_data@[i]@);
        let mut content_text: Vec<String> = Vec::new();
        match dialog_type {
            DialogType::TypeMapSave => {
                let mut index: usize = 0;
                while index < DIALOG_LIST_ROWS
                    invariant
                        index <= DIALOG_LIST_ROWS,
                        dialog_type == DialogType::TypeMapSave,
                        shown == Seq::new(editor_data@.len(), |i: int| editor_data@[i]@),
                        content_text@.len() == index,
                        forall|i: int| 0 <= i < index ==> #[trigger] content_text@[i]@ == dialog_content(dialog_type, shown)[i],
                    decreases DIALOG_LIST_ROWS - index,
                {
                    if index < editor_data.len() {
                        content_text.push(editor_data[index].clone());
                    } else {
                        content_text.push(String::new());
                    }
                    index = index + 1;
                }
            },
            DialogType::TypeMapLoad => {
                content_text.push(String::from_str("X"));
                content_text.push(String::from_str("Y"));
                content_text.push(String::from_str("Group"));
            },
            _ => {},
        }
        let mut editor_textbox: Vec<Textbox> = Vec::new();
        if dialog_type == DialogType::TypeMapLoad {
            editor_textbox.push(Textbox::new());
            editor_textbox.push(Textbox::new());
            editor_textbox.push(Textbox::new());
        }
        let mut scrollbar_amount: usize = 0;
        if dialog_type == DialogType::TypeMapSave && editor_data.len() > DIALOG_LIST_ROWS {
            scrollbar_amount = editor_data.len() - DIALOG_LIST_ROWS;
        }
        proof {
            assert(75usize / ((scrollbar_amount + 1) as usize) <= 75usize) by (nonlinear_arith)
                requires scrollbar_amount < usize::MAX;
            assert(track_fits(scrollbar_start, scrollbar_amount, 75, 5));
        }
        let mut scrollbar = Scrollbar::new(scrollbar_start, scrollbar_amount, 75, 5);
        scrollbar.show();
        let d = Dialog {
            dialog_type,
            buttons,
            message,
            did_click: false,
            content_text,
            editor_textbox,
            editor_data,
            editing_index: 0,
            scrollbar,
            start_view_index: 0,
        };
        assert(d.content_text@.len() == dialog_content(dialog_type, shown).len());
        d
    }

    /// Hovers the buttons under the pointer (`hovered[i]` for button `i`)
    /// and no other.
    pub fn hover_buttons(&mut self, hovered: &Vec<bool>)
        requires
            hovered@.len() == old(self).buttons@.len(),
        ensures
            final(self).buttons@.len() == old(self).buttons@.len(),
            forall|i: int| 0 <= i < old(self).buttons@.len() ==> #[trigger] final(self).buttons@[i]
                == dialog_button_after_hover(old(self).buttons@[i], hovered@[i]),
            *final(self) == (Dialog { buttons: final(self).buttons, ..*old(self) }),
    {
        let n = self.buttons.len();
        let mut index: usize = 0;
        while index < n
            invariant
                n == old(self).buttons@.len(),
                hovered@.len() == n,
                index <= n,
                self.buttons@.len() == n,
                *self == (Dialog { buttons: self.buttons, ..*old(self) }),
                forall|i: int| 0 <= i < index ==> #[trigger] self.buttons@[i]
                    == dialog_button_after_hover(old(self).buttons@[i], hovered@[i]),
                forall|i: int| index <= i < n ==> #[trigger] self.buttons@[i] == old(self).buttons@[i],
            decreases n - index,
        {
            self.buttons[index].set_hover(hovered[index]);
            index = index + 1;
        }
    }

    /// Once a button was pressed, releases every button.
    pub fn release_click(&mut self)
        ensures
            !old(self).did_click ==> *final(self) == *old(self),
            old(self).did_click ==> {
                &&& final(self).buttons@.len() == old(self).buttons@.len()
                &&& forall|i: int| 0 <= i < old(self).buttons@.len() ==> #[trigger] final(self).buttons@[i]
                    == dialog_button_after_click(old(self).buttons@[i], false)
                &&& *final(self) == (Dialog { buttons: final(self).buttons, ..*old(self) })
            },
    {
        if !self.did_click {
            return;
        }
        let n = self.buttons.len();
        let mut index: usize = 0;
        while index < n
            invariant
                n == old(self).buttons@.len(),
                index <= n,
                self.buttons@.len() == n,
                *self == (Dialog { buttons: self.buttons, ..*old(self) }),
                forall|i: int| 0 <= i < index ==> #[trigger] self.buttons@[i]
                    == dialog_button_after_click(old(self).buttons@[i], false),
                forall|i: int| index <= i < n ==> #[trigger] self.buttons@[i] == old(self).buttons@[i],
            decreases n - index,
        {
            self.buttons[index].set_click(false);
            index = index + 1;
        }
    }

    /// Presses the first button under the pointer (`hits[i]` for button
    /// `i`) and returns its kind, or `ButtonNone` when there is none.
    pub fn click_buttons(&mut self, hits: &Vec<bool>) -> (kind: DialogButtonType)
        requires
            hits@.len() == old(self).buttons@.len(),
        ensures
            (forall|j: int| 0 <= j < hits@.len() ==> !#[trigger] hits@[j]) ==> kind == DialogButtonType::ButtonNone
                && *final(self) == *old(self),
            forall|i: int| 0 <= i < hits@.len() && #[trigger] hits@[i] && (forall|j: int| 0 <= j < i ==> !#[trigger] hits@[j]) ==> {
                &&& kind == old(self).buttons@[i].button_type
                &&& final(self).buttons@ == old(self).buttons@.update(i, dialog_button_after_click(old(self).buttons@[i], true))
                &&& final(self).did_click == (old(self).did_click || kind != DialogButtonType::ButtonNone)
                &&& *final(self) == (Dialog { buttons: final(self).buttons, did_click: final(self).did_click, ..*old(self) })
            },
    {
        let mut index: usize = 0;
        while index < hits.len()
            invariant
                index <= hits@.len(),
                hits@.len() == old(self).buttons@.len(),
                *self == *old(self),
                forall|j: int| 0 <= j < index ==> !#[trigger] hits@[j],
            decreases hits@.len() - index,
        {
            if hits[index] {
                self.buttons[index].set_click(true);
                let kind = self.buttons[index].button_type;
                if kind != DialogButtonType::ButtonNone {
                    self.did_click = true;
                }
                return kind;
            }
            index = index + 1;
        }
        DialogButtonType::ButtonNone
    }

    /// On the load dialog, selects the fields under the pointer
    /// (`hits[i]` for field `i`) and types into the last of them; with
    /// none under it, the field typed into keeps that role, unselected.
    pub fn select_text(&mut self, hits: &Vec<bool>)
        requires
            hits@.len() == old(self).editor_textbox@.len(),
            old(self).editing_index < old(self).editor_textbox@.len(),
        ensures
            old(self).dialog_type != DialogType::TypeMapLoad ==> *final(self) == *old(self),
            old(self).dialog_type == DialogType::TypeMapLoad ==> {
                &&& final(self).editor_textbox@.len() == old(self).editor_textbox@.len()
                &&& forall|i: int| 0 <= i < hits@.len() ==> (#[trigger] final(self).editor_textbox@[i]).is_selected == hits@[i]
                    && final(self).editor_textbox@[i].data == old(self).editor_textbox@[i].data
                &&& final(self).editing_index == (match crate::interface::button::last_hit(hits@) {
                    Some(i) => i,
                    None => old(self).editing_index,
                })
                &&& *final(self) == (Dialog { editor_textbox: final(self).editor_textbox, editing_index: final(self).editing_index, ..*old(self) })
            },
    {
        if self.dialog_type != DialogType::TypeMapLoad {
            return;
        }
        let last_selected = self.editing_index;
        let n = self.editor_textbox.len();
        let mut selected_index: Option<usize> = None;
        let mut index: usize = 0;
        while index < n
            invariant
                n == old(self).editor_textbox@.len(),
                hits@.len() == n,
                index <= n,
                self.editor_textbox@.len() == n,
                *self == (Dialog { editor_textbox: self.editor_textbox, ..*old(self) }),
                forall|i: int| 0 <= i < index ==> (#[trigger] self.editor_textbox@[i]).is_selected == hits@[i]
                    && self.editor_textbox@[i].data == old(self).editor_textbox@[i].data,
                forall|i: int| index <= i < n ==> #[trigger] self.editor_textbox@[i] == old(self).editor_textbox@[i],
                selected_index == crate::interface::button::last_hit(hits@.take(index as int)),
            decreases n - index,
        {
            proof {
                assert(hits@.take(index as int + 1).drop_last() =~= hits@.take(index as int));
                assert(hits@.take(index as int + 1).last() == hits@[index as int]);
            }
            if hits[index] {
                self.editor_textbox[index].set_select(true);
                selected_index = Some(index);
            } else {
                self.editor_textbox[index].set_select(false);
            }
            index = index + 1;
        }
        proof {
            assert(hits@.take(n as int) =~= hits@);
        }
        proof {
            crate::interface::button::lemma_last_hit(hits@);
        }
        match selected_index {
            Some(i) => {
                self.editing_index = i;
            },
            None => {
                self.editor_textbox[last_selected].set_select(false);
                self.editing_index = last_selected;
            },
        }
    }

    /// Relabels the save dialog's list from its scroll: line `i` shows
    /// entry `start_view_index + i` when there is one.
    pub fn update_list(&mut self)
        requires
            old(self).dialog_type == DialogType::TypeMapSave ==> old(self).content_text@.len() >= DIALOG_LIST_ROWS,
            old(self).start_view_index + DIALOG_LIST_ROWS <= usize::MAX,
            old(self).content_text@.len() >= DIALOG_LIST_ROWS || old(self).editor_data@.len() <= old(self).start_view_index,
        ensures
            final(self).content_text@.len() == old(self).content_text@.len(),
            forall|i: int| 0 <= i < old(self).content_text@.len() ==> #[trigger] final(self).content_text@[i]@ == (
                if i < DIALOG_LIST_ROWS && old(self).start_view_index + i < old(self).editor_data@.len() {
                    old(self).editor_data@[old(self).start_view_index + i]@
                } else {
                    old(self).content_text@[i]@
                }),
            *final(self) == (Dialog { content_text: final(self).content_text, ..*old(self) }),
    {
        let mut index: usize = 0;
        while index < DIALOG_LIST_ROWS
            invariant
                index <= DIALOG_LIST_ROWS,
                old(self).start_view_index + DIALOG_LIST_ROWS <= usize::MAX,
                old(self).content_text@.len() >= DIALOG_LIST_ROWS || old(self).editor_data@.len() <= old(self).start_view_index,
                self.content_text@.len() == old(self).content_text@.len(),
                *self == (Dialog { content_text: self.content_text, ..*old(self) }),
                forall|i: int| 0 <= i < old(self).content_text@.len() ==> #[trigger] self.content_text@[i]@ == (
                    if i < index && old(self).start_view_index + i < old(self).editor_data@.len() {
                        old(self).editor_data@[old(self).start_view_index + i]@
                    } else {
                        old(self).content_text@[i]@
                    }),
            decreases DIALOG_LIST_ROWS - index,
        {
            let text_index = index + self.start_view_index;
            if text_index < self.editor_data.len() {
                let item = self.editor_data[text_index].clone();
                self.content_text.set(index, item);
            }
            index = index + 1;
        }
    }

    /// Scrolls the list so that its first line shows entry
    /// `scroll_index`; says whether that changed anything.
    pub fn update_scroll(&mut self, scroll_index: usize) -> (changed: bool)
        ensures
            changed == (old(self).start_view_index != scroll_index),
            *final(self) == (Dialog { start_view_index: scroll_index, ..*old(self) }),
    {
        if self.start_view_index != scroll_index {
            self.start_view_index = scroll_index;
            return true;
        }
        false
    }
}

} // verus!
