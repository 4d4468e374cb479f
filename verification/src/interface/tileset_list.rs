//! The list of tilesets: a button per visible entry, one entry chosen.
//! A button's strip holds three rows: normal, hovered, selected.

use vstd::prelude::*;
use crate::interface::scrollbar::{Scrollbar, track_of};
use crate::resource::MAX_TILESHEET;

verus! {

/// How many entries the list shows at once.
pub const MAX_VISIBLE_LIST: u32 = 18;

/// How many buttons the list has: one per sheet, at most a screenful.
pub const LIST_ENTRIES: usize = 4;

/// A button of the tileset list.
pub struct SelectButton {
    pub image_row: u32,
    pub image_changed: bool,
    pub in_hover: bool,
    pub is_selected: bool,
}

/// The button after `set_hover`: a selected button keeps its row.
pub open spec fn select_button_after_hover(b: SelectButton, in_hover: bool) -> SelectButton {
    if b.in_hover == in_hover {
        b
    } else if !b.is_selected {
        SelectButton { in_hover, image_row: if in_hover { 1 } else { 0 }, image_changed: true, ..b }
    } else {
        SelectButton { in_hover, ..b }
    }
}

/// The button after `set_select`.
pub open spec fn select_button_after_select(b: SelectButton, is_select: bool) -> SelectButton {
    if b.is_selected == is_select {
        b
    } else {
        SelectButton { is_selected: is_select, image_row: if is_select { 2 } else { 0 }, image_changed: true, ..b }
    }
}

impl SelectButton {
    pub fn set_hover(&mut self, in_hover: bool)
        ensures
            *final(self) == select_button_after_hover(*old(self), in_hover),
    {
        if self.in_hover != in_hover {
            self.in_hover = in_hover;
            if !self.is_selected {
                if in_hover {
                    self.image_row = 1;
                } else {
                    self.image_row = 0;
                }
                self.image_changed = true;
            }
        }
    }

    pub fn set_select(&mut self, is_select: bool)
        ensures
            *final(self) == select_button_after_select(*old(self), is_select),
    {
        if self.is_selected != is_select {
            self.is_selected = is_select;
            if is_select {
                self.image_row = 2;
            } else {
                self.image_row = 0;
            }
            self.image_changed = true;
        }
    }
}

/// The list of tilesets: its buttons and their labels, the sheet shown
/// by the first button, and the sheet chosen with the button showing it,
/// if one does.
pub struct TilesetList {
    pub visible: bool,
    pub selection_buttons: Vec<SelectButton>,
    pub texts: Vec<String>,
    pub start_view_index: usize,
    pub selected_tileset: usize,
    pub view_index: Option<usize>,
    pub scrollbar: Scrollbar,
}

/// A list button of the right size, idle and unselected.
pub open spec fn fresh_button(b: SelectButton) -> bool {
    b.image_row == 0 && !b.in_hover && !b.is_selected
}

/// The list after it is relabelled from the sheet names `names` (see
/// `TilesetList::update_list`).
pub open spec fn list_relabelled(before: TilesetList, after: TilesetList, names: Seq<String>) -> bool {
    &&& !before.visible ==> after == before
    &&& before.visible ==> {
        &&& after.selection_buttons@.len() == before.selection_buttons@.len()
        &&& after.texts@.len() == before.texts@.len()
        &&& forall|i: int| 0 <= i < before.selection_buttons@.len() ==> #[trigger] after.selection_buttons@[i]
            == select_button_after_select(before.selection_buttons@[i],
                before.selected_tileset == before.start_view_index + i)
        &&& forall|i: int| 0 <= i < before.texts@.len() ==> #[trigger] after.texts@[i]@
            == names[before.start_view_index + i]@
        &&& after.view_index == before.view_of(before.selected_tileset)
        &&& after.start_view_index == before.start_view_index
        &&& after.selected_tileset == before.selected_tileset
        &&& after.visible == before.visible
        &&& after.scrollbar == before.scrollbar
    }
}

/// The list after it is shown (see `TilesetList::show`): a hidden list
/// and its scrollbar appear and every button is redrawn.
pub open spec fn list_shown(before: TilesetList, after: TilesetList) -> bool {
    &&& before.visible ==> after == before
    &&& !before.visible ==> {
        &&& after.visible
        &&& after.scrollbar == (Scrollbar { visible: true, images_changed: true, ..before.scrollbar })
        &&& after.selection_buttons@.len() == before.selection_buttons@.len()
        &&& forall|i: int| 0 <= i < before.selection_buttons@.len() ==> #[trigger] after.selection_buttons@[i]
            == (SelectButton { image_changed: true, ..before.selection_buttons@[i] })
        &&& after.texts == before.texts
        &&& after.start_view_index == before.start_view_index
        &&& after.selected_tileset == before.selected_tileset
        &&& after.view_index == before.view_index
    }
}

/// The list hidden, with its scrollbar.
pub open spec fn list_hidden(l: TilesetList) -> TilesetList {
    TilesetList { visible: false, scrollbar: Scrollbar { visible: false, ..l.scrollbar }, ..l }
}

/// The list after the button under the pointer (`hit`) is picked (see
/// `TilesetList::select_list`); `changed` tells whether the choice changed.
pub open spec fn list_picked(before: TilesetList, after: TilesetList, hit: Option<usize>, changed: bool) -> bool {
    &&& !changed ==> after == before
    &&& changed ==> ({
        let i = hit->0;
        let unselected = match before.view_index {
            Some(v) => before.selection_buttons@.update(v as int,
                select_button_after_select(before.selection_buttons@[v as int], false)),
            None => before.selection_buttons@,
        };
        &&& after.selected_tileset == before.start_view_index + i
        &&& after.view_index == Some(i)
        &&& after.selection_buttons@ == unselected.update(i as int,
            select_button_after_select(unselected[i as int], true))
        &&& after.texts == before.texts
        &&& after.start_view_index == before.start_view_index
        &&& after.visible == before.visible
        &&& after.scrollbar == before.scrollbar
    })
}

impl TilesetList {
    /// The button a sheet shows on, when it is in view.
    pub open spec fn view_of(self, tileset: usize) -> Option<usize> {
        if self.start_view_index <= tileset < self.start_view_index + self.selection_buttons@.len() {
            Some((tileset - self.start_view_index) as usize)
        } else {
            None
        }
    }

    /// A hidden list of the first sheets, by name, with the first chosen;
    /// its scrollbar has a value for each sheet past a screenful.
    pub fn new(names: &Vec<String>) -> (l: Self)
        requires
            names@.len() >= LIST_ENTRIES,
        ensures
            !l.visible,
            l.selection_buttons@.len() == LIST_ENTRIES,
            l.texts@.len() == LIST_ENTRIES,
            forall|i: int| 0 <= i < LIST_ENTRIES ==> #[trigger] l.texts@[i]@ == names@[i]@,
            l.selection_buttons@[0] == (SelectButton { image_row: 2, image_changed: true, in_hover: false, is_selected: true }),
            forall|i: int| 1 <= i < LIST_ENTRIES ==> fresh_button(#[trigger] l.selection_buttons@[i]),
            l.start_view_index == 0,
            l.selected_tileset == 0,
            l.view_index == Some(0usize),
            track_of(l.scrollbar, 0),
            l.scrollbar.start_pos == 758,
            l.scrollbar.max_scroll_size == 377,
            l.scrollbar.min_bar_size == 20,
            !l.scrollbar.visible,
            l.scrollbar.cur_value == 0,
    {
        let mut selection_buttons: Vec<SelectButton> = Vec::new();
        let mut texts: Vec<String> = Vec::new();
        let mut index: usize = 0;
        while index < LIST_ENTRIES
            invariant
                index <= LIST_ENTRIES,
                names@.len() >= LIST_ENTRIES,
                selection_buttons@.len() == index,
                texts@.len() == index,
                forall|i: int| 0 <= i < index ==> fresh_button(#[trigger] selection_buttons@[i]) && !selection_buttons@[i].image_changed,
                forall|i: int| 0 <= i < index ==> #[trigger] texts@[i]@ == names@[i]@,
            decreases LIST_ENTRIES - index,
        {
            selection_buttons.push(SelectButton { image_row: 0, image_changed: false, in_hover: false, is_selected: false });
            texts.push(names[index].clone());
            index = index + 1;
        }
        let value: u32 = if MAX_TILESHEET > MAX_VISIBLE_LIST { MAX_TILESHEET } else { MAX_VISIBLE_LIST };
        let scrollbar = Scrollbar::new(758, (value - MAX_VISIBLE_LIST) as usize, 377, 20);
        selection_buttons[0].set_select(true);
        TilesetList {
            visible: false,
            selection_buttons,
            texts,
            start_view_index: 0,
            selected_tileset: 0,
            view_index: Some(0),
            scrollbar,
        }
    }

    /// Chooses the sheet of the button under the pointer (`hit`) on a
    /// shown list; says whether the choice changed. The button of the
    /// sheet chosen before, if in view, is unselected.
    pub fn select_list(&mut self, hit: Option<usize>) -> (changed: bool)
        requires
            hit matches Some(i) ==> i < old(self).selection_buttons@.len(),
            old(self).view_index matches Some(v) ==> v < old(self).selection_buttons@.len(),
            old(self).start_view_index + old(self).selection_buttons@.len() <= usize::MAX,
        ensures
            changed == (old(self).visible && (hit matches Some(i) && old(self).selected_tileset != old(self).start_view_index + i)),
            list_picked(*old(self), *final(self), hit, changed),
    {
        if !self.visible {
            return false;
        }
        match hit {
            Some(index) => {
                let tileset_index = self.start_view_index + index;
                if self.selected_tileset != tileset_index {
                    match self.view_index {
                        Some(view_index) => { self.selection_buttons[view_index].set_select(false); },
                        None => {},
                    }
                    self.selection_buttons[index].set_select(true);
                    self.selected_tileset = tileset_index;
                    self.view_index = Some(index);
                    return true;
                }
                false
            },
            None => false,
        }
    }

    /// Relabels a shown list after a scroll: button `i` shows sheet
    /// `start_view_index + i`, selected exactly when it is the chosen
    /// sheet.
    pub fn update_list(&mut self, names: &Vec<String>)
        requires
            old(self).texts@.len() == old(self).selection_buttons@.len(),
            old(self).start_view_index + old(self).selection_buttons@.len() <= names@.len(),
        ensures
            list_relabelled(*old(self), *final(self), names@),
    {
        if !self.visible {
            return;
        }
        self.view_index = None;
        let n = self.selection_buttons.len();
        let total = names.len();
        let mut index: usize = 0;
        while index < n
            invariant
                n == old(self).selection_buttons@.len(),
                total == names@.len(),
                index <= n,
                self.visible,
                self.texts@.len() == n,
                self.selection_buttons@.len() == n,
                self.start_view_index == old(self).start_view_index,
                self.selected_tileset == old(self).selected_tileset,
                self.scrollbar == old(self).scrollbar,
                self.start_view_index + n <= names@.len(),
                forall|i: int| 0 <= i < index ==> #[trigger] self.selection_buttons@[i]
                    == select_button_after_select(old(self).selection_buttons@[i],
                        old(self).selected_tileset == old(self).start_view_index + i),
                forall|i: int| index <= i < n ==> #[trigger] self.selection_buttons@[i] == old(self).selection_buttons@[i],
                forall|i: int| 0 <= i < index ==> #[trigger] self.texts@[i]@ == names@[old(self).start_view_index + i]@,
                self.view_index == (if old(self).start_view_index <= old(self).selected_tileset < old(self).start_view_index + index {
                    Some((old(self).selected_tileset - old(self).start_view_index) as usize)
                } else {
                    None
                }),
            decreases n - index,
        {
            let tileset_index = index + self.start_view_index;
            if self.selected_tileset == tileset_index {
                self.selection_buttons[index].set_select(true);
                self.view_index = Some(index);
            } else {
                self.selection_buttons[index].set_select(false);
            }
            self.texts.set(index, names[tileset_index].clone());
            index = index + 1;
        }
    }

    /// Scrolls a shown list so that its first button shows sheet
    /// `scroll_index`; says whether that changed anything.
    pub fn update_scroll(&mut self, scroll_index: usize) -> (changed: bool)
        ensures
            changed == (old(self).visible && old(self).start_view_index != scroll_index),
            changed ==> *final(self) == (TilesetList { start_view_index: scroll_index, ..*old(self) }),
            !changed ==> *final(self) == *old(self),
    {
        if !self.visible {
            return false;
        }
        if self.start_view_index != scroll_index {
            self.start_view_index = scroll_index;
            return true;
        }
        false
    }

    /// Hovers, on a shown list, the buttons under the pointer
    /// (`hovered[i]` for button `i`) and no other.
    pub fn hover_selection(&mut self, hovered: &Vec<bool>)
        requires
            hovered@.len() == old(self).selection_buttons@.len(),
        ensures
            !old(self).visible ==> *final(self) == *old(self),
            old(self).visible ==> {
                &&& final(self).selection_buttons@.len() == old(self).selection_buttons@.len()
                &&& forall|i: int| 0 <= i < old(self).selection_buttons@.len() ==> #[trigger] final(self).selection_buttons@[i]
                    == select_button_after_hover(old(self).selection_buttons@[i], hovered@[i])
                &&& *final(self) == (TilesetList { selection_buttons: final(self).selection_buttons, ..*old(self) })
            },
    {
        if !self.visible {
            return;
        }
        let n = self.selection_buttons.len();
        let mut index: usize = 0;
        while index < n
            invariant
                n == old(self).selection_buttons@.len(),
                hovered@.len() == n,
                index <= n,
                self.selection_buttons@.len() == n,
                *self == (TilesetList { selection_buttons: self.selection_buttons, ..*old(self) }),
                forall|i: int| 0 <= i < index ==> #[trigger] self.selection_buttons@[i]
                    == select_button_after_hover(old(self).selection_buttons@[i], hovered@[i]),
                forall|i: int| index <= i < n ==> #[trigger] self.selection_buttons@[i] == old(self).selection_buttons@[i],
            decreases n - index,
        {
            self.selection_buttons[index].set_hover(hovered[index]);
            index = index + 1;
        }
    }

    /// Shows the list and its scrollbar; every button is redrawn.
    pub fn show(&mut self)
        ensures
            list_shown(*old(self), *final(self)),
    {
        if self.visible {
            return;
        }
        self.visible = true;
        self.scrollbar.show();
        let n = self.selection_buttons.len();
        let mut index: usize = 0;
        while index < n
            invariant
                n == old(self).selection_buttons@.len(),
                index <= n,
                self.selection_buttons@.len() == n,
                self.visible,
                self.scrollbar == (Scrollbar { visible: true, images_changed: true, ..old(self).scrollbar }),
                self.texts == old(self).texts,
                self.start_view_index == old(self).start_view_index,
                self.selected_tileset == old(self).selected_tileset,
                self.view_index == old(self).view_index,
                forall|i: int| 0 <= i < index ==> #[trigger] self.selection_buttons@[i]
                    == (SelectButton { image_changed: true, ..old(self).selection_buttons@[i] }),
                forall|i: int| index <= i < n ==> #[trigger] self.selection_buttons@[i] == old(self).selection_buttons@[i],
            decreases n - index,
        {
            self.selection_buttons[index].image_changed = true;
            index = index + 1;
        }
    }

    /// Hides the list and its scrollbar.
    pub fn hide_list(&mut self)
        ensures
            *final(self) == list_hidden(*old(self)),
    {
        self.visible = false;
        self.scrollbar.hide_scrollbar();
    }
}

} // verus!
