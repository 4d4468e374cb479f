//! A drop-down list: its rows light up under the mouse and the chosen
//! one stays marked.

use vstd::prelude::*;
use crate::color::Color;
use crate::interface::scrollbar::{Scrollbar, reset_scrollbar, track_of, track_fits, bar_size};

verus! {

/// One row of a drop-down list.
pub struct ListText {
    pub rect_color: Color,
    pub text: String,
    pub is_hover: bool,
    pub is_select: bool,
}

pub open spec fn list_hover_color() -> Color { Color { r: 55, g: 55, b: 55, alpha: 255 } }
pub open spec fn list_idle_color() -> Color { Color { r: 35, g: 35, b: 35, alpha: 255 } }
pub open spec fn list_select_color() -> Color { Color { r: 20, g: 20, b: 20, alpha: 255 } }

/// The row after `set_hover`: a chosen row ignores the mouse.
pub open spec fn list_after_hover(t: ListText, is_hover: bool) -> ListText {
    if t.is_hover == is_hover || t.is_select {
        t
    } else {
        ListText { is_hover, rect_color: if is_hover { list_hover_color() } else { list_idle_color() }, ..t }
    }
}

/// The row after `set_select`.
pub open spec fn list_after_select(t: ListText, is_select: bool) -> ListText {
    if t.is_select == is_select {
        t
    } else {
        ListText {
            is_select,
            rect_color: if is_select {
                list_select_color()
            } else if t.is_hover {
                list_hover_color()
            } else {
                list_idle_color()
            },
            ..t
        }
    }
}

impl ListText {
    /// A copy of the row.
    fn clone_row(&self) -> (r: Self)
        ensures
            r.rect_color == self.rect_color,
            r.text@ == self.text@,
            r.is_hover == self.is_hover,
            r.is_select == self.is_select,
    {
        ListText { rect_color: self.rect_color, text: self.text.clone(), is_hover: self.is_hover, is_select: self.is_select }
    }

    pub fn set_hover(&mut self, is_hover: bool)
        ensures
            final(self).rect_color == list_after_hover(*old(self), is_hover).rect_color,
            final(self).is_hover == list_after_hover(*old(self), is_hover).is_hover,
            final(self).is_select == old(self).is_select,
            final(self).text == old(self).text,
    {
        if self.is_hover == is_hover || self.is_select {
            return;
        }
        self.is_hover = is_hover;
        if self.is_hover {
            self.rect_color = Color::rgba(55, 55, 55, 255);
        } else {
            self.rect_color = Color::rgba(35, 35, 35, 255);
        }
    }

    pub fn set_select(&mut self, is_select: bool)
        ensures
            final(self).rect_color == list_after_select(*old(self), is_select).rect_color,
            final(self).is_select == is_select,
            final(self).is_hover == old(self).is_hover,
            final(self).text == old(self).text,
    {
        if self.is_select == is_select {
            return;
        }
        self.is_select = is_select;
        if self.is_select {
            self.rect_color = Color::rgba(20, 20, 20, 255);
        } else {
            if self.is_hover {
                self.rect_color = Color::rgba(55, 55, 55, 255);
            } else {
                self.rect_color = Color::rgba(35, 35, 35, 255);
            }
        }
    }
}

/// A chosen row shows the chosen colour whatever the mouse does.
pub proof fn lemma_selected_row_ignores_hover(t: ListText, is_hover: bool)
    requires
        t.is_select,
        t.rect_color == list_select_color(),
    ensures
        list_after_hover(t, is_hover).rect_color == list_select_color(),
{
}

/// How many rows a drop-down list shows at once.
pub const LIST_ROWS: usize = 5;

/// How many rows a list of `n` entries has.
pub open spec fn row_count(n: nat) -> nat {
    if n > LIST_ROWS { LIST_ROWS as nat } else { n }
}

/// Row `new` shows entry `item` and is chosen exactly when `chosen`,
/// where it was `old` before.
pub open spec fn row_shows(new: ListText, old: ListText, item: String, chosen: bool) -> bool {
    &&& new.text@ == item@
    &&& new.is_select == chosen
    &&& new.is_hover == old.is_hover
    &&& new.rect_color == list_after_select(old, chosen).rect_color
}

/// The colour of the box and the row of its button's strip.
pub open spec fn box_look(is_hover: bool, is_click: bool) -> (Color, u32) {
    if is_click {
        (list_select_color(), 48)
    } else if is_hover {
        (list_hover_color(), 24)
    } else {
        (list_idle_color(), 0)
    }
}

/// A drop-down list: the box showing the chosen entry, its button, the
/// rows of the open list (with a scrollbar when the entries do not fit).
pub struct SelectionBox {
    pub box_color: Color,
    pub button_uv_y: u32,
    pub button_changed: bool,
    pub text: String,
    pub list_text: Vec<ListText>,
    pub list: Vec<String>,
    pub scrollbar: Scrollbar,
    pub is_list_visible: bool,
    pub is_hover: bool,
    pub is_click: bool,
    pub selected_index: usize,
    pub list_exceed: bool,
    pub start_index: usize,
}

/// The drop-down list after it opens (see `SelectionBox::show_list`).
pub open spec fn box_list_shown(before: SelectionBox, after: SelectionBox) -> bool {
    &&& after.is_list_visible
    &&& after.start_index == 0
    &&& after.list_text@.len() == before.list_text@.len()
    &&& forall|i: int| 0 <= i < before.list_text@.len()
        ==> row_shows(#[trigger] after.list_text@[i], before.list_text@[i],
            before.list@[i], before.selected_index == i)
    &&& before.list_exceed ==> {
        &&& after.scrollbar.visible
        &&& after.scrollbar.cur_value == 0
        &&& !after.scrollbar.in_hover
        &&& track_of(before.scrollbar, before.scrollbar.max_value)
            ==> track_of(after.scrollbar, before.scrollbar.max_value)
    }
    &&& !before.list_exceed ==> after.scrollbar == before.scrollbar
    &&& after.list == before.list
    &&& after.text == before.text
    &&& after.selected_index == before.selected_index
    &&& after.box_color == before.box_color
    &&& after.button_uv_y == before.button_uv_y
    &&& after.is_hover == before.is_hover
    &&& after.is_click == before.is_click
}

/// `b1` is `b0` with its open list scrolled to start at `start_pos`
/// (see `SelectionBox::update_list`).
pub open spec fn box_scrolled(b0: SelectionBox, b1: SelectionBox, start_pos: usize) -> bool {
    &&& b0.start_index == start_pos || !b0.list_exceed ==> b1 == b0
    &&& !(b0.start_index == start_pos || !b0.list_exceed) ==> {
        &&& b1.start_index == start_pos
        &&& b1.list_text@.len() == b0.list_text@.len()
        &&& forall|i: int| 0 <= i < b0.list_text@.len() && start_pos + i < b0.list@.len()
            ==> row_shows(#[trigger] b1.list_text@[i], b0.list_text@[i],
                b0.list@[start_pos + i], b0.selected_index == start_pos + i)
        &&& forall|i: int| 0 <= i < b0.list_text@.len() && start_pos + i >= b0.list@.len()
            ==> #[trigger] b1.list_text@[i] == b0.list_text@[i]
        &&& b1 == (SelectionBox { list_text: b1.list_text, start_index: start_pos, ..b0 })
    }
}

impl SelectionBox {
    /// A list has an entry, a row per entry up to a screenful, and a
    /// scrollbar exactly when the entries do not fit.
    pub open spec fn wf(self) -> bool {
        &&& self.list@.len() > 0
        &&& self.list_text@.len() == row_count(self.list@.len())
        &&& self.list_exceed == (self.list@.len() > LIST_ROWS)
    }

    /// A closed list of `list`, showing its first entry; the scrollbar,
    /// whose track starts at `scrollbar_start`, has a value for each
    /// entry past a screenful.
    pub fn new(list: Vec<String>, scrollbar_start: usize) -> (b: Self)
        requires
            list@.len() > 0,
            scrollbar_start >= 90,
        ensures
            b.wf(),
            b.list@ == list@,
            b.text@ == list@[0]@,
            forall|i: int| 0 <= i < b.list_text@.len() ==> {
                &&& (#[trigger] b.list_text@[i]).text@ == list@[i]@
                &&& !b.list_text@[i].is_hover && !b.list_text@[i].is_select
                &&& b.list_text@[i].rect_color == list_idle_color()
            },
            b.box_color == list_idle_color(),
            b.button_uv_y == 0,
            !b.button_changed,
            b.list_exceed == (list@.len() > LIST_ROWS),
            !b.is_list_visible && !b.is_hover && !b.is_click,
            b.selected_index == 0,
            b.start_index == 0,
            track_of(b.scrollbar, if list@.len() > LIST_ROWS { (list@.len() - LIST_ROWS) as usize } else { 0 }),
            b.scrollbar.start_pos == scrollbar_start,
            b.scrollbar.max_scroll_size == 90,
            b.scrollbar.min_bar_size == 20,
            b.scrollbar.cur_value == 0,
            !b.scrollbar.visible,
    {
        let visible_list = if list.len() < LIST_ROWS { list.len() } else { LIST_ROWS };
        let list_exceed = list.len() > LIST_ROWS;
        let left_over = if list.len() > LIST_ROWS { list.len() - LIST_ROWS } else { 0 };
        proof {
            let size = bar_size(90, left_over, 20);
            assert(90usize / ((left_over + 1) as usize) <= 90usize) by (nonlinear_arith)
                requires left_over < usize::MAX;
            assert(size <= 90);
            assert(track_fits(scrollbar_start, left_over, 90, 20));
        }
        let scrollbar = Scrollbar::new(scrollbar_start, left_over, 90, 20);
        let mut list_text: Vec<ListText> = Vec::new();
        let mut index: usize = 0;
        while index < visible_list
            invariant
                visible_list == row_count(list@.len()),
                index <= visible_list,
                list_text@.len() == index,
                forall|i: int| 0 <= i < index ==> {
                    &&& (#[trigger] list_text@[i]).text@ == list@[i]@
                    &&& !list_text@[i].is_hover && !list_text@[i].is_select
                    &&& list_text@[i].rect_color == list_idle_color()
                },
            decreases visible_list - index,
        {
            list_text.push(ListText {
                rect_color: Color::rgba(35, 35, 35, 255),
                text: list[index].clone(),
                is_hover: false,
                is_select: false,
            });
            index = index + 1;
        }
        let text = list[0].clone();
        SelectionBox {
            box_color: Color::rgba(35, 35, 35, 255),
            button_uv_y: 0,
            button_changed: false,
            text,
            list_text,
            list,
            scrollbar,
            is_list_visible: false,
            is_hover: false,
            is_click: false,
            selected_index: 0,
            list_exceed,
            start_index: 0,
        }
    }

    /// Relabels rows from entry `start`: row `i` shows entry `start + i`,
    /// when there is one, chosen exactly when it is the chosen entry.
    fn relabel(&mut self, start: usize)
        requires
            old(self).wf(),
            start + LIST_ROWS <= usize::MAX,
        ensures
            final(self).list_text@.len() == old(self).list_text@.len(),
            forall|i: int| 0 <= i < old(self).list_text@.len() && start + i < old(self).list@.len()
                ==> row_shows(#[trigger] final(self).list_text@[i], old(self).list_text@[i],
                    old(self).list@[start + i], old(self).selected_index == start + i),
            forall|i: int| 0 <= i < old(self).list_text@.len() && start + i >= old(self).list@.len()
                ==> #[trigger] final(self).list_text@[i] == old(self).list_text@[i],
            *final(self) == (SelectionBox { list_text: final(self).list_text, ..*old(self) }),
    {
        let rows = self.list_text.len();
        let mut index: usize = 0;
        while index < LIST_ROWS
            invariant
                old(self).wf(),
                start + LIST_ROWS <= usize::MAX,
                rows == old(self).list_text@.len(),
                index <= LIST_ROWS,
                self.list_text@.len() == rows,
                *self == (SelectionBox { list_text: self.list_text, ..*old(self) }),
                forall|i: int| 0 <= i < index && i < rows && start + i < old(self).list@.len()
                    ==> row_shows(#[trigger] self.list_text@[i], old(self).list_text@[i],
                        old(self).list@[start + i], old(self).selected_index == start + i),
                forall|i: int| 0 <= i < rows && (i >= index || start + i >= old(self).list@.len())
                    ==> #[trigger] self.list_text@[i] == old(self).list_text@[i],
            decreases LIST_ROWS - index,
        {
            let list_index = index + start;
            if list_index < self.list.len() {
                proof {
                    assert(index < rows);
                }
                let chosen = self.selected_index == list_index;
                let item = self.list[list_index].clone();
                let mut row = self.list_text[index].clone_row();
                row.set_select(chosen);
                row.text = item;
                self.list_text.set(index, row);
            }
            index = index + 1;
        }
    }

    /// Scrolls an overfull list so that its first row shows entry
    /// `start_pos`; the rows are relabelled.
    pub fn update_list(&mut self, start_pos: usize)
        requires
            old(self).wf(),
            start_pos + LIST_ROWS <= usize::MAX,
        ensures
            box_scrolled(*old(self), *final(self), start_pos),
    {
        if self.start_index == start_pos || !self.list_exceed {
            return;
        }
        self.relabel(start_pos);
        self.start_index = start_pos;
    }

    /// Opens the list scrolled to its top, rows relabelled from the first
    /// entry; an overfull list shows its scrollbar, reset to the top.
    pub fn show_list(&mut self)
        requires
            old(self).wf(),
        ensures
            final(self).wf(),
            box_list_shown(*old(self), *final(self)),
    {
        self.is_list_visible = true;
        self.start_index = 0;
        self.relabel(0);
        if self.list_exceed {
            self.scrollbar.show();
            reset_scrollbar(&mut self.scrollbar);
        }
    }

    /// Closes the list.
    pub fn hide_list(&mut self)
        ensures
            *final(self) == (SelectionBox { is_list_visible: false, ..*old(self) }),
    {
        self.is_list_visible = false;
    }

    /// Records whether the pointer is over the box.
    pub fn set_hover(&mut self, is_hover: bool)
        ensures
            old(self).is_hover == is_hover ==> *final(self) == *old(self),
            old(self).is_hover != is_hover ==> *final(self) == (SelectionBox {
                is_hover,
                box_color: if is_hover { list_hover_color() } else { list_idle_color() },
                button_uv_y: if is_hover { 24 } else { 0 },
                button_changed: true,
                ..*old(self)
            }),
    {
        if self.is_hover == is_hover {
            return;
        }
        self.is_hover = is_hover;
        if self.is_hover {
            self.box_color = Color::rgba(55, 55, 55, 255);
            self.button_uv_y = 24;
        } else {
            self.box_color = Color::rgba(35, 35, 35, 255);
            self.button_uv_y = 0;
        }
        self.button_changed = true;
    }

    /// Presses or releases the box.
    pub fn set_click(&mut self, is_click: bool)
        ensures
            old(self).is_click == is_click ==> *final(self) == *old(self),
            old(self).is_click != is_click ==> *final(self) == (SelectionBox {
                is_click,
                box_color: box_look(old(self).is_hover, is_click).0,
                button_uv_y: box_look(old(self).is_hover, is_click).1,
                button_changed: true,
                ..*old(self)
            }),
    {
        if self.is_click == is_click {
            return;
        }
        self.is_click = is_click;
        if self.is_click {
            self.box_color = Color::rgba(20, 20, 20, 255);
            self.button_uv_y = 48;
        } else if self.is_hover {
            self.box_color = Color::rgba(55, 55, 55, 255);
            self.button_uv_y = 24;
        } else {
            self.box_color = Color::rgba(35, 35, 35, 255);
            self.button_uv_y = 0;
        }
        self.button_changed = true;
    }

    /// The last row under the pointer (`hits[i]` for row `i`), if any.
    pub fn click_list(&self, hits: &Vec<bool>) -> (found: Option<usize>)
        requires
            hits@.len() == self.list_text@.len(),
        ensures
            found matches Some(i) ==> i < hits@.len() && hits@[i as int]
                && forall|j: int| i < j < hits@.len() ==> !#[trigger] hits@[j],
            found is None ==> forall|j: int| 0 <= j < hits@.len() ==> !#[trigger] hits@[j],
    {
        let mut found_button: Option<usize> = None;
        let mut index: usize = 0;
        while index < hits.len()
            invariant
                index <= hits@.len(),
                found_button matches Some(i) ==> i < index && hits@[i as int]
                    && forall|j: int| i < j < index ==> !#[trigger] hits@[j],
                found_button is None ==> forall|j: int| 0 <= j < index ==> !#[trigger] hits@[j],
            decreases hits@.len() - index,
        {
            if hits[index] {
                found_button = Some(index);
            }
            index = index + 1;
        }
        found_button
    }

    /// Lights the rows under the pointer (`hovered[i]` for row `i`).
    pub fn hover_list(&mut self, hovered: &Vec<bool>)
        requires
            hovered@.len() == old(self).list_text@.len(),
        ensures
            final(self).list_text@.len() == old(self).list_text@.len(),
            forall|i: int| 0 <= i < old(self).list_text@.len() ==> {
                let want = list_after_hover(old(self).list_text@[i], hovered@[i]);
                &&& (#[trigger] final(self).list_text@[i]).rect_color == want.rect_color
                &&& final(self).list_text@[i].is_hover == want.is_hover
                &&& final(self).list_text@[i].is_select == want.is_select
                &&& final(self).list_text@[i].text@ == want.text@
            },
            *final(self) == (SelectionBox { list_text: final(self).list_text, ..*old(self) }),
    {
        let n = self.list_text.len();
        let mut index: usize = 0;
        while index < n
            invariant
                n == old(self).list_text@.len(),
                hovered@.len() == n,
                index <= n,
                self.list_text@.len() == n,
                *self == (SelectionBox { list_text: self.list_text, ..*old(self) }),
                forall|i: int| 0 <= i < index ==> {
                    let want = list_after_hover(old(self).list_text@[i], hovered@[i]);
                    &&& (#[trigger] self.list_text@[i]).rect_color == want.rect_color
                    &&& self.list_text@[i].is_hover == want.is_hover
                    &&& self.list_text@[i].is_select == want.is_select
                    &&& self.list_text@[i].text@ == want.text@
                },
                forall|i: int| index <= i < n ==> #[trigger] self.list_text@[i] == old(self).list_text@[i],
            decreases n - index,
        {
            let mut row = self.list_text[index].clone_row();
            row.set_hover(hovered[index]);
            self.list_text.set(index, row);
            index = index + 1;
        }
    }

    /// Chooses the entry of row `index`: the box shows it.
    pub fn switch_list(&mut self, index: usize)
        requires
            index + old(self).start_index < old(self).list@.len(),
        ensures
            index + old(self).start_index == old(self).selected_index ==> *final(self) == *old(self),
            index + old(self).start_index != old(self).selected_index ==> {
                &&& final(self).selected_index == index + old(self).start_index
                &&& final(self).text@ == old(self).list@[index + old(self).start_index]@
                &&& *final(self) == (SelectionBox { selected_index: final(self).selected_index, text: final(self).text, ..*old(self) })
            },
    {
        let total = self.list.len();
        proof {
            assert(index + self.start_index < total);
        }
        let list_index = index + self.start_index;
        if list_index == self.selected_index {
            return;
        }
        self.selected_index = list_index;
        self.text = self.list[list_index].clone();
    }
}

} // verus!
