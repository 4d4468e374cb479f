//! The options listed under a settings tab (layers, attributes, zones).
//! An option's button strip holds rows 20 pixels high: normal, hovered,
//! selected.

use vstd::prelude::*;

verus! {

/// One option of a tab's list.
pub struct TabText {
    pub text: String,
    pub text_changed: bool,
    pub button_width: u32,
    pub button_uv_y: u32,
    pub button_changed: bool,
    pub is_selected: bool,
    pub is_hover: bool,
    pub is_visible: bool,
}

/// The option after `set_select`: hidden options ignore it.
pub open spec fn tab_after_select(t: TabText, is_select: bool) -> TabText {
    if !t.is_visible || t.is_selected == is_select {
        t
    } else {
        TabText { is_selected: is_select, button_uv_y: if is_select { 40 } else { 0 }, button_changed: true, ..t }
    }
}

/// The option after `set_hover`: hidden options ignore it, a selected
/// one keeps its row.
pub open spec fn tab_after_hover(t: TabText, is_hover: bool) -> TabText {
    if !t.is_visible || t.is_hover == is_hover {
        t
    } else if !t.is_selected {
        TabText { is_hover, button_uv_y: if is_hover { 20 } else { 0 }, button_changed: true, ..t }
    } else {
        TabText { is_hover, ..t }
    }
}

impl TabText {
    /// A hidden, unselected option of the default width.
    pub fn new() -> (t: Self)
        ensures
            t.text@ == Seq::<char>::empty(),
            t.button_width == 194,
            t.button_uv_y == 0,
            !t.is_selected && !t.is_hover && !t.is_visible,
    {
        TabText {
            text: String::new(),
            text_changed: false,
            button_width: 194,
            button_uv_y: 0,
            button_changed: false,
            is_selected: false,
            is_hover: false,
            is_visible: false,
        }
    }

    /// Shows the option with a label and a width.
    pub fn init(&mut self, msg: &str, width: u32)
        ensures
            final(self).text@ == msg@,
            final(self).text_changed,
            final(self).button_width == width,
            final(self).button_changed,
            final(self).is_visible,
            final(self).button_uv_y == old(self).button_uv_y,
            final(self).is_selected == old(self).is_selected,
            final(self).is_hover == old(self).is_hover,
    {
        self.text = String::from_str(msg);
        self.text_changed = true;
        self.button_width = width;
        self.button_changed = true;
        self.is_visible = true;
    }

    /// Relabels a visible option and selects or deselects it.
    pub fn update(&mut self, msg: &str, is_select: bool)
        ensures
            !old(self).is_visible ==> *final(self) == *old(self),
            old(self).is_visible ==> {
                let t = TabText { text_changed: true, ..*old(self) };
                &&& final(self).text@ == msg@
                &&& final(self).text_changed
                &&& final(self).is_selected == tab_after_select(t, is_select).is_selected
                &&& final(self).button_uv_y == tab_after_select(t, is_select).button_uv_y
                &&& final(self).button_changed == tab_after_select(t, is_select).button_changed
                &&& final(self).is_hover == old(self).is_hover
                &&& final(self).is_visible
                &&& final(self).button_width == old(self).button_width
            },
    {
        if !self.is_visible {
            return;
        }

        self.text = String::from_str(msg);
        self.text_changed = true;

        if self.is_selected != is_select {
            self.is_selected = is_select;

            if is_select {
                self.button_uv_y = 40;
            } else {
                self.button_uv_y = 0;
            }
            self.button_changed = true;
        }
    }

    /// Hides a visible option, clearing its label and marks.
    pub fn close(&mut self)
        ensures
            !old(self).is_visible ==> *final(self) == *old(self),
            old(self).is_visible ==> {
                &&& final(self).text@ == Seq::<char>::empty()
                &&& final(self).button_uv_y == 0
                &&& final(self).button_changed
                &&& !final(self).is_hover
                &&& !final(self).is_selected
                &&& !final(self).is_visible
                &&& final(self).button_width == old(self).button_width
            },
    {
        if !self.is_visible {
            return;
        }
        self.text = String::new();
        self.text_changed = true;
        self.button_uv_y = 0;
        self.button_changed = true;
        self.is_hover = false;
        self.is_selected = false;
        self.is_visible = false;
    }

    pub fn set_select(&mut self, is_select: bool)
        ensures
            *final(self) == tab_after_select(*old(self), is_select),
    {
        if !self.is_visible {
            return;
        }
        if self.is_selected != is_select {
            self.is_selected = is_select;

            if is_select {
                self.button_uv_y = 40;
            } else {
                self.button_uv_y = 0;
            }
            self.button_changed = true;
        }
    }

    pub fn set_hover(&mut self, is_hover: bool)
        ensures
            *final(self) == tab_after_hover(*old(self), is_hover),
    {
        if !self.is_visible {
            return;
        }
        if self.is_hover != is_hover {
            self.is_hover = is_hover;

            if !self.is_selected {
                if is_hover {
                    self.button_uv_y = 20;
                } else {
                    self.button_uv_y = 0;
                }
                self.button_changed = true;
            }
        }
    }
}

/// A selected option keeps its selected row whatever the mouse does.
pub proof fn lemma_selected_tab_keeps_row(t: TabText, is_hover: bool)
    requires
        t.is_selected,
    ensures
        tab_after_hover(t, is_hover).button_uv_y == t.button_uv_y,
{
}

} // verus!
