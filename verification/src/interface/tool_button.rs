//! The tool and tab buttons of the editor's bar. A button's image strip
//! holds three rows: normal, hovered, pressed or selected.

use vstd::prelude::*;

verus! {

#[derive(PartialEq, Eq, Structural, Debug, Clone, Copy)]
pub enum ButtonState {
    Normal,
    Selected,
}

/// A tool button: which row of its image strip it shows, and whether
/// the image must be redrawn.
pub struct ToolButton {
    pub index: usize,
    pub image_row: u32,
    pub image_changed: bool,
    pub state: ButtonState,
    pub in_hover: bool,
    pub in_click: bool,
}

/// The button after `set_state`.
pub open spec fn after_state(b: ToolButton, state: ButtonState) -> ToolButton {
    if b.state != state {
        ToolButton {
            state,
            image_row: if state == ButtonState::Normal { 0 } else { 2 },
            image_changed: true,
            ..b
        }
    } else {
        b
    }
}

/// The button after `set_hover`.
pub open spec fn after_hover(b: ToolButton, hover: bool) -> ToolButton {
    if b.in_hover != hover {
        if b.state == ButtonState::Normal {
            ToolButton { in_hover: hover, image_row: if hover { 1 } else { 0 }, image_changed: true, ..b }
        } else {
            ToolButton { in_hover: hover, ..b }
        }
    } else {
        b
    }
}

/// The button after `set_click`.
pub open spec fn after_click(b: ToolButton, click: bool) -> ToolButton {
    if b.in_click != click {
        if b.state == ButtonState::Normal {
            ToolButton { in_click: click, image_row: if click { 2 } else { 1 }, image_changed: true, ..b }
        } else {
            ToolButton { in_click: click, ..b }
        }
    } else {
        b
    }
}

impl ToolButton {
    /// A button of the bar, normal and idle, showing its first row.
    pub fn new(index: usize) -> (b: Self)
        ensures
            b == (ToolButton {
                index,
                image_row: 0,
                image_changed: false,
                state: ButtonState::Normal,
                in_hover: false,
                in_click: false,
            }),
    {
        ToolButton {
            index,
            image_row: 0,
            image_changed: false,
            state: ButtonState::Normal,
            in_hover: false,
            in_click: false,
        }
    }

    /// Selects or deselects the button; a selected button shows its
    /// third row, a normal one its first.
    pub fn set_state(&mut self, state: ButtonState)
        ensures
            *final(self) == after_state(*old(self), state),
    {
        if self.state != state {
            self.state = state;
            match self.state {
                ButtonState::Normal => { self.image_row = 0; }
                ButtonState::Selected => { self.image_row = 2; },
            }
            self.image_changed = true;
        }
    }

    /// Marks the button hovered or not; a normal button shows its second
    /// row while hovered.
    pub fn set_hover(&mut self, hover: bool)
        ensures
            *final(self) == after_hover(*old(self), hover),
    {
        if self.in_hover != hover {
            self.in_hover = hover;
            if self.state == ButtonState::Normal {
                if self.in_hover {
                    self.image_row = 1;
                } else {
                    self.image_row = 0;
                }
                self.image_changed = true;
            }
        }
    }

    /// Marks the button pressed or not; a normal button shows its third
    /// row while pressed and its second once released.
    pub fn set_click(&mut self, click: bool)
        ensures
            *final(self) == after_click(*old(self), click),
    {
        if self.in_click != click {
            self.in_click = click;
            if self.state == ButtonState::Normal {
                if self.in_click {
                    self.image_row = 2;
                } else {
                    self.image_row = 1;
                }
                self.image_changed = true;
            }
        }
    }
}

/// Hovering, pressing and releasing never change what a selected
/// button shows.
pub proof fn lemma_selected_button_keeps_row(b: ToolButton, hover: bool, click: bool)
    requires
        b.state == ButtonState::Selected,
    ensures
        after_hover(b, hover).image_row == b.image_row,
        after_click(b, click).image_row == b.image_row,
        after_hover(b, hover).state == ButtonState::Selected,
        after_click(b, click).state == ButtonState::Selected,
{
}

/// Repeating a call with the same value changes nothing.
pub proof fn lemma_button_calls_idempotent(b: ToolButton, state: ButtonState, hover: bool, click: bool)
    ensures
        after_state(after_state(b, state), state) == after_state(b, state),
        after_hover(after_hover(b, hover), hover) == after_hover(b, hover),
        after_click(after_click(b, click), click) == after_click(b, click),
{
}

/// Selecting a button, then returning it to normal, leaves it showing
/// its first row whatever it showed before.
pub proof fn lemma_deselect_shows_first_row(b: ToolButton)
    requires
        b.state == ButtonState::Normal,
    ensures
        after_state(after_state(b, ButtonState::Selected), ButtonState::Normal).image_row == 0,
        after_state(b, ButtonState::Selected).image_row == 2,
{
}

} // verus!
