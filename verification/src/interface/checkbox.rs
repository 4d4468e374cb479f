//! A labelled option of the preference window that lights up under the
//! mouse.

use vstd::prelude::*;
use crate::color::Color;

verus! {

/// The colours of a checkbox's button and label.
pub struct Checkbox {
    pub text: String,
    pub button_color: Color,
    pub text_color: Color,
    pub is_hover: bool,
}

/// The button and label colours of a checkbox hovered or not.
pub open spec fn hover_colors(is_hover: bool) -> (Color, Color) {
    if is_hover {
        (Color { r: 180, g: 180, b: 180, alpha: 255 }, Color { r: 40, g: 40, b: 40, alpha: 255 })
    } else {
        (Color { r: 180, g: 180, b: 180, alpha: 0 }, Color { r: 180, g: 180, b: 180, alpha: 255 })
    }
}

impl Checkbox {
    /// A checkbox labelled `msg`, not under the mouse.
    pub fn new(msg: &str) -> (c: Self)
        ensures
            c.text@ == msg@,
            !c.is_hover,
            (c.button_color, c.text_color) == hover_colors(false),
    {
        Checkbox {
            text: String::from_str(msg),
            button_color: Color::rgba(180, 180, 180, 0),
            text_color: Color::rgba(180, 180, 180, 255),
            is_hover: false,
        }
    }

    /// A copy of the checkbox.
    pub(crate) fn duplicate(&self) -> (c: Self)
        ensures
            c == *self,
    {
        Checkbox { text: self.text.clone(), button_color: self.button_color, text_color: self.text_color, is_hover: self.is_hover }
    }

    /// Marks the checkbox hovered or not and recolours it when that
    /// changes.
    pub fn set_hover(&mut self, is_hover: bool)
        ensures
            final(self).is_hover == is_hover,
            final(self).text == old(self).text,
            old(self).is_hover == is_hover ==> final(self).button_color == old(self).button_color
                && final(self).text_color == old(self).text_color,
            old(self).is_hover != is_hover ==> (final(self).button_color, final(self).text_color) == hover_colors(is_hover),
    {
        if self.is_hover == is_hover {
            return;
        }

        self.is_hover = is_hover;
        if self.is_hover {
            self.button_color = Color::rgba(180, 180, 180, 255);
            self.text_color = Color::rgba(40, 40, 40, 255);
        } else {
            self.button_color = Color::rgba(180, 180, 180, 0);
            self.text_color = Color::rgba(180, 180, 180, 255);
        }
    }
}

} // verus!
