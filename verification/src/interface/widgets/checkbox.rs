//! A checkbox that can be ticked: it lights up under the mouse, and its
//! box is filled and framed while ticked.

use vstd::prelude::*;
use crate::color::Color;
use crate::interface::checkbox::hover_colors;

verus! {

/// The colours of a checkbox, and the frame of its box.
pub struct Checkbox {
    pub button_color: Color,
    pub text_color: Color,
    pub box_color: Color,
    pub box_border_width: u32,
    pub box_border_color: Color,
    pub is_hover: bool,
    pub is_select: bool,
}

/// The box colour and frame width of a checkbox ticked or not.
pub open spec fn box_look(is_select: bool) -> (Color, u32) {
    if is_select {
        (Color { r: 200, g: 200, b: 200, alpha: 255 }, 2)
    } else {
        (Color { r: 100, g: 100, b: 100, alpha: 255 }, 0)
    }
}

impl Checkbox {
    /// A checkbox not under the mouse, ticked as `default_value` says.
    pub fn new(default_value: bool) -> (c: Self)
        ensures
            !c.is_hover,
            c.is_select == default_value,
            (c.button_color, c.text_color) == hover_colors(false),
            (c.box_color, c.box_border_width) == box_look(default_value),
            default_value ==> c.box_border_color == (Color { r: 100, g: 100, b: 100, alpha: 255 }),
    {
        let mut c = Checkbox {
            button_color: Color::rgba(180, 180, 180, 0),
            text_color: Color::rgba(180, 180, 180, 255),
            box_color: Color::rgba(100, 100, 100, 255),
            box_border_width: 0,
            box_border_color: Color::rgba(0, 0, 0, 0),
            is_hover: false,
            is_select: default_value,
        };
        if default_value {
            c.box_color = Color::rgba(200, 200, 200, 255);
            c.box_border_width = 2;
            c.box_border_color = Color::rgba(100, 100, 100, 255);
        }
        c
    }

    /// Marks the checkbox hovered or not and recolours it when that
    /// changes.
    pub fn set_hover(&mut self, is_hover: bool)
        ensures
            final(self).is_hover == is_hover,
            old(self).is_hover == is_hover ==> final(self).button_color == old(self).button_color
                && final(self).text_color == old(self).text_color,
            old(self).is_hover != is_hover ==> (final(self).button_color, final(self).text_color) == hover_colors(is_hover),
            final(self).is_select == old(self).is_select,
            final(self).box_color == old(self).box_color,
            final(self).box_border_width == old(self).box_border_width,
            final(self).box_border_color == old(self).box_border_color,
    {
        if self.is_hover == is_hover {
            return;
        }

        self.is_hover = is_hover;
        if self.is_hover {
            self.button_color = Color::rgba(180, 180, 180, 255);
            self.text_color = Color::rgba(40, 40, 40, 255);
        } else {
            self.button_color = Color::rgba(180, 180, 180, 0);
            self.text_color = Color::rgba(180, 180, 180, 255);
        }
    }

    /// Ticks or unticks the checkbox and redraws its box when that
    /// changes; unticking keeps the frame's colour.
    pub fn set_select(&mut self, is_select: bool)
        ensures
            final(self).is_select == is_select,
            final(self).is_hover == old(self).is_hover,
            final(self).button_color == old(self).button_color,
            final(self).text_color == old(self).text_color,
            old(self).is_select == is_select ==> final(self).box_color == old(self).box_color
                && final(self).box_border_width == old(self).box_border_width
                && final(self).box_border_color == old(self).box_border_color,
            old(self).is_select != is_select ==> (final(self).box_color, final(self).box_border_width) == box_look(is_select),
            old(self).is_select != is_select && is_select ==> final(self).box_border_color == (Color { r: 100, g: 100, b: 100, alpha: 255 }),
            old(self).is_select != is_select && !is_select ==> final(self).box_border_color == old(self).box_border_color,
    {
        if self.is_select == is_select {
            return;
        }

        self.is_select = is_select;
        if self.is_select {
            self.box_color = Color::rgba(200, 200, 200, 255);
            self.box_border_width = 2;
            self.box_border_color = Color::rgba(100, 100, 100, 255);
        } else {
            self.box_color = Color::rgba(100, 100, 100, 255);
            self.box_border_width = 0;
        }
    }
}

} // verus!
