//! A colour swatch with the small window that edits its colour: a field
//! per channel (red, green, blue, and alpha when it can be edited) and an
//! Apply button.

use vstd::prelude::*;
use crate::color::Color;
use crate::interface::button::{Button, idle_button};
use crate::interface::preference::redrawn;
use crate::interface::textbox::Textbox;
use crate::text::{decimal, push_decimal};

verus! {

/// The names of the channels the editor shows.
pub open spec fn channel_labels(can_edit_alpha: bool) -> Seq<Seq<char>> {
    if can_edit_alpha { seq!["R"@, "G"@, "B"@, "A"@] } else { seq!["R"@, "G"@, "B"@] }
}

/// The window that edits a colour.
pub struct ColorEditor {
    pub is_open: bool,
    pub label: Vec<String>,
    pub textbox: Vec<Textbox>,
    pub button: Button,
    pub data: [u8; 4],
}

/// The decimal text of a channel.
fn channel_text(v: u8) -> (s: String)
    ensures
        s@ == decimal(v as nat),
{
    let mut s = String::new();
    push_decimal(&mut s, v as u64);
    assert(s@ =~= decimal(v as nat));
    s
}

impl ColorEditor {
    /// A closed editor of colour `data`: a field per channel showing its
    /// value, and an idle Apply button.
    pub fn new(data: [u8; 4], can_edit_alpha: bool) -> (e: Self)
        ensures
            !e.is_open,
            e.data == data,
            e.label@.len() == channel_labels(can_edit_alpha).len(),
            forall|i: int| 0 <= i < e.label@.len() ==> #[trigger] e.label@[i]@ == channel_labels(can_edit_alpha)[i],
            e.textbox@.len() == e.label@.len(),
            forall|i: int| 0 <= i < e.textbox@.len() ==> (#[trigger] e.textbox@[i]).data@ == decimal(data[i] as nat)
                && !e.textbox@[i].is_selected,
            idle_button(e.button, "Apply"@),
    {
        let mut label: Vec<String> = Vec::new();
        label.push(String::from_str("R"));
        label.push(String::from_str("G"));
        label.push(String::from_str("B"));
        if can_edit_alpha {
            label.push(String::from_str("A"));
        }
        let count: usize = if can_edit_alpha { 4 } else { 3 };
        let mut textbox: Vec<Textbox> = Vec::new();
        let mut i: usize = 0;
        while i < count
            invariant
                count <= 4,
                i <= count,
                textbox@.len() == i,
                forall|j: int| 0 <= j < i ==> (#[trigger] textbox@[j]).data@ == decimal(data[j] as nat) && !textbox@[j].is_selected,
            decreases count - i,
        {
            let mut field = Textbox::new();
            field.input_text(channel_text(data[i]));
            textbox.push(field);
            i = i + 1;
        }
        ColorEditor { is_open: false, label, textbox, button: Button::new("Apply"), data }
    }

    /// Opens the editor, its button redrawn and no field in use.
    pub fn open(&mut self)
        ensures
            old(self).is_open ==> *final(self) == *old(self),
            !old(self).is_open ==> {
                &&& final(self).is_open
                &&& final(self).button == redrawn(old(self).button)
                &&& final(self).textbox@.len() == old(self).textbox@.len()
                &&& forall|i: int| 0 <= i < old(self).textbox@.len() ==> !(#[trigger] final(self).textbox@[i]).is_selected
                    && final(self).textbox@[i].data == old(self).textbox@[i].data
                &&& final(self).label == old(self).label
                &&& final(self).data == old(self).data
            },
    {
        if self.is_open {
            return;
        }
        self.is_open = true;
        self.button.image_changed = true;
        self.button.text_changed = true;
        let n = self.textbox.len();
        let mut i: usize = 0;
        while i < n
            invariant
                n == old(self).textbox@.len(),
                i <= n,
                self.textbox@.len() == n,
                self.is_open,
                self.button == redrawn(old(self).button),
                self.label == old(self).label,
                self.data == old(self).data,
                forall|j: int| 0 <= j < i ==> !(#[trigger] self.textbox@[j]).is_selected
                    && self.textbox@[j].data == old(self).textbox@[j].data,
                forall|j: int| i <= j < n ==> #[trigger] self.textbox@[j] == old(self).textbox@[j],
            decreases n - i,
        {
            self.textbox[i].set_select(false);
            i = i + 1;
        }
    }

    /// Closes the editor.
    pub fn close(&mut self)
        ensures
            *final(self) == (ColorEditor { is_open: false, ..*old(self) }),
    {
        if !self.is_open {
            return;
        }
        self.is_open = false;
    }
}

/// The frame colour of a swatch, under the pointer or not.
pub open spec fn swatch_border(is_hover: bool) -> Color {
    if is_hover { Color { r: 200, g: 200, b: 200, alpha: 255 } } else { Color { r: 20, g: 20, b: 20, alpha: 255 } }
}

/// A colour swatch: its colour and frame, its label, and its editor.
pub struct ColorSelection {
    pub image_color: Color,
    pub border_color: Color,
    pub text: String,
    pub is_hover: bool,
    pub color_editor: ColorEditor,
}

impl ColorSelection {
    /// A swatch of `color`, labelled `msg` when given, with a closed
    /// editor of that colour.
    pub fn new(color: [u8; 4], msg: Option<&str>, can_edit_alpha: bool) -> (c: Self)
        ensures
            c.image_color == (Color { r: color[0], g: color[1], b: color[2], alpha: color[3] }),
            c.border_color == swatch_border(false),
            c.text@ == (match msg { Some(m) => m@, None => Seq::<char>::empty() }),
            !c.is_hover,
            !c.color_editor.is_open,
            c.color_editor.data == color,
            c.color_editor.textbox@.len() == channel_labels(can_edit_alpha).len(),
    {
        let text = match msg {
            Some(m) => String::from_str(m),
            None => String::new(),
        };
        ColorSelection {
            image_color: Color::rgba(color[0], color[1], color[2], color[3]),
            border_color: Color::rgba(20, 20, 20, 255),
            text,
            is_hover: false,
            color_editor: ColorEditor::new(color, can_edit_alpha),
        }
    }

    /// Records whether the pointer is over the swatch.
    pub fn set_hover(&mut self, is_hover: bool)
        ensures
            old(self).is_hover == is_hover ==> *final(self) == *old(self),
            old(self).is_hover != is_hover ==> *final(self)
                == (ColorSelection { is_hover, border_color: swatch_border(is_hover), ..*old(self) }),
    {
        if self.is_hover == is_hover {
            return;
        }
        self.is_hover = is_hover;
        if self.is_hover {
            self.border_color = Color::rgba(200, 200, 200, 255);
        } else {
            self.border_color = Color::rgba(20, 20, 20, 255);
        }
    }

    /// Opens the swatch's editor (see `ColorEditor::open`).
    pub fn open_color_editor(&mut self)
        ensures
            old(self).color_editor.is_open ==> final(self).color_editor == old(self).color_editor,
            !old(self).color_editor.is_open ==> final(self).color_editor.is_open
                && final(self).color_editor.data == old(self).color_editor.data
                && final(self).color_editor.textbox@.len() == old(self).color_editor.textbox@.len(),
            *final(self) == (ColorSelection { color_editor: final(self).color_editor, ..*old(self) }),
    {
        self.color_editor.open();
    }

    /// Closes the swatch's editor.
    pub fn close_color_editor(&mut self)
        ensures
            *final(self) == (ColorSelection { color_editor: ColorEditor { is_open: false, ..old(self).color_editor }, ..*old(self) }),
    {
        self.color_editor.close();
    }
}

} // verus!
