//! Text fields: what a key typed into a selected field does to its text,
//! for numbers and for free text, within a limit of bytes.

use vstd::prelude::*;
use vstd::utf8::encode_utf8;
use crate::color::Color;
use crate::text::{is_numeric, contains_char, pop_char, parsed_i64, trimmed};

verus! {

/// A text field: its text, whether it is selected, and its border's
/// colour.
pub struct Textbox {
    pub data: String,
    pub is_selected: bool,
    pub border_color: Color,
}

/// A key as text fields read it.
pub enum TextKey {
    Backspace,
    Delete,
    /// Any other key: the text it types, if any, and whether it is one of
    /// the keys that type text (letters, digits, punctuation, space).
    Other(Option<String>, bool),
}

/// The length of a text in bytes, as `str::len` gives it.
pub open spec fn byte_len(s: Seq<char>) -> usize {
    encode_utf8(s).len() as usize
}

/// The border colour of a field, selected or not.
pub open spec fn border_of(is_selected: bool) -> Color {
    if is_selected { Color { r: 180, g: 180, b: 180, alpha: 255 } } else { Color { r: 80, g: 80, b: 80, alpha: 255 } }
}

/// The text after a key is typed into a field for numbers: backspace
/// removes the last character, delete empties it; below the limit, a
/// number is appended, and a minus sign (any text holding one) starts an
/// empty field when negatives are allowed.
pub open spec fn numeric_after(data: Seq<char>, key: TextKey, limit: usize, can_be_negative: bool) -> Seq<char> {
    match key {
        TextKey::Backspace => if data.len() > 0 { data.drop_last() } else { data },
        TextKey::Delete => Seq::empty(),
        TextKey::Other(text, _) => {
            if byte_len(data) >= limit {
                data
            } else {
                match text {
                    Some(t) => if parsed_i64(trimmed(t@)) is Some {
                        data + t@
                    } else if t@.contains('-') && can_be_negative && byte_len(data) == 0 {
                        data + t@
                    } else {
                        data
                    },
                    None => data,
                }
            }
        },
    }
}

/// The text after a key is typed into a field for free text: backspace
/// and delete as for numbers; below the limit, a key that types text
/// appends it.
pub open spec fn text_after(data: Seq<char>, key: TextKey, limit: usize) -> Seq<char> {
    match key {
        TextKey::Backspace => if data.len() > 0 { data.drop_last() } else { data },
        TextKey::Delete => Seq::empty(),
        TextKey::Other(text, is_text) => {
            if byte_len(data) >= limit || !is_text {
                data
            } else {
                match text {
                    Some(t) => data + t@,
                    None => data,
                }
            }
        },
    }
}

impl Textbox {
    /// An empty field, not selected.
    pub fn new() -> (t: Self)
        ensures
            t.data@ == Seq::<char>::empty(),
            !t.is_selected,
            t.border_color == border_of(false),
    {
        Textbox { data: String::new(), is_selected: false, border_color: Color::rgba(80, 80, 80, 255) }
    }

    /// Replaces the field's text.
    pub fn input_text(&mut self, text: String)
        ensures
            final(self).data@ == text@,
            final(self).is_selected == old(self).is_selected,
            final(self).border_color == old(self).border_color,
    {
        self.data = text;
    }

    /// Selects or unselects the field, showing it on its border.
    pub fn set_select(&mut self, is_select: bool)
        ensures
            final(self).is_selected == is_select,
            final(self).data == old(self).data,
            old(self).is_selected != is_select ==> final(self).border_color == border_of(is_select),
            old(self).is_selected == is_select ==> final(self).border_color == old(self).border_color,
    {
        if self.is_selected == is_select {
            return;
        }
        self.is_selected = is_select;
        if self.is_selected {
            self.border_color = Color::rgba(180, 180, 180, 255);
        } else {
            self.border_color = Color::rgba(80, 80, 80, 255);
        }
    }

    /// Types a key, pressed or released, into a field for numbers: only a
    /// pressed key on a selected field counts.
    pub fn enter_numeric(&mut self, pressed: bool, key: &TextKey, limit: usize, can_be_negative: bool)
        ensures
            final(self).data@ == (if pressed && old(self).is_selected {
                numeric_after(old(self).data@, *key, limit, can_be_negative)
            } else {
                old(self).data@
            }),
            final(self).is_selected == old(self).is_selected,
            final(self).border_color == old(self).border_color,
    {
        if !pressed || !self.is_selected {
            return;
        }
        match key {
            TextKey::Backspace => {
                let mut data = self.data.clone();
                pop_char(&mut data);
                self.data = data;
            },
            TextKey::Delete => { self.data = String::new(); },
            TextKey::Other(text, _) => {
                if self.data.as_str().len() >= limit {
                    return;
                }
                match text {
                    Some(t) => {
                        if is_numeric(t.as_str()) {
                            self.data.append(t.as_str());
                        } else if contains_char(t.as_str(), '-') && can_be_negative {
                            if self.data.as_str().len() == 0 {
                                self.data.append(t.as_str());
                            }
                        }
                    },
                    None => {},
                }
            },
        }
    }

    /// Types a key, pressed or released, into a field for free text: only
    /// a pressed key on a selected field counts.
    pub fn enter_text(&mut self, pressed: bool, key: &TextKey, limit: usize)
        ensures
            final(self).data@ == (if pressed && old(self).is_selected {
                text_after(old(self).data@, *key, limit)
            } else {
                old(self).data@
            }),
            final(self).is_selected == old(self).is_selected,
            final(self).border_color == old(self).border_color,
    {
        if !pressed || !self.is_selected {
            return;
        }
        match key {
            TextKey::Backspace => {
                let mut data = self.data.clone();
                pop_char(&mut data);
                self.data = data;
            },
            TextKey::Delete => { self.data = String::new(); },
            TextKey::Other(text, is_text) => {
                if self.data.as_str().len() >= limit {
                    return;
                }
                if *is_text {
                    match text {
                        Some(t) => { self.data.append(t.as_str()); },
                        None => {},
                    }
                }
            },
        }
    }
}

} // verus!
