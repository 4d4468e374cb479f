//! A labelled push button. Its image strip holds three rows: normal,
//! hovered, pressed; while pressed its label sits two pixels lower.

use vstd::prelude::*;

verus! {

/// A push button: its label, the row of its strip it shows and whether
/// its label is lowered, with what must be redrawn.
pub struct Button {
    pub label: String,
    pub image_row: u32,
    pub image_changed: bool,
    pub text_pressed: bool,
    pub text_changed: bool,
    pub in_hover: bool,
    pub in_click: bool,
}

/// The button after `set_hover`: a pressed button keeps its look.
pub open spec fn button_after_hover(b: Button, in_hover: bool) -> Button {
    if b.in_hover == in_hover {
        b
    } else if !b.in_click {
        Button { in_hover, image_row: if in_hover { 1 } else { 0 }, image_changed: true, ..b }
    } else {
        Button { in_hover, ..b }
    }
}

/// The button after `set_click`.
pub open spec fn button_after_click(b: Button, in_click: bool) -> Button {
    if b.in_click == in_click {
        b
    } else {
        Button {
            in_click,
            image_row: if in_click { 2 } else if b.in_hover { 1 } else { 0 },
            text_pressed: in_click,
            image_changed: true,
            text_changed: true,
            ..b
        }
    }
}

/// A button labelled `message`, idle, showing its first row.
pub open spec fn idle_button(b: Button, message: Seq<char>) -> bool {
    &&& b.label@ == message
    &&& b.image_row == 0
    &&& !b.text_pressed
    &&& !b.in_hover
    &&& !b.in_click
}

impl Button {
    /// An idle button labelled `message`.
    pub fn new(message: &str) -> (b: Self)
        ensures
            idle_button(b, message@),
            b.image_changed,
            b.text_changed,
    {
        Button {
            label: String::from_str(message),
            image_row: 0,
            image_changed: true,
            text_pressed: false,
            text_changed: true,
            in_hover: false,
            in_click: false,
        }
    }

    /// Records whether the pointer is over the button.
    pub fn set_hover(&mut self, in_hover: bool)
        ensures
            *final(self) == button_after_hover(*old(self), in_hover),
    {
        if self.in_hover == in_hover {
            return;
        }
        self.in_hover = in_hover;
        if !self.in_click {
            if self.in_hover {
                self.image_row = 1;
            } else {
                self.image_row = 0;
            }
            self.image_changed = true;
        }
    }

    /// Presses or releases the button.
    pub fn set_click(&mut self, in_click: bool)
        ensures
            *final(self) == button_after_click(*old(self), in_click),
    {
        if self.in_click == in_click {
            return;
        }
        self.in_click = in_click;
        if self.in_click {
            self.image_row = 2;
        } else if !self.in_hover {
            self.image_row = 0;
        } else {
            self.image_row = 1;
        }
        self.text_pressed = in_click;
        self.image_changed = true;
        self.text_changed = true;
    }
}

/// Pressing a button and releasing it brings back the look it had.
pub proof fn lemma_press_release_restores(b: Button)
    requires
        !b.in_click,
        !b.text_pressed,
        b.image_row == (if b.in_hover { 1u32 } else { 0u32 }),
    ensures
        button_after_click(button_after_click(b, true), false).image_row == b.image_row,
        !button_after_click(button_after_click(b, true), false).text_pressed,
        button_after_click(button_after_click(b, true), false).in_hover == b.in_hover,
        !button_after_click(button_after_click(b, true), false).in_click,
        button_after_click(button_after_click(b, true), false).label == b.label,
{
}

/// Buttons after the pointer moved: button `i` is hovered exactly when
/// `hovered[i]`.
pub open spec fn buttons_hovered(before: Seq<Button>, hovered: Seq<bool>) -> Seq<Button> {
    Seq::new(before.len(), |i: int| button_after_hover(before[i], hovered[i]))
}

/// Buttons after every one was released.
pub open spec fn buttons_released(before: Seq<Button>) -> Seq<Button> {
    Seq::new(before.len(), |i: int| button_after_click(before[i], false))
}

/// The last index whose flag is set, if any.
pub open spec fn last_hit(hits: Seq<bool>) -> Option<usize>
    decreases hits.len(),
{
    if hits.len() == 0 {
        None
    } else if hits.last() {
        Some((hits.len() - 1) as usize)
    } else {
        last_hit(hits.drop_last())
    }
}

/// The last hit is a hit, and nothing after it is.
pub proof fn lemma_last_hit(hits: Seq<bool>)
    requires
        hits.len() <= usize::MAX,
    ensures
        last_hit(hits) matches Some(i) ==> i < hits.len() && hits[i as int]
            && forall|j: int| i < j < hits.len() ==> !#[trigger] hits[j],
        last_hit(hits) is None ==> forall|j: int| 0 <= j < hits.len() ==> !#[trigger] hits[j],
    decreases hits.len(),
{
    if hits.len() > 0 && !hits.last() {
        let rest = hits.drop_last();
        lemma_last_hit(rest);
        assert forall|j: int| 0 <= j < hits.len() - 1 implies #[trigger] hits[j] == rest[j] by {}
        match last_hit(rest) {
            Some(i) => {
                assert(hits[i as int] == rest[i as int]);
                assert forall|j: int| i < j < hits.len() implies !#[trigger] hits[j] by {
                    if j < hits.len() - 1 {
                        assert(hits[j] == rest[j]);
                    }
                }
            },
            None => {
                assert forall|j: int| 0 <= j < hits.len() implies !#[trigger] hits[j] by {
                    if j < hits.len() - 1 {
                        assert(hits[j] == rest[j]);
                    }
                }
            },
        }
    }
}

/// Moves the pointer over a row of buttons.
pub fn hover_all(buttons: &mut Vec<Button>, hovered: &Vec<bool>)
    requires
        hovered@.len() == old(buttons)@.len(),
    ensures
        final(buttons)@ == buttons_hovered(old(buttons)@, hovered@),
{
    let n = buttons.len();
    let mut index: usize = 0;
    while index < n
        invariant
            n == old(buttons)@.len(),
            hovered@.len() == n,
            index <= n,
            buttons@.len() == n,
            forall|i: int| 0 <= i < index ==> #[trigger] buttons@[i] == button_after_hover(old(buttons)@[i], hovered@[i]),
            forall|i: int| index <= i < n ==> #[trigger] buttons@[i] == old(buttons)@[i],
        decreases n - index,
    {
        let mut b = buttons[index].clone_button();
        b.set_hover(hovered[index]);
        buttons.set(index, b);
        index = index + 1;
    }
    assert(buttons@ =~= buttons_hovered(old(buttons)@, hovered@));
}

/// Releases a row of buttons.
pub fn release_all(buttons: &mut Vec<Button>)
    ensures
        final(buttons)@ == buttons_released(old(buttons)@),
{
    let n = buttons.len();
    let mut index: usize = 0;
    while index < n
        invariant
            n == old(buttons)@.len(),
            index <= n,
            buttons@.len() == n,
            forall|i: int| 0 <= i < index ==> #[trigger] buttons@[i] == button_after_click(old(buttons)@[i], false),
            forall|i: int| index <= i < n ==> #[trigger] buttons@[i] == old(buttons)@[i],
        decreases n - index,
    {
        let mut b = buttons[index].clone_button();
        b.set_click(false);
        buttons.set(index, b);
        index = index + 1;
    }
    assert(buttons@ =~= buttons_released(old(buttons)@));
}

/// The last flag set, if any.
pub fn find_last_hit(hits: &Vec<bool>) -> (found: Option<usize>)
    ensures
        found == last_hit(hits@),
        found matches Some(i) ==> i < hits@.len() && hits@[i as int]
            && forall|j: int| i < j < hits@.len() ==> !#[trigger] hits@[j],
        found is None ==> forall|j: int| 0 <= j < hits@.len() ==> !#[trigger] hits@[j],
{
    let mut index: usize = hits.len();
    proof {
        lemma_last_hit(hits@);
    }
    assert(hits@.take(index as int) =~= hits@);
    while index > 0
        invariant
            index <= hits@.len(),
            hits@.len() <= usize::MAX,
            last_hit(hits@) == last_hit(hits@.take(index as int)),
        decreases index,
    {
        assert(hits@.take(index as int).drop_last() =~= hits@.take(index - 1));
        if hits[index - 1] {
            proof {
                lemma_last_hit(hits@);
            }
            return Some(index - 1);
        }
        index = index - 1;
    }
    None
}

impl Button {
    /// A copy of the button.
    fn clone_button(&self) -> (b: Self)
        ensures
            b == *self,
    {
        Button {
            label: self.label.clone(),
            image_row: self.image_row,
            image_changed: self.image_changed,
            text_pressed: self.text_pressed,
            text_changed: self.text_changed,
            in_hover: self.in_hover,
            in_click: self.in_click,
        }
    }
}

} // verus!
