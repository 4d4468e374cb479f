//! Scrollbars: the size of the bar for a number of values, the track it
//! moves along (in whole pixels, measured downward from its top), and
//! which row of its image strip each of its three images shows while it
//! is idle, hovered or held.

use vstd::prelude::*;

verus! {

/// What a scrollbar shows: idle, hovered or held.
#[derive(Clone, Copy, PartialEq, Eq, Structural, Debug)]
pub enum TextureState {
    Normal,
    Hover,
    Click,
}

/// The rows (pixels from the top of the strip) of the top, center and
/// bottom images for a state.
pub open spec fn state_rows(state: TextureState) -> Seq<u32> {
    match state {
        TextureState::Normal => seq![0u32, 5u32, 12u32],
        TextureState::Hover => seq![16u32, 21u32, 28u32],
        TextureState::Click => seq![32u32, 37u32, 44u32],
    }
}

/// The bar after a move of the pointer to `top`: a held, shown bar (or
/// any bar when the move is `forced`) goes to the point of its track
/// nearest `top` and takes the value found there.
pub open spec fn bar_moved(s: Scrollbar, top: usize, forced: bool) -> Scrollbar {
    if forced || (s.in_hold && s.visible) {
        Scrollbar {
            bar_pos: on_track(s, top) as usize,
            cur_value: track_value(s, on_track(s, top)) as usize,
            images_changed: true,
            ..s
        }
    } else {
        s
    }
}

/// The value a bar takes on its track lies between zero and its number
/// of values.
pub proof fn lemma_value_on_track(s: Scrollbar, top: usize)
    requires
        track_of(s, s.max_value),
    ensures
        0 <= track_value(s, on_track(s, top)) <= s.max_value,
{
    let y = on_track(s, top);
    if s.length != 0 {
        let d = s.start_pos - y;
        let len = s.length as int;
        let m = s.max_value as int;
        assert(0 <= d <= len);
        assert(0 <= d * m / len <= m) by (nonlinear_arith)
            requires
                0 <= d <= len,
                len > 0,
                m >= 0;
    }
}

/// `after` is `before` told whether the pointer is over it: a shown bar
/// records it and, when not held, shows the rows of a hovered or idle
/// bar; a hidden bar is left as it is.
pub open spec fn bar_hovered(before: Scrollbar, after: Scrollbar, in_hover: bool) -> bool {
    if !before.visible {
        after == before
    } else if before.in_hold {
        after == (Scrollbar { in_hover, ..before })
    } else {
        &&& after.image_uv_y@ == state_rows(if in_hover { TextureState::Hover } else { TextureState::Normal })
        &&& after == (Scrollbar { in_hover, image_uv_y: after.image_uv_y, images_changed: true, ..before })
    }
}

/// `after` is `before` let go of: a held bar is no longer held and shows
/// the rows of a hovered or idle bar; a bar not held is left as it is.
pub open spec fn scrollbar_released(before: Scrollbar, after: Scrollbar) -> bool {
    if before.in_hold {
        &&& after.image_uv_y@ == state_rows(if before.in_hover { TextureState::Hover } else { TextureState::Normal })
        &&& after == (Scrollbar { image_uv_y: after.image_uv_y, images_changed: true, in_hold: false, ..before })
    } else {
        after == before
    }
}

/// The bar's length for `max_value` values on a track of
/// `max_scroll_size` pixels: the track shared among the values and one
/// more, but never below `min_bar_size`.
pub open spec fn bar_size(max_scroll_size: usize, max_value: usize, min_bar_size: usize) -> usize {
    let size = max_scroll_size / (max_value + 1) as usize;
    if size < min_bar_size { min_bar_size } else { size }
}

/// A scrollbar: the rows of its images for its look, whether it is
/// held, hovered and shown, its value and number of values, and its
/// track: where the bar's top lies (`bar_pos`), from the track's top
/// (`start_pos`) down to its lowest place (`end_pos`), `length` pixels
/// apart.
pub struct Scrollbar {
    pub image_uv_y: [u32; 3],
    pub images_changed: bool,
    pub in_hold: bool,
    pub cur_value: usize,
    pub in_hover: bool,
    pub max_value: usize,
    pub scrollbar_size: usize,
    pub start_pos: usize,
    pub end_pos: usize,
    pub bar_pos: usize,
    pub length: usize,
    pub max_scroll_size: usize,
    pub min_bar_size: usize,
    pub visible: bool,
}

/// The values for which a track starting at `start_pos` has room for
/// the bar.
pub open spec fn track_fits(start_pos: usize, max_value: usize, max_scroll_size: usize, min_bar_size: usize) -> bool {
    &&& max_value < usize::MAX
    &&& bar_size(max_scroll_size, max_value, min_bar_size) <= max_scroll_size
    &&& max_scroll_size - bar_size(max_scroll_size, max_value, min_bar_size) <= start_pos
}

/// The track of a scrollbar fits its values: its size, end and length
/// follow from its start and its number of values.
pub open spec fn track_of(s: Scrollbar, max_value: usize) -> bool {
    let size = bar_size(s.max_scroll_size, max_value, s.min_bar_size);
    &&& s.scrollbar_size == size
    &&& s.end_pos == s.start_pos - (s.max_scroll_size - size)
    &&& s.length == s.start_pos - s.end_pos
    &&& s.max_value == max_value
}

/// Where a bar asked to go to `top` lies: kept between the track's
/// lowest place and its top.
pub open spec fn on_track(s: Scrollbar, top: usize) -> int {
    if top < s.end_pos { s.end_pos as int } else if top > s.start_pos { s.start_pos as int } else { top as int }
}

/// The value of a bar whose top lies at `y`: how far it lies below the
/// track's top, as a share of the track's length, times the number of
/// values, rounded down; 0 on a track of no length.
pub open spec fn track_value(s: Scrollbar, y: int) -> int {
    if s.length == 0 { 0 } else { (s.start_pos - y) * s.max_value / s.length as int }
}

impl Scrollbar {
    /// A hidden scrollbar for `max_value` values whose track starts at
    /// `start_pos`, idle at value 0.
    pub fn new(start_pos: usize, max_value: usize, max_scroll_size: usize, min_bar_size: usize) -> (s: Self)
        requires
            track_fits(start_pos, max_value, max_scroll_size, min_bar_size),
        ensures
            track_of(s, max_value),
            s.start_pos == start_pos,
            s.max_scroll_size == max_scroll_size,
            s.min_bar_size == min_bar_size,
            s.image_uv_y@ == state_rows(TextureState::Normal),
            s.cur_value == 0,
            s.bar_pos == start_pos,
            !s.in_hold && !s.in_hover && !s.visible,
    {
        let mut scrollbar_size = max_scroll_size / (max_value + 1);
        if scrollbar_size < min_bar_size {
            scrollbar_size = min_bar_size;
        }
        let end_pos = start_pos - (max_scroll_size - scrollbar_size);
        let length = start_pos - end_pos;
        let s = Scrollbar {
            image_uv_y: [0, 5, 12],
            images_changed: true,
            in_hold: false,
            cur_value: 0,
            in_hover: false,
            max_value,
            scrollbar_size,
            start_pos,
            end_pos,
            bar_pos: start_pos,
            length,
            max_scroll_size,
            min_bar_size,
            visible: false,
        };
        assert(s.image_uv_y@ =~= state_rows(TextureState::Normal));
        s
    }

    /// Shows the rows of a state on the three images.
    pub fn set_texture_state(&mut self, state: TextureState)
        ensures
            final(self).image_uv_y@ == state_rows(state),
            *final(self) == (Scrollbar { image_uv_y: final(self).image_uv_y, images_changed: true, ..*old(self) }),
    {
        match state {
            TextureState::Normal => { self.image_uv_y = [0, 5, 12]; },
            TextureState::Hover => { self.image_uv_y = [16, 21, 28]; },
            TextureState::Click => { self.image_uv_y = [32, 37, 44]; },
        }
        self.images_changed = true;
        assert(self.image_uv_y@ =~= state_rows(state));
    }

    /// Takes a new number of values: a new number resizes the bar and
    /// puts it back at value 0, idle; the same number only puts it back
    /// at value 0 and, when shown, unhovered (the pointer taken to the
    /// screen's corner, where no scrollbar lies).
    pub fn update_scroll_max_value(&mut self, max_value: usize)
        requires
            track_fits(old(self).start_pos, max_value, old(self).max_scroll_size, old(self).min_bar_size),
        ensures
            track_of(*old(self), old(self).max_value) || old(self).max_value != max_value ==> track_of(*final(self), max_value),
            final(self).cur_value == 0,
            final(self).bar_pos == old(self).start_pos,
            final(self).start_pos == old(self).start_pos,
            final(self).max_scroll_size == old(self).max_scroll_size,
            final(self).min_bar_size == old(self).min_bar_size,
            final(self).visible == old(self).visible,
            old(self).max_value != max_value ==> !final(self).in_hold && !final(self).in_hover
                && final(self).image_uv_y == old(self).image_uv_y,
            old(self).max_value == max_value ==> final(self).in_hold == old(self).in_hold
                && (if old(self).visible { !final(self).in_hover } else { final(self).in_hover == old(self).in_hover })
                && (old(self).visible && !old(self).in_hold ==> final(self).image_uv_y@ == state_rows(TextureState::Normal))
                && (!(old(self).visible && !old(self).in_hold) ==> final(self).image_uv_y == old(self).image_uv_y),
    {
        if self.max_value == max_value {
            self.cur_value = 0;
            self.bar_pos = self.start_pos;
            self.set_hover(false);
            return;
        }
        let mut scrollbar_size = self.max_scroll_size / (max_value + 1);
        if scrollbar_size < self.min_bar_size {
            scrollbar_size = self.min_bar_size;
        }
        self.end_pos = self.start_pos - (self.max_scroll_size - scrollbar_size);
        self.length = self.start_pos - self.end_pos;
        self.scrollbar_size = scrollbar_size;
        self.bar_pos = self.start_pos;
        self.images_changed = true;
        self.cur_value = 0;
        self.in_hover = false;
        self.in_hold = false;
        self.max_value = max_value;
    }

    /// Starts holding the bar, when it is shown.
    pub fn hold_scrollbar(&mut self)
        ensures
            old(self).visible && !old(self).in_hold ==> final(self).in_hold
                && final(self).image_uv_y@ == state_rows(TextureState::Click),
            !(old(self).visible && !old(self).in_hold) ==> *final(self) == *old(self),
            final(self).in_hover == old(self).in_hover,
            final(self).cur_value == old(self).cur_value,
            final(self).visible == old(self).visible,
            track_of(*old(self), old(self).max_value) ==> track_of(*final(self), old(self).max_value),
    {
        if !self.visible {
            return;
        }
        if !self.in_hold {
            self.in_hold = true;
            self.set_texture_state(TextureState::Click);
        }
    }

    /// Lets go of the bar: it shows hovered or idle again.
    pub fn release_scrollbar(&mut self)
        ensures
            scrollbar_released(*old(self), *final(self)),
            old(self).in_hold ==> !final(self).in_hold && final(self).image_uv_y@ == state_rows(
                if old(self).in_hover { TextureState::Hover } else { TextureState::Normal }),
            !old(self).in_hold ==> *final(self) == *old(self),
            final(self).in_hover == old(self).in_hover,
            final(self).cur_value == old(self).cur_value,
            final(self).visible == old(self).visible,
            track_of(*old(self), old(self).max_value) ==> track_of(*final(self), old(self).max_value),
    {
        if self.in_hold {
            self.in_hold = false;
            if self.in_hover {
                self.set_texture_state(TextureState::Hover);
            } else {
                self.set_texture_state(TextureState::Normal);
            }
        }
    }

    /// Records whether the pointer is over the bar, when it is shown; an
    /// idle bar shows it.
    pub fn set_hover(&mut self, in_hover: bool)
        ensures
            bar_hovered(*old(self), *final(self), in_hover),
            !old(self).visible ==> *final(self) == *old(self),
            old(self).visible ==> final(self).in_hover == in_hover,
            old(self).visible && !old(self).in_hold ==> final(self).image_uv_y@ == state_rows(
                if in_hover { TextureState::Hover } else { TextureState::Normal }),
            old(self).in_hold ==> final(self).image_uv_y == old(self).image_uv_y,
            final(self).in_hold == old(self).in_hold,
            final(self).cur_value == old(self).cur_value,
            final(self).visible == old(self).visible,
            final(self).max_value == old(self).max_value,
            final(self).start_pos == old(self).start_pos,
            final(self).max_scroll_size == old(self).max_scroll_size,
            final(self).min_bar_size == old(self).min_bar_size,
            final(self).bar_pos == old(self).bar_pos,
            track_of(*old(self), old(self).max_value) ==> track_of(*final(self), old(self).max_value),
    {
        if !self.visible {
            return;
        }
        self.in_hover = in_hover;
        if !self.in_hold {
            if self.in_hover {
                self.set_texture_state(TextureState::Hover);
            } else {
                self.set_texture_state(TextureState::Normal);
            }
        }
    }

    /// Drags the held, shown bar (or, when `forced`, any bar) so that its
    /// top goes to `top`, kept on the track, and takes the value of that
    /// place: the values shared out along the track's length from its
    /// top, rounded down.
    pub fn move_scrollbar(&mut self, top: usize, forced: bool)
        requires
            track_of(*old(self), old(self).max_value),
        ensures
            *final(self) == bar_moved(*old(self), top, forced),
            !forced && (!old(self).in_hold || !old(self).visible) ==> *final(self) == *old(self),
            forced || (old(self).in_hold && old(self).visible) ==> *final(self) == (Scrollbar {
                bar_pos: on_track(*old(self), top) as usize,
                cur_value: track_value(*old(self), on_track(*old(self), top)) as usize,
                images_changed: true,
                ..*old(self)
            }),
            track_of(*final(self), old(self).max_value),
    {
        if !forced {
            if !self.in_hold || !self.visible {
                return;
            }
        }
        let y = if top < self.end_pos { self.end_pos } else if top > self.start_pos { self.start_pos } else { top };
        self.bar_pos = y;
        self.images_changed = true;
        if self.length == 0 {
            self.cur_value = 0;
        } else {
            let dist = (self.start_pos - y) as u128;
            proof {
                let d = dist as int;
                let l = self.length as int;
                let m = self.max_value as int;
                assert(d <= l);
                assert(0 <= d * m <= l * m) by (nonlinear_arith)
                    requires 0 <= d <= l, 0 <= m;
                assert(d * m < 0x1_0000_0000_0000_0000_0000_0000_0000_0000) by (nonlinear_arith)
                    requires 0 <= d < 0x1_0000_0000_0000_0000, 0 <= m < 0x1_0000_0000_0000_0000;
                assert((d * m) / l <= m) by (nonlinear_arith)
                    requires 0 <= d * m <= l * m, l > 0, m >= 0;
            }
            self.cur_value = ((dist * (self.max_value as u128)) / (self.length as u128)) as usize;
        }
    }

    /// Shows the scrollbar.
    pub fn show(&mut self)
        ensures
            *final(self) == (Scrollbar { visible: true, images_changed: true, ..*old(self) }),
    {
        self.visible = true;
        self.images_changed = true;
    }

    /// Hides the scrollbar.
    pub fn hide_scrollbar(&mut self)
        ensures
            *final(self) == (Scrollbar { visible: false, ..*old(self) }),
    {
        self.visible = false;
    }
}

/// Puts the bar back at the top of its track, at value 0, with the
/// pointer away from it.
pub fn reset_scrollbar(scrollbar: &mut Scrollbar)
    ensures
        final(scrollbar).cur_value == 0,
        final(scrollbar).bar_pos == old(scrollbar).start_pos,
        final(scrollbar).in_hold == old(scrollbar).in_hold,
        final(scrollbar).visible == old(scrollbar).visible,
        old(scrollbar).visible ==> !final(scrollbar).in_hover,
        !old(scrollbar).visible ==> final(scrollbar).in_hover == old(scrollbar).in_hover,
        old(scrollbar).visible && !old(scrollbar).in_hold ==> final(scrollbar).image_uv_y@ == state_rows(TextureState::Normal),
        !(old(scrollbar).visible && !old(scrollbar).in_hold) ==> final(scrollbar).image_uv_y == old(scrollbar).image_uv_y,
        final(scrollbar).max_value == old(scrollbar).max_value,
        final(scrollbar).start_pos == old(scrollbar).start_pos,
        final(scrollbar).max_scroll_size == old(scrollbar).max_scroll_size,
        final(scrollbar).min_bar_size == old(scrollbar).min_bar_size,
        track_of(*old(scrollbar), old(scrollbar).max_value) ==> track_of(*final(scrollbar), old(scrollbar).max_value),
{
    scrollbar.cur_value = 0;
    scrollbar.bar_pos = scrollbar.start_pos;
    scrollbar.set_hover(false);
}

} // verus!
