//! Editing the attributes of the main map's tiles: setting and reading
//! one, and filling the region of equal attributes around a tile.

use vstd::prelude::*;
use crate::map_view::preview_kept;
use crate::editor_attributes::{MapAttribute, attribute_key, lemma_same_attribute_key};
use crate::map_data::get_tile_pos;
use crate::region::{in_grid, adjacent, grid_index, at, pt, filled, fill_inv, fill_step, fill_measure, lemma_fill_start, lemma_fill_step, lemma_fill_pending, lemma_fill_done, lemma_step_neighbours, lemma_prefix_contains};
use crate::map_view::{MapView, MapAttributes, tile_number};

verus! {

/// What an attribute is compared by.
pub type AttributeKey = (u32, i32, i32, u64, u32, u32, Seq<char>);

/// The keys of the attributes on the main map's tiles, as a grid.
pub open spec fn attribute_grid(cells: Seq<MapAttributes>) -> Seq<AttributeKey> {
    Seq::new(1024, |i: int| attribute_key(cells[i].attribute))
}

proof fn lemma_attribute_grid_update(cells: Seq<MapAttributes>, i: int, m: MapAttributes)
    requires
        cells.len() == 1024,
        0 <= i < 1024,
    ensures
        attribute_grid(cells.update(i, m)) == attribute_grid(cells).update(i, attribute_key(m.attribute)),
{
    assert(attribute_grid(cells.update(i, m)) =~= attribute_grid(cells).update(i, attribute_key(m.attribute)));
}

impl MapView {
    /// Puts an attribute on tile `set_pos` of the main map.
    pub fn set_attribute(&mut self, set_pos: (u32, u32), attribute: MapAttribute)
        requires
            old(self).wf(),
            tile_number(set_pos) < 1024,
        ensures
            final(self).wf(),
            final(self).map_attributes@.len() == 1024,
            final(self).map_attributes@[tile_number(set_pos)].attribute == attribute,
            forall|i: int| 0 <= i < 1024 && i != tile_number(set_pos)
                ==> #[trigger] final(self).map_attributes@[i] == old(self).map_attributes@[i],
            final(self).maps == old(self).maps,
            final(self).map_zone == old(self).map_zone,
            final(self).map_zone_loc == old(self).map_zone_loc,
            final(self).map_zone_setting == old(self).map_zone_setting,
            final(self).fixed_weather == old(self).fixed_weather,
            preview_kept(*old(self), *final(self)),
            final(self).record == old(self).record,
    {
        let tilepos = get_tile_pos(set_pos.0 as i32, set_pos.1 as i32);
        self.map_attributes[tilepos].set_attribute(attribute);
    }

    /// The attribute on tile `pos` of the main map.
    pub fn get_attribute(&self, pos: (u32, u32)) -> (a: MapAttribute)
        requires
            self.wf(),
            tile_number(pos) < 1024,
        ensures
            a == self.map_attributes@[tile_number(pos)].attribute,
    {
        let tilepos = get_tile_pos(pos.0 as i32, pos.1 as i32);
        self.map_attributes[tilepos].attribute.duplicate()
    }

    /// Puts `attribute` on every tile of the region around `set_pos`:
    /// the tiles reached from it through neighbours carrying the same
    /// attribute as it. A tile that carries `attribute` already changes
    /// nothing.
    #[verifier::rlimit(40)]
    pub fn set_attribute_fill(&mut self, set_pos: (u32, u32), attribute: MapAttribute)
        requires
            old(self).wf(),
            set_pos.0 < 32,
            set_pos.1 < 32,
        ensures
            final(self).wf(),
            ({
                let before = attribute_grid(old(self).map_attributes@);
                if at(before, pt(set_pos)) == attribute_key(attribute) {
                    final(self).map_attributes == old(self).map_attributes
                } else {
                    filled(before, attribute_grid(final(self).map_attributes@), pt(set_pos), attribute_key(attribute))
                }
            }),
            final(self).maps == old(self).maps,
            final(self).map_zone == old(self).map_zone,
            final(self).map_zone_loc == old(self).map_zone_loc,
            final(self).map_zone_setting == old(self).map_zone_setting,
            final(self).fixed_weather == old(self).fixed_weather,
            preview_kept(*old(self), *final(self)),
            final(self).record == old(self).record,
    {
        let ghost before = attribute_grid(self.map_attributes@);
        let ghost start = pt(set_pos);
        let tilepos = get_tile_pos(set_pos.0 as i32, set_pos.1 as i32);
        let comparedata = self.map_attributes[tilepos].attribute.duplicate();
        proof {
            lemma_same_attribute_key(comparedata, attribute);
            assert(at(before, start) == attribute_key(comparedata));
        }
        if comparedata.same_as(&attribute) {
            return;
        }
        let ghost c = attribute_key(comparedata);
        let ghost n = attribute_key(attribute);
        assert(n != c);

        let mut paint_to_map: Vec<(u32, u32)> = Vec::new();
        paint_to_map.push(set_pos);
        proof {
            lemma_fill_start(before, c, n, start, paint_to_map@);
        }

        while paint_to_map.len() > 0
            invariant
                self.wf(),
                before == attribute_grid(old(self).map_attributes@),
                start == pt(set_pos),
                c == attribute_key(comparedata),
                n == attribute_key(attribute),
                n != c,
                fill_inv(before, attribute_grid(self.map_attributes@), c, n, start, paint_to_map@),
                self.maps == old(self).maps,
                self.map_zone == old(self).map_zone,
                self.map_zone_loc == old(self).map_zone_loc,
                self.map_zone_setting == old(self).map_zone_setting,
                self.fixed_weather == old(self).fixed_weather,
                preview_kept(*old(self), *self),
                self.record == old(self).record,
            decreases fill_measure(attribute_grid(self.map_attributes@), c, paint_to_map@),
        {
            let ghost cells0 = self.map_attributes@;
            let ghost g0 = attribute_grid(cells0);
            let ghost stack0 = paint_to_map@;
            let pos = paint_to_map.pop().unwrap();
            proof {
                lemma_fill_pending(before, g0, c, n, start, stack0);
                assert(stack0[stack0.len() - 1] == pos);
                assert(in_grid(pt(stack0[stack0.len() - 1])));
                assert(pos.0 < 32 && pos.1 < 32);
            }

            let tile_pos = get_tile_pos(pos.0 as i32, pos.1 as i32);
            self.map_attributes[tile_pos].set_attribute(attribute.duplicate());
            let ghost g1 = attribute_grid(self.map_attributes@);
            proof {
                lemma_attribute_grid_update(cells0, tile_pos as int, self.map_attributes@[tile_pos as int]);
                assert(self.map_attributes@ == cells0.update(tile_pos as int, self.map_attributes@[tile_pos as int]));
                assert(g1 == g0.update(grid_index(pt(pos)), n));
            }

            let ghost stack1 = paint_to_map@;
            let ghost mut pushed: Seq<(u32, u32)> = Seq::empty();
            // Down
            if pos.1 > 0 {
                let check_tilepos = get_tile_pos(pos.0 as i32, (pos.1 - 1) as i32);
                let same = self.map_attributes[check_tilepos].attribute.same_as(&comparedata);
                proof {
                    lemma_same_attribute_key(self.map_attributes@[check_tilepos as int].attribute, comparedata);
                    assert(at(g1, (pos.0 as int, pos.1 - 1)) == attribute_key(self.map_attributes@[check_tilepos as int].attribute));
                }
                if same {
                    paint_to_map.push((pos.0, pos.1 - 1));
                    proof { pushed = pushed.push((pos.0, (pos.1 - 1) as u32)); assert(pushed[pushed.len() - 1] == (pos.0, (pos.1 - 1) as u32)); }
                }
            }
            proof {
                assert(pos.1 > 0 && at(g1, (pos.0 as int, pos.1 - 1)) == c
                    ==> pushed.contains((pos.0, (pos.1 - 1) as u32)));
            }
            let ghost pushed_down = pushed;
            // Up
            if pos.1 + 1 < 32 {
                let check_tilepos = get_tile_pos(pos.0 as i32, (pos.1 + 1) as i32);
                let same = self.map_attributes[check_tilepos].attribute.same_as(&comparedata);
                proof {
                    lemma_same_attribute_key(self.map_attributes@[check_tilepos as int].attribute, comparedata);
                    assert(at(g1, (pos.0 as int, pos.1 + 1)) == attribute_key(self.map_attributes@[check_tilepos as int].attribute));
                }
                if same {
                    paint_to_map.push((pos.0, pos.1 + 1));
                    proof { pushed = pushed.push((pos.0, (pos.1 + 1) as u32)); assert(pushed[pushed.len() - 1] == (pos.0, (pos.1 + 1) as u32)); }
                }
            }
            proof {
                assert(pos.1 + 1 < 32 && at(g1, (pos.0 as int, pos.1 + 1)) == c
                    ==> pushed.contains((pos.0, (pos.1 + 1) as u32)));
            }
            let ghost pushed_up = pushed;
            proof { assert(pushed_down.len() <= pushed_up.len() && forall|i: int| 0 <= i < pushed_down.len() ==> pushed_up[i] == pushed_down[i]); }
            // Left
            if pos.0 > 0 {
                let check_tilepos = get_tile_pos((pos.0 - 1) as i32, pos.1 as i32);
                let same = self.map_attributes[check_tilepos].attribute.same_as(&comparedata);
                proof {
                    lemma_same_attribute_key(self.map_attributes@[check_tilepos as int].attribute, comparedata);
                    assert(at(g1, (pos.0 - 1, pos.1 as int)) == attribute_key(self.map_attributes@[check_tilepos as int].attribute));
                }
                if same {
                    paint_to_map.push((pos.0 - 1, pos.1));
                    proof { pushed = pushed.push(((pos.0 - 1) as u32, pos.1)); assert(pushed[pushed.len() - 1] == ((pos.0 - 1) as u32, pos.1)); }
                }
            }
            proof {
                assert(pos.0 > 0 && at(g1, (pos.0 - 1, pos.1 as int)) == c
                    ==> pushed.contains(((pos.0 - 1) as u32, pos.1)));
            }
            let ghost pushed_left = pushed;
            proof { assert(pushed_up.len() <= pushed_left.len() && forall|i: int| 0 <= i < pushed_up.len() ==> pushed_left[i] == pushed_up[i]); }
            // Right
            if pos.0 + 1 < 32 {
                let check_tilepos = get_tile_pos((pos.0 + 1) as i32, pos.1 as i32);
                let same = self.map_attributes[check_tilepos].attribute.same_as(&comparedata);
                proof {
                    lemma_same_attribute_key(self.map_attributes@[check_tilepos as int].attribute, comparedata);
                    assert(at(g1, (pos.0 + 1, pos.1 as int)) == attribute_key(self.map_attributes@[check_tilepos as int].attribute));
                }
                if same {
                    paint_to_map.push((pos.0 + 1, pos.1));
                    proof { pushed = pushed.push(((pos.0 + 1) as u32, pos.1)); assert(pushed[pushed.len() - 1] == ((pos.0 + 1) as u32, pos.1)); }
                }
            }

            proof {
                assert(pushed_left.len() <= pushed.len() && forall|i: int| 0 <= i < pushed_left.len() ==> pushed[i] == pushed_left[i]);
                assert(pushed_down.len() <= pushed.len() && forall|i: int| 0 <= i < pushed_down.len() ==> pushed[i] == pushed_down[i]);
                assert(pushed_up.len() <= pushed.len() && forall|i: int| 0 <= i < pushed_up.len() ==> pushed[i] == pushed_up[i]);
                assert(paint_to_map@ =~= stack1 + pushed);
                assert(stack1 =~= stack0.drop_last());
                assert(pos.0 + 1 < 32 && at(g1, (pos.0 + 1, pos.1 as int)) == c
                    ==> pushed.contains(((pos.0 + 1) as u32, pos.1)));
                lemma_prefix_contains(pushed_down, pushed, (pos.0, (pos.1 - 1) as u32));
                lemma_prefix_contains(pushed_up, pushed, (pos.0, (pos.1 + 1) as u32));
                lemma_prefix_contains(pushed_left, pushed, ((pos.0 - 1) as u32, pos.1));
                lemma_step_neighbours(g1, c, pos, pushed);
                assert(pushed.len() <= 4);
                assert(forall|i: int| 0 <= i < pushed.len() ==>
                    in_grid(#[trigger] pt(pushed[i])) && adjacent(pt(stack0.last()), pt(pushed[i])) && at(g1, pt(pushed[i])) == c);
                assert(fill_step(g0, g1, c, n, stack0, pushed));
                lemma_fill_step(before, g0, g1, c, n, start, stack0, pushed);
            }
        }

        proof {
            assert(paint_to_map@ =~= Seq::<(u32, u32)>::empty());
            lemma_fill_done(before, attribute_grid(self.map_attributes@), c, n, start);
        }
    }
}

} // verus!
