//! Editing the npc zones of the main map: adding and removing a tile,
//! filling the region of tiles outside the zone around a tile, and
//! showing a zone on the overlay.

use vstd::prelude::*;
use crate::map_view::preview_kept;
use crate::color::Color;
use crate::map_data::get_tile_pos;
use crate::region::{
    in_grid, adjacent, grid_index, at, pt, connected, filled, fill_inv, fill_step, fill_measure,
    lemma_fill_start, lemma_fill_step, lemma_fill_pending, lemma_fill_done, lemma_step_neighbours, lemma_prefix_contains,
};
use crate::map_view::{MapView, MapZone, zone_color, get_zone_color, tile_number};

verus! {

/// The grid position of index i.
pub open spec fn grid_pos(i: int) -> (u32, u32) {
    ((i % 32) as u32, (i / 32) as u32)
}

/// Which positions of the grid a zone holds.
pub open spec fn zone_grid(list: Seq<(u32, u32)>) -> Seq<bool> {
    Seq::new(1024, |i: int| list.contains(grid_pos(i)))
}

/// The positions of a zone without `p`, in their order.
pub open spec fn remove_all(s: Seq<(u32, u32)>, p: (u32, u32)) -> Seq<(u32, u32)>
    decreases s.len(),
{
    if s.len() == 0 {
        s
    } else if s.last() == p {
        remove_all(s.drop_last(), p)
    } else {
        remove_all(s.drop_last(), p).push(s.last())
    }
}

/// Some position of the zone numbers tile i.
pub open spec fn zone_covers(list: Seq<(u32, u32)>, i: int) -> bool {
    exists|k: int| 0 <= k < list.len() && tile_number(#[trigger] list[k]) == i
}

/// The transparent colour of a tile outside the zone shown.
pub open spec fn no_zone_color() -> Color {
    Color { r: 0, g: 0, b: 0, alpha: 0 }
}

proof fn lemma_grid_pos(p: (u32, u32))
    requires
        in_grid(pt(p)),
    ensures
        grid_pos(grid_index(pt(p))) == p,
        0 <= grid_index(pt(p)) < 1024,
{
    let i = grid_index(pt(p));
    assert(i % 32 == p.0 && i / 32 == p.1) by (nonlinear_arith)
        requires i == p.0 + p.1 * 32, 0 <= p.0 < 32, 0 <= p.1 < 32;
}

proof fn lemma_grid_pos_in_grid(i: int)
    requires
        0 <= i < 1024,
    ensures
        in_grid(pt(grid_pos(i))),
        grid_index(pt(grid_pos(i))) == i,
{
    assert(0 <= i % 32 < 32 && 0 <= i / 32 < 32 && i % 32 + (i / 32) * 32 == i) by (nonlinear_arith)
        requires 0 <= i < 1024;
}

proof fn lemma_zone_grid_at(list: Seq<(u32, u32)>)
    ensures
        forall|p: (u32, u32)| in_grid(pt(p)) ==> #[trigger] at(zone_grid(list), pt(p)) == list.contains(p),
{
    assert forall|p: (u32, u32)| in_grid(pt(p)) implies #[trigger] at(zone_grid(list), pt(p)) == list.contains(p) by {
        lemma_grid_pos(p);
    }
}

proof fn lemma_zone_grid_push(list: Seq<(u32, u32)>, p: (u32, u32))
    requires
        in_grid(pt(p)),
    ensures
        zone_grid(list.push(p)) == zone_grid(list).update(grid_index(pt(p)), true),
{
    lemma_grid_pos(p);
    assert forall|i: int| 0 <= i < 1024 implies #[trigger] zone_grid(list.push(p))[i] == zone_grid(list).update(grid_index(pt(p)), true)[i] by {
        lemma_grid_pos_in_grid(i);
        let q = grid_pos(i);
        if list.push(p).contains(q) && !list.contains(q) {
            let k = choose|k: int| 0 <= k < list.push(p).len() && list.push(p)[k] == q;
            if k < list.len() {
                assert(list[k] == q);
            }
        }
        if list.contains(q) {
            let k = choose|k: int| 0 <= k < list.len() && list[k] == q;
            assert(list.push(p)[k] == q);
        }
        if i == grid_index(pt(p)) {
            assert(list.push(p)[list.len() as int] == p);
        }
    }
    assert(zone_grid(list.push(p)) =~= zone_grid(list).update(grid_index(pt(p)), true));
}

proof fn lemma_remove_all(s: Seq<(u32, u32)>, p: (u32, u32))
    ensures
        forall|k: int| 0 <= k < remove_all(s, p).len() ==> #[trigger] remove_all(s, p)[k] != p
            && exists|j: int| 0 <= j < s.len() && s[j] == remove_all(s, p)[k],
    decreases s.len(),
{
    if s.len() > 0 {
        lemma_remove_all(s.drop_last(), p);
        let r = remove_all(s.drop_last(), p);
        assert forall|k: int| 0 <= k < remove_all(s, p).len() implies #[trigger] remove_all(s, p)[k] != p
            && exists|j: int| 0 <= j < s.len() && s[j] == remove_all(s, p)[k] by {
            if k < r.len() {
                assert(remove_all(s, p)[k] == r[k]);
                let j = choose|j: int| 0 <= j < s.drop_last().len() && s.drop_last()[j] == r[k];
                assert(s[j] == s.drop_last()[j]);
            } else {
                assert(s[s.len() - 1] == s.last());
            }
        }
    }
}

/// Whether the zone holds the position.
fn zone_contains(list: &Vec<(u32, u32)>, pos: (u32, u32)) -> (b: bool)
    ensures
        b == list@.contains(pos),
{
    let mut k: usize = 0;
    while k < list.len()
        invariant
            k <= list@.len(),
            forall|j: int| 0 <= j < k ==> list@[j] != pos,
        decreases list@.len() - k,
    {
        let q = list[k];
        if q.0 == pos.0 && q.1 == pos.1 {
            return true;
        }
        k = k + 1;
    }
    false
}

/// The zone list grew from `list0` only by positions on the grid.
#[verifier::opaque]
spec fn zone_grown(list0: Seq<(u32, u32)>, list: Seq<(u32, u32)>) -> bool {
    &&& list0.len() <= list.len()
    &&& forall|k: int| 0 <= k < list0.len() ==> #[trigger] list[k] == list0[k]
    &&& forall|k: int| list0.len() <= k < list.len() ==> in_grid(pt(#[trigger] list[k]))
}

/// Each overlay colour is as before, or the zone's and in the region;
/// each position whose membership changed has the zone's colour.
#[verifier::opaque]
spec fn zone_painted(
    colors0: Seq<Color>,
    colors: Seq<Color>,
    g0: Seq<bool>,
    list: Seq<(u32, u32)>,
    start: (int, int),
    color: Color,
) -> bool {
    &&& colors.len() == 1024
    &&& forall|i: int| 0 <= i < 1024 ==> #[trigger] colors[i] == colors0[i]
        || (colors[i] == color && connected(g0, false, start, pt(grid_pos(i))))
    &&& forall|i: int| 0 <= i < 1024 && #[trigger] zone_grid(list)[i] != g0[i] ==> colors[i] == color
}

proof fn lemma_zone_fill_begin(list0: Seq<(u32, u32)>, colors0: Seq<Color>, start: (int, int), color: Color)
    requires
        colors0.len() == 1024,
    ensures
        zone_grown(list0, list0),
        zone_painted(colors0, colors0, zone_grid(list0), list0, start, color),
{
    reveal(zone_grown);
    reveal(zone_painted);
}

/// Painting position `pos` of the region: its colour becomes the zone's
/// and it joins the zone unless it is there already.
proof fn lemma_zone_paint(
    list0: Seq<(u32, u32)>,
    list_a: Seq<(u32, u32)>,
    list_b: Seq<(u32, u32)>,
    colors0: Seq<Color>,
    colors_a: Seq<Color>,
    colors_b: Seq<Color>,
    start: (int, int),
    pos: (u32, u32),
    color: Color,
)
    requires
        in_grid(pt(pos)),
        connected(zone_grid(list0), false, start, pt(pos)),
        zone_grown(list0, list_a),
        zone_painted(colors0, colors_a, zone_grid(list0), list_a, start, color),
        colors_b == colors_a.update(grid_index(pt(pos)), color),
        list_b == (if list_a.contains(pos) { list_a } else { list_a.push(pos) }),
    ensures
        zone_grid(list_b) == zone_grid(list_a).update(grid_index(pt(pos)), true),
        zone_grown(list0, list_b),
        zone_painted(colors0, colors_b, zone_grid(list0), list_b, start, color),
        forall|k: int| 0 <= k < list_b.len() ==> k < list_a.len() && #[trigger] list_b[k] == list_a[k] || list_b[k] == pos,
{
    reveal(zone_grown);
    reveal(zone_painted);
    let g0 = zone_grid(list0);
    let ga = zone_grid(list_a);
    let idx = grid_index(pt(pos));
    lemma_grid_pos(pos);
    if list_a.contains(pos) {
        lemma_zone_grid_at(list_a);
        assert(ga.update(idx, true) =~= ga);
    } else {
        lemma_zone_grid_push(list_a, pos);
        assert(list_b[list_a.len() as int] == pos);
    }
    let gb = zone_grid(list_b);
    assert forall|k: int| list0.len() <= k < list_b.len() implies in_grid(pt(#[trigger] list_b[k])) by {
        if k < list_a.len() {
            assert(list_b[k] == list_a[k]);
        }
    }
    assert forall|k: int| 0 <= k < list0.len() implies #[trigger] list_b[k] == list0[k] by {
        assert(list_b[k] == list_a[k]);
    }
    assert forall|i: int| 0 <= i < 1024 implies #[trigger] colors_b[i] == colors0[i]
        || (colors_b[i] == color && connected(g0, false, start, pt(grid_pos(i)))) by {
        if i == idx {
            assert(grid_pos(i) == pos);
        } else {
            assert(colors_b[i] == colors_a[i]);
        }
    }
    assert forall|i: int| 0 <= i < 1024 && #[trigger] gb[i] != g0[i] implies colors_b[i] == color by {
        if i != idx {
            assert(gb[i] == ga[i]);
        }
    }
}

/// When the fill is done, the overlay shows the zone's colour exactly on
/// the region, and the list outside the grid is as before.
proof fn lemma_zone_fill_end(
    list0: Seq<(u32, u32)>,
    list1: Seq<(u32, u32)>,
    colors0: Seq<Color>,
    colors1: Seq<Color>,
    start: (int, int),
    color: Color,
)
    requires
        filled(zone_grid(list0), zone_grid(list1), start, true),
        zone_grown(list0, list1),
        zone_painted(colors0, colors1, zone_grid(list0), list1, start, color),
    ensures
        colors1.len() == 1024,
        forall|i: int| 0 <= i < 1024 ==> #[trigger] colors1[i] == (
            if connected(zone_grid(list0), false, start, pt(grid_pos(i))) { color } else { colors0[i] }),
        forall|q: (u32, u32)| !in_grid(pt(q)) ==> (#[trigger] list1.contains(q) == list0.contains(q)),
{
    reveal(zone_grown);
    reveal(zone_painted);
    let g0 = zone_grid(list0);
    let g_end = zone_grid(list1);
    assert forall|i: int| 0 <= i < 1024 implies #[trigger] colors1[i] == (
        if connected(g0, false, start, pt(grid_pos(i))) { color } else { colors0[i] }) by {
        lemma_grid_pos_in_grid(i);
        let p = pt(grid_pos(i));
        assert(at(g_end, p) == g_end[i]);
        assert(at(g0, p) == g0[i]);
        if connected(g0, false, start, p) {
            let path = choose|path: Seq<(int, int)>| #[trigger] crate::region::is_region_path(g0, false, path)
                && path[0] == start && path.last() == p;
            assert(path[path.len() - 1] == p);
        }
    }
    assert forall|q: (u32, u32)| !in_grid(pt(q)) implies (#[trigger] list1.contains(q) == list0.contains(q)) by {
        if list1.contains(q) {
            let k = choose|k: int| 0 <= k < list1.len() && list1[k] == q;
            if k >= list0.len() {
                assert(in_grid(pt(list1[k])));
            } else {
                assert(list0[k] == q);
            }
        }
        if list0.contains(q) {
            let k = choose|k: int| 0 <= k < list0.len() && list0[k] == q;
            assert(list1[k] == q);
        }
    }
}

/// The map view after zone `zone_index` is shown on the zone overlay
/// (see `MapView::update_map_zone`).
pub open spec fn zone_overlay_shown(before: MapView, after: MapView, zone_index: usize) -> bool {
    &&& after.wf()
    &&& after.map_zone@.len() == 1024
    &&& forall|i: int| 0 <= i < 1024 ==> #[trigger] after.map_zone@[i] == (
        if zone_covers(before.map_zone_loc@[zone_index as int].pos@, i) { zone_color(zone_index) } else { no_zone_color() })
    &&& after.maps == before.maps
    &&& after.map_attributes == before.map_attributes
    &&& after.map_zone_loc == before.map_zone_loc
    &&& after.map_zone_setting == before.map_zone_setting
    &&& after == (MapView { map_zone: after.map_zone, ..before })
}

/// A new item pushed onto a list without repeats keeps it without
/// repeats.
proof fn lemma_push_new_distinct<A>(s: Seq<A>, x: A)
    requires
        s.no_duplicates(),
        !s.contains(x),
    ensures
        s.push(x).no_duplicates(),
{
    let t = s.push(x);
    assert forall|i: int, j: int| 0 <= i < t.len() && 0 <= j < t.len() && i != j implies t[i] != t[j] by {
        if i < s.len() && j < s.len() {
            assert(t[i] == s[i] && t[j] == s[j]);
        } else if i < s.len() {
            assert(t[i] == s[i]);
            assert(t[j] == x);
        } else {
            assert(t[j] == s[j]);
            assert(t[i] == x);
        }
    }
}

impl MapView {
    /// Shows zone `zone_index` on the overlay: every tile numbered by one
    /// of its positions takes the zone's colour, every other tile is
    /// transparent.
    pub fn update_map_zone(&mut self, zone_index: usize)
        requires
            old(self).wf(),
            zone_index < 5,
        ensures
            zone_overlay_shown(*old(self), *final(self), zone_index),
    {
        let mut i: usize = 0;
        while i < self.map_zone.len()
            invariant
                self.wf(),
                i <= 1024,
                forall|j: int| 0 <= j < i ==> #[trigger] self.map_zone@[j] == no_zone_color(),
                self.maps == old(self).maps,
                self.map_attributes == old(self).map_attributes,
                self.map_zone_loc == old(self).map_zone_loc,
                self.map_zone_setting == old(self).map_zone_setting,
                self.fixed_weather == old(self).fixed_weather,
                preview_kept(*old(self), *self),
                self.record == old(self).record,
                *self == (MapView { map_zone: self.map_zone, ..*old(self) }),
            decreases 1024 - i,
        {
            self.map_zone.set(i, Color::rgba(0, 0, 0, 0));
            i = i + 1;
        }
        let ghost list = self.map_zone_loc@[zone_index as int].pos@;
        let color = get_zone_color(zone_index);
        let mut k: usize = 0;
        while k < self.map_zone_loc[zone_index].pos.len()
            invariant
                self.wf(),
                zone_index < 5,
                list == self.map_zone_loc@[zone_index as int].pos@,
                k <= list.len(),
                color == zone_color(zone_index),
                forall|j: int| 0 <= j < 1024 ==> #[trigger] self.map_zone@[j] == (
                    if zone_covers(list.take(k as int), j) { zone_color(zone_index) } else { no_zone_color() }),
                self.maps == old(self).maps,
                self.map_attributes == old(self).map_attributes,
                self.map_zone_loc == old(self).map_zone_loc,
                self.map_zone_setting == old(self).map_zone_setting,
                self.fixed_weather == old(self).fixed_weather,
                preview_kept(*old(self), *self),
                self.record == old(self).record,
                *self == (MapView { map_zone: self.map_zone, ..*old(self) }),
            decreases list.len() - k,
        {
            let data = self.map_zone_loc[zone_index].pos[k];
            proof {
                assert(tile_number(self.map_zone_loc@[zone_index as int].pos@[k as int]) < 1024);
            }
            let tilenum = get_tile_pos(data.0 as i32, data.1 as i32);
            self.map_zone.set(tilenum, color);
            proof {
                let t0 = list.take(k as int);
                let t1 = list.take(k as int + 1);
                assert forall|j: int| 0 <= j < 1024 implies zone_covers(t1, j) == (zone_covers(t0, j) || j == tile_number(data)) by {
                    if zone_covers(t0, j) {
                        let m = choose|m: int| 0 <= m < t0.len() && tile_number(#[trigger] t0[m]) == j;
                        assert(t1[m] == t0[m]);
                    }
                    if j == tile_number(data) {
                        assert(t1[k as int] == data);
                    }
                    if zone_covers(t1, j) && j != tile_number(data) {
                        let m = choose|m: int| 0 <= m < t1.len() && tile_number(#[trigger] t1[m]) == j;
                        assert(m < k);
                        assert(t0[m] == t1[m]);
                    }
                }
            }
            k = k + 1;
        }
        proof {
            assert(list.take(list.len() as int) =~= list);
        }
    }

    /// Adds tile `pos` to zone `zone_index` and colours it on the overlay;
    /// a position the zone holds already is not added twice.
    pub fn add_map_zone(&mut self, zone_index: usize, pos: (u32, u32))
        requires
            old(self).wf(),
            zone_index < 5,
            tile_number(pos) < 1024,
        ensures
            final(self).wf(),
            final(self).map_zone@ == old(self).map_zone@.update(tile_number(pos), zone_color(zone_index)),
            final(self).map_zone_loc@[zone_index as int].pos@ == (
                if old(self).map_zone_loc@[zone_index as int].pos@.contains(pos) {
                    old(self).map_zone_loc@[zone_index as int].pos@
                } else {
                    old(self).map_zone_loc@[zone_index as int].pos@.push(pos)
                }),
            forall|z: int| 0 <= z < 5 && z != zone_index ==> #[trigger] final(self).map_zone_loc@[z] == old(self).map_zone_loc@[z],
            final(self).maps == old(self).maps,
            final(self).map_attributes == old(self).map_attributes,
            final(self).map_zone_setting == old(self).map_zone_setting,
            final(self).fixed_weather == old(self).fixed_weather,
            preview_kept(*old(self), *final(self)),
            final(self).record == old(self).record,
    {
        let tilenum = get_tile_pos(pos.0 as i32, pos.1 as i32);
        self.map_zone.set(tilenum, get_zone_color(zone_index));
        if !zone_contains(&self.map_zone_loc[zone_index].pos, pos) {
            let mut zone = MapZone { pos: Vec::new() };
            std::mem::swap(&mut zone, &mut self.map_zone_loc[zone_index]);
            zone.pos.push(pos);
            self.map_zone_loc.set(zone_index, zone);
        }
        proof {
            let list = self.map_zone_loc@[zone_index as int].pos@;
            assert forall|z: int, k: int| 0 <= z < 5 && 0 <= k < self.map_zone_loc@[z].pos@.len()
                implies tile_number(#[trigger] self.map_zone_loc@[z].pos@[k]) < 1024 by {
                if z == zone_index && k == old(self).map_zone_loc@[z].pos@.len() {
                    assert(self.map_zone_loc@[z].pos@[k] == pos);
                } else {
                    assert(self.map_zone_loc@[z].pos@[k] == old(self).map_zone_loc@[z].pos@[k]);
                }
            }
        }
    }

    /// Takes tile `pos` out of zone `zone_index` (every copy of it) and
    /// makes it transparent on the overlay.
    pub fn delete_map_zone(&mut self, zone_index: usize, pos: (u32, u32))
        requires
            old(self).wf(),
            zone_index < 5,
            tile_number(pos) < 1024,
        ensures
            final(self).wf(),
            final(self).map_zone@ == old(self).map_zone@.update(tile_number(pos), no_zone_color()),
            final(self).map_zone_loc@[zone_index as int].pos@ == remove_all(old(self).map_zone_loc@[zone_index as int].pos@, pos),
            forall|z: int| 0 <= z < 5 && z != zone_index ==> #[trigger] final(self).map_zone_loc@[z] == old(self).map_zone_loc@[z],
            final(self).maps == old(self).maps,
            final(self).map_attributes == old(self).map_attributes,
            final(self).map_zone_setting == old(self).map_zone_setting,
            final(self).fixed_weather == old(self).fixed_weather,
            preview_kept(*old(self), *final(self)),
            final(self).record == old(self).record,
    {
        let tilenum = get_tile_pos(pos.0 as i32, pos.1 as i32);
        self.map_zone.set(tilenum, Color::rgba(0, 0, 0, 0));
        let ghost list = self.map_zone_loc@[zone_index as int].pos@;
        let mut kept: Vec<(u32, u32)> = Vec::new();
        let mut k: usize = 0;
        while k < self.map_zone_loc[zone_index].pos.len()
            invariant
                zone_index < 5,
                self.map_zone_loc@.len() == 5,
                list == self.map_zone_loc@[zone_index as int].pos@,
                k <= list.len(),
                kept@ == remove_all(list.take(k as int), pos),
            decreases list.len() - k,
        {
            let check_pos = self.map_zone_loc[zone_index].pos[k];
            if check_pos.0 != pos.0 || check_pos.1 != pos.1 {
                kept.push(check_pos);
            }
            proof {
                assert(list.take(k as int + 1).drop_last() =~= list.take(k as int));
                assert(list.take(k as int + 1).last() == check_pos);
            }
            k = k + 1;
        }
        proof {
            assert(list.take(list.len() as int) =~= list);
            lemma_remove_all(list, pos);
        }
        self.map_zone_loc.set(zone_index, MapZone { pos: kept });
        proof {
            assert forall|z: int, j: int| 0 <= z < 5 && 0 <= j < self.map_zone_loc@[z].pos@.len()
                implies tile_number(#[trigger] self.map_zone_loc@[z].pos@[j]) < 1024 by {
                if z == zone_index {
                    let r = remove_all(list, pos);
                    assert(self.map_zone_loc@[z].pos@[j] == r[j]);
                    let m = choose|m: int| 0 <= m < list.len() && list[m] == r[j];
                    assert(tile_number(old(self).map_zone_loc@[z].pos@[m]) < 1024);
                } else {
                    assert(self.map_zone_loc@[z] == old(self).map_zone_loc@[z]);
                }
            }
        }
    }

    /// Appends a position to zone `zone_index`.
    fn push_zone_pos(&mut self, zone_index: usize, pos: (u32, u32))
        requires
            zone_index < old(self).map_zone_loc@.len(),
        ensures
            final(self).map_zone_loc@.len() == old(self).map_zone_loc@.len(),
            final(self).map_zone_loc@[zone_index as int].pos@ == old(self).map_zone_loc@[zone_index as int].pos@.push(pos),
            forall|z: int| 0 <= z < old(self).map_zone_loc@.len() && z != zone_index
                ==> #[trigger] final(self).map_zone_loc@[z] == old(self).map_zone_loc@[z],
            final(self).maps == old(self).maps,
            final(self).map_attributes == old(self).map_attributes,
            final(self).map_zone == old(self).map_zone,
            final(self).map_zone_setting == old(self).map_zone_setting,
            final(self).fixed_weather == old(self).fixed_weather,
            preview_kept(*old(self), *final(self)),
            final(self).record == old(self).record,
    {
        let mut zone = MapZone { pos: Vec::new() };
        std::mem::swap(&mut zone, &mut self.map_zone_loc[zone_index]);
        zone.pos.push(pos);
        self.map_zone_loc.set(zone_index, zone);
    }

    /// Adds to zone `zone_index` every tile of the region around
    /// `set_pos` that lies outside the zone (the tiles reached from it
    /// through neighbours outside the zone), colouring each on the
    /// overlay. A tile already in the zone changes nothing.
    #[verifier::rlimit(40)]
    pub fn set_zone_fill(&mut self, set_pos: (u32, u32), zone_index: usize)
        requires
            old(self).wf(),
            zone_index < 5,
            set_pos.0 < 32,
            set_pos.1 < 32,
        ensures
            final(self).wf(),
            ({
                let list0 = old(self).map_zone_loc@[zone_index as int].pos@;
                let list1 = final(self).map_zone_loc@[zone_index as int].pos@;
                let g0 = zone_grid(list0);
                if list0.contains(set_pos) {
                    &&& final(self).map_zone == old(self).map_zone
                    &&& list1 == list0
                } else {
                    &&& filled(g0, zone_grid(list1), pt(set_pos), true)
                    &&& forall|q: (u32, u32)| !in_grid(pt(q)) ==> (#[trigger] list1.contains(q) == list0.contains(q))
                    &&& final(self).map_zone@.len() == 1024
                    &&& forall|i: int| 0 <= i < 1024 ==> #[trigger] final(self).map_zone@[i] == (
                        if connected(g0, false, pt(set_pos), pt(grid_pos(i))) { zone_color(zone_index) } else { old(self).map_zone@[i] })
                }
            }),
            old(self).map_zone_loc@[zone_index as int].pos@.no_duplicates()
                ==> final(self).map_zone_loc@[zone_index as int].pos@.no_duplicates(),
            forall|z: int| 0 <= z < 5 && z != zone_index ==> #[trigger] final(self).map_zone_loc@[z] == old(self).map_zone_loc@[z],
            final(self).maps == old(self).maps,
            final(self).map_attributes == old(self).map_attributes,
            final(self).map_zone_setting == old(self).map_zone_setting,
            final(self).fixed_weather == old(self).fixed_weather,
            preview_kept(*old(self), *final(self)),
            final(self).record == old(self).record,
    {
        if zone_contains(&self.map_zone_loc[zone_index].pos, set_pos) {
            return;
        }
        let ghost list0 = self.map_zone_loc@[zone_index as int].pos@;
        let ghost g0 = zone_grid(list0);
        let ghost start = pt(set_pos);
        let ghost zi = zone_index as int;
        let color = get_zone_color(zone_index);
        proof {
            lemma_zone_grid_at(list0);
            assert(at(g0, start) == false);
        }

        let mut paint_to_map: Vec<(u32, u32)> = Vec::new();
        paint_to_map.push(set_pos);
        proof {
            lemma_fill_start(g0, false, true, start, paint_to_map@);
            lemma_zone_fill_begin(list0, self.map_zone@, start, color);
        }

        while paint_to_map.len() > 0
            invariant
                self.wf(),
                zone_index < 5,
                zi == zone_index as int,
                color == zone_color(zone_index),
                list0 == old(self).map_zone_loc@[zi].pos@,
                g0 == zone_grid(list0),
                start == pt(set_pos),
                !list0.contains(set_pos),
                fill_inv(g0, zone_grid(self.map_zone_loc@[zi].pos@), false, true, start, paint_to_map@),
                zone_grown(list0, self.map_zone_loc@[zi].pos@),
                list0.no_duplicates() ==> self.map_zone_loc@[zi].pos@.no_duplicates(),
                zone_painted(old(self).map_zone@, self.map_zone@, g0, self.map_zone_loc@[zi].pos@, start, color),
                forall|z: int| 0 <= z < 5 && z != zone_index ==> #[trigger] self.map_zone_loc@[z] == old(self).map_zone_loc@[z],
                self.maps == old(self).maps,
                self.map_attributes == old(self).map_attributes,
                self.map_zone_setting == old(self).map_zone_setting,
                self.fixed_weather == old(self).fixed_weather,
                preview_kept(*old(self), *self),
                self.record == old(self).record,
            decreases fill_measure(zone_grid(self.map_zone_loc@[zi].pos@), false, paint_to_map@),
        {
            let ghost list_a = self.map_zone_loc@[zi].pos@;
            let ghost ga = zone_grid(list_a);
            let ghost colors_a = self.map_zone@;
            let ghost stack0 = paint_to_map@;
            let pos = paint_to_map.pop().unwrap();
            proof {
                lemma_fill_pending(g0, ga, false, true, start, stack0);
                assert(stack0[stack0.len() - 1] == pos);
                assert(in_grid(pt(stack0[stack0.len() - 1])));
                assert(pos.0 < 32 && pos.1 < 32);
                lemma_grid_pos(pos);
            }
            let ghost idx = grid_index(pt(pos));

            let tilenum = get_tile_pos(pos.0 as i32, pos.1 as i32);
            self.map_zone.set(tilenum, color);
            if !zone_contains(&self.map_zone_loc[zone_index].pos, pos) {
                self.push_zone_pos(zone_index, pos);
                proof {
                    if list0.no_duplicates() {
                        lemma_push_new_distinct(list_a, pos);
                    }
                }
            }
            let ghost list_b = self.map_zone_loc@[zi].pos@;
            let ghost g1 = zone_grid(list_b);
            proof {
                lemma_zone_paint(list0, list_a, list_b, old(self).map_zone@, colors_a, self.map_zone@, start, pos, color);
                lemma_zone_grid_at(list_b);
                assert forall|z: int, k: int| 0 <= z < 5 && 0 <= k < self.map_zone_loc@[z].pos@.len()
                    implies tile_number(#[trigger] self.map_zone_loc@[z].pos@[k]) < 1024 by {
                    if z == zi {
                        if k >= list_a.len() || list_b[k] != list_a[k] {
                            assert(list_b[k] == pos);
                        }
                    }
                }
            }

            let ghost stack1 = paint_to_map@;
            let ghost mut pushed: Seq<(u32, u32)> = Seq::empty();
            // Down
            if pos.1 > 0 {
                if !zone_contains(&self.map_zone_loc[zone_index].pos, (pos.0, pos.1 - 1)) {
                    paint_to_map.push((pos.0, pos.1 - 1));
                    proof { pushed = pushed.push((pos.0, (pos.1 - 1) as u32)); assert(pushed[pushed.len() - 1] == (pos.0, (pos.1 - 1) as u32)); }
                }
                proof { assert(at(g1, pt((pos.0, (pos.1 - 1) as u32))) == list_b.contains((pos.0, (pos.1 - 1) as u32))); }
            }
            proof {
                assert(pos.1 > 0 && at(g1, (pos.0 as int, pos.1 - 1)) == false
                    ==> pushed.contains((pos.0, (pos.1 - 1) as u32)));
            }
            let ghost pushed_down = pushed;
            // Up
            if pos.1 + 1 < 32 {
                if !zone_contains(&self.map_zone_loc[zone_index].pos, (pos.0, pos.1 + 1)) {
                    paint_to_map.push((pos.0, pos.1 + 1));
                    proof { pushed = pushed.push((pos.0, (pos.1 + 1) as u32)); assert(pushed[pushed.len() - 1] == (pos.0, (pos.1 + 1) as u32)); }
                }
                proof { assert(at(g1, pt((pos.0, (pos.1 + 1) as u32))) == list_b.contains((pos.0, (pos.1 + 1) as u32))); }
            }
            proof {
                assert(pos.1 + 1 < 32 && at(g1, (pos.0 as int, pos.1 + 1)) == false
                    ==> pushed.contains((pos.0, (pos.1 + 1) as u32)));
            }
            let ghost pushed_up = pushed;
            proof { assert(pushed_down.len() <= pushed_up.len() && forall|i: int| 0 <= i < pushed_down.len() ==> pushed_up[i] == pushed_down[i]); }
            // Left
            if pos.0 > 0 {
                if !zone_contains(&self.map_zone_loc[zone_index].pos, (pos.0 - 1, pos.1)) {
                    paint_to_map.push((pos.0 - 1, pos.1));
                    proof { pushed = pushed.push(((pos.0 - 1) as u32, pos.1)); assert(pushed[pushed.len() - 1] == ((pos.0 - 1) as u32, pos.1)); }
                }
                proof { assert(at(g1, pt(((pos.0 - 1) as u32, pos.1))) == list_b.contains(((pos.0 - 1) as u32, pos.1))); }
            }
            proof {
                assert(pos.0 > 0 && at(g1, (pos.0 - 1, pos.1 as int)) == false
                    ==> pushed.contains(((pos.0 - 1) as u32, pos.1)));
            }
            let ghost pushed_left = pushed;
            proof { assert(pushed_up.len() <= pushed_left.len() && forall|i: int| 0 <= i < pushed_up.len() ==> pushed_left[i] == pushed_up[i]); }
            // Right
            if pos.0 + 1 < 32 {
                if !zone_contains(&self.map_zone_loc[zone_index].pos, (pos.0 + 1, pos.1)) {
                    paint_to_map.push((pos.0 + 1, pos.1));
                    proof { pushed = pushed.push(((pos.0 + 1) as u32, pos.1)); assert(pushed[pushed.len() - 1] == ((pos.0 + 1) as u32, pos.1)); }
                }
                proof { assert(at(g1, pt(((pos.0 + 1) as u32, pos.1))) == list_b.contains(((pos.0 + 1) as u32, pos.1))); }
            }

            proof {
                assert(pushed_left.len() <= pushed.len() && forall|i: int| 0 <= i < pushed_left.len() ==> pushed[i] == pushed_left[i]);
                assert(pushed_down.len() <= pushed.len() && forall|i: int| 0 <= i < pushed_down.len() ==> pushed[i] == pushed_down[i]);
                assert(pushed_up.len() <= pushed.len() && forall|i: int| 0 <= i < pushed_up.len() ==> pushed[i] == pushed_up[i]);
                assert(paint_to_map@ =~= stack1 + pushed);
                assert(stack1 =~= stack0.drop_last());
                assert(pos.0 + 1 < 32 && at(g1, (pos.0 + 1, pos.1 as int)) == false
                    ==> pushed.contains(((pos.0 + 1) as u32, pos.1)));
                lemma_prefix_contains(pushed_down, pushed, (pos.0, (pos.1 - 1) as u32));
                lemma_prefix_contains(pushed_up, pushed, (pos.0, (pos.1 + 1) as u32));
                lemma_prefix_contains(pushed_left, pushed, ((pos.0 - 1) as u32, pos.1));
                lemma_step_neighbours(g1, false, pos, pushed);
                assert(pushed.len() <= 4);
                assert(forall|i: int| 0 <= i < pushed.len() ==>
                    in_grid(#[trigger] pt(pushed[i])) && adjacent(pt(stack0.last()), pt(pushed[i])) && at(g1, pt(pushed[i])) == false);
                assert(fill_step(ga, g1, false, true, stack0, pushed));
                lemma_fill_step(g0, ga, g1, false, true, start, stack0, pushed);
            }
        }

        proof {
            assert(paint_to_map@ =~= Seq::<(u32, u32)>::empty());
            lemma_fill_done(g0, zone_grid(self.map_zone_loc@[zi].pos@), false, true, start);
            lemma_zone_fill_end(list0, self.map_zone_loc@[zi].pos@, old(self).map_zone@, self.map_zone@, start, color);
        }
    }
}

} // verus!
