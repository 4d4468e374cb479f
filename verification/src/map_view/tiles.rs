//! Editing the tiles of the main map: reading a tile, clearing a map,
//! placing and erasing groups of tiles and filling a region.

use vstd::prelude::*;
use crate::map_view::preview_kept;
use crate::tile_map::{TileMap, TileData, tile_index, default_tile, empty_tiles, lemma_empty_map_bound};
use crate::region::{in_grid, grid_index, at, pt, connected, filled, fill_inv, fill_step, fill_measure, lemma_fill_start, lemma_fill_step, lemma_fill_pending, lemma_fill_done, lemma_step_neighbours, lemma_prefix_contains};
use crate::recording::TilePos;
use crate::map_view::MapView;
use crate::map_view::undo::{recorded_edit, lemma_recorded_edit_start, lemma_recorded_edit_step};

verus! {

/// The tile at a position of layer z.
pub open spec fn cell(tiles: Seq<TileData>, z: int, p: (int, int)) -> TileData {
    tiles[tile_index(p.0, p.1, z)]
}

/// The texture ids of layer z as a grid.
pub open spec fn layer_ids(tiles: Seq<TileData>, z: int) -> Seq<u32> {
    Seq::new(1024, |i: int| tiles[z * 1024 + i].texture_id)
}

/// The layer after a fill from `start` with tile `n`: the tiles of the
/// region around `start` (tiles of its texture id, reached through
/// neighbours of that id) become `n`; every other tile stays.
pub open spec fn filled_layer(before: Seq<TileData>, after: Seq<TileData>, z: int, start: (int, int), n: TileData) -> bool {
    let ids = layer_ids(before, z);
    &&& after.len() == before.len()
    &&& forall|p: (int, int)| in_grid(p) ==> #[trigger] cell(after, z, p)
        == (if connected(ids, at(ids, start), start, p) { n } else { cell(before, z, p) })
    &&& forall|i: int| 0 <= i < before.len() && !(z * 1024 <= i < z * 1024 + 1024) ==> after[i] == before[i]
}

proof fn lemma_layer_ids_at(tiles: Seq<TileData>, z: int)
    requires
        tiles.len() == 8192,
        0 <= z < 8,
    ensures
        forall|p: (int, int)| in_grid(p) ==> #[trigger] at(layer_ids(tiles, z), p) == cell(tiles, z, p).texture_id,
{
}

proof fn lemma_layer_ids_update(tiles: Seq<TileData>, z: int, p: (int, int), n: TileData)
    requires
        tiles.len() == 8192,
        0 <= z < 8,
        in_grid(p),
    ensures
        layer_ids(tiles.update(tile_index(p.0, p.1, z), n), z) == layer_ids(tiles, z).update(grid_index(p), n.texture_id),
{
    assert(layer_ids(tiles.update(tile_index(p.0, p.1, z), n), z) =~= layer_ids(tiles, z).update(grid_index(p), n.texture_id));
}

/// Tiles outside layer z are as before.
#[verifier::opaque]
spec fn inv_outside(before: Seq<TileData>, tiles: Seq<TileData>, z: int) -> bool {
    &&& tiles.len() == 8192
    &&& before.len() == 8192
    &&& forall|i: int| 0 <= i < 8192 && !(z * 1024 <= i < z * 1024 + 1024) ==> tiles[i] == before[i]
}

/// Each tile of layer z is as before, or filled and in the region.
#[verifier::opaque]
spec fn inv_tiles(before: Seq<TileData>, tiles: Seq<TileData>, z: int, n: TileData, start: (int, int)) -> bool {
    let ids = layer_ids(before, z);
    forall|p: (int, int)| in_grid(p) ==>
        #[trigger] cell(tiles, z, p) == cell(before, z, p)
            || (cell(tiles, z, p) == n && connected(ids, at(ids, start), start, p))
}

proof fn lemma_tiles_start(before: Seq<TileData>, z: int, n: TileData, start: (int, int))
    requires
        before.len() == 8192,
    ensures
        inv_outside(before, before, z),
        inv_tiles(before, before, z, n, start),
{
    reveal(inv_outside);
    reveal(inv_tiles);
}

proof fn lemma_tiles_step(before: Seq<TileData>, tiles0: Seq<TileData>, z: int, n: TileData, start: (int, int), t: (int, int))
    requires
        inv_outside(before, tiles0, z),
        inv_tiles(before, tiles0, z, n, start),
        0 <= z < 8,
        in_grid(t),
        connected(layer_ids(before, z), at(layer_ids(before, z), start), start, t),
    ensures
        inv_outside(before, tiles0.update(tile_index(t.0, t.1, z), n), z),
        inv_tiles(before, tiles0.update(tile_index(t.0, t.1, z), n), z, n, start),
{
    reveal(inv_outside);
    reveal(inv_tiles);
    let tiles1 = tiles0.update(tile_index(t.0, t.1, z), n);
    assert forall|p: (int, int)| in_grid(p) && p != t implies #[trigger] cell(tiles1, z, p) == cell(tiles0, z, p) by {
        assert(tile_index(p.0, p.1, z) != tile_index(t.0, t.1, z));
    }
}

/// When the grid of ids is filled, so is the layer.
proof fn lemma_tiles_done(before: Seq<TileData>, after: Seq<TileData>, z: int, n: TileData, start: (int, int))
    requires
        0 <= z < 8,
        in_grid(start),
        n.texture_id != at(layer_ids(before, z), start),
        inv_outside(before, after, z),
        inv_tiles(before, after, z, n, start),
        filled(layer_ids(before, z), layer_ids(after, z), start, n.texture_id),
    ensures
        filled_layer(before, after, z, start, n),
{
    reveal(inv_outside);
    reveal(inv_tiles);
    lemma_layer_ids_at(before, z);
    lemma_layer_ids_at(after, z);
    let ids = layer_ids(before, z);
    let c = at(ids, start);
    assert forall|p: (int, int)| in_grid(p) implies #[trigger] cell(after, z, p)
        == (if connected(ids, c, start, p) { n } else { cell(before, z, p) }) by {
        assert(at(layer_ids(after, z), p) == (if connected(ids, c, start, p) { n.texture_id } else { at(ids, p) }));
    }
}

/// Position p lies in the rectangle of the given size whose top-left
/// corner is `corner`.
pub open spec fn in_rect(p: (int, int), corner: (u32, u32), size: (u32, u32)) -> bool {
    corner.0 <= p.0 < corner.0 + size.0 && corner.1 <= p.1 < corner.1 + size.1
}

/// The tileset tile that a group copied from `start_pos` and placed at
/// `set_pos` puts at position p.
pub open spec fn group_tile(tileset: Seq<TileData>, set_pos: (u32, u32), start_pos: (u32, u32), p: (int, int)) -> TileData {
    tileset[tile_index(start_pos.0 + (p.0 - set_pos.0), start_pos.1 + (p.1 - set_pos.1), 0)]
}

/// Position p, relative to `corner`, comes before (dx, dy) in the
/// column-by-column walk of a rectangle of height h.
spec fn walked(p: (int, int), corner: (u32, u32), h: u32, dx: int, dy: int) -> bool {
    let rx = p.0 - corner.0;
    let ry = p.1 - corner.1;
    0 <= rx && 0 <= ry < h && (rx < dx || (rx == dx && ry < dy))
}

/// The tiles of `layer` after a group is placed: in the rectangle, each
/// tileset tile with a texture is copied; everything else stays.
pub open spec fn placed_group(
    before: Seq<TileData>,
    after: Seq<TileData>,
    layer: int,
    tileset: Seq<TileData>,
    set_pos: (u32, u32),
    start_pos: (u32, u32),
    size: (u32, u32),
) -> bool {
    &&& after.len() == 8192
    &&& forall|z: int, p: (int, int)| 0 <= z < 8 && in_grid(p) ==> #[trigger] cell(after, z, p) == (
        if z == layer && in_rect(p, set_pos, size) && group_tile(tileset, set_pos, start_pos, p).texture_id > 0 {
            group_tile(tileset, set_pos, start_pos, p)
        } else {
            cell(before, z, p)
        })
}

/// The tiles of `layer` after a group is erased: in the rectangle, each
/// tile with a texture becomes the default tile; everything else stays.
pub open spec fn erased_group(before: Seq<TileData>, after: Seq<TileData>, layer: int, set_pos: (u32, u32), size: (u32, u32)) -> bool {
    &&& after.len() == 8192
    &&& forall|z: int, p: (int, int)| 0 <= z < 8 && in_grid(p) ==> #[trigger] cell(after, z, p) == (
        if z == layer && in_rect(p, set_pos, size) && cell(before, z, p).texture_id > 0 {
            default_tile()
        } else {
            cell(before, z, p)
        })
}

/// The tiles of a group's source, none when it is erased.
pub open spec fn source_tiles(source: Option<&TileMap>) -> Seq<TileData> {
    match source {
        Some(t) => t.tiles@,
        None => Seq::empty(),
    }
}

/// Part of a group walk done: positions walked so far hold `f` of
/// their position when `w` says so, the others are as before.
#[verifier::opaque]
spec fn group_progress(
    before: Seq<TileData>,
    tiles: Seq<TileData>,
    layer: int,
    corner: (u32, u32),
    h: u32,
    dx: int,
    dy: int,
    tileset: Seq<TileData>,
    start_pos: (u32, u32),
    erase: bool,
) -> bool {
    &&& tiles.len() == 8192
    &&& forall|z: int, p: (int, int)| 0 <= z < 8 && in_grid(p) ==> #[trigger] cell(tiles, z, p) == (
        if z == layer && walked(p, corner, h, dx, dy) && (if erase {
            cell(before, z, p).texture_id > 0
        } else {
            group_tile(tileset, corner, start_pos, p).texture_id > 0
        }) {
            if erase { default_tile() } else { group_tile(tileset, corner, start_pos, p) }
        } else {
            cell(before, z, p)
        })
}

proof fn lemma_group_begin(before: Seq<TileData>, layer: int, corner: (u32, u32), h: u32, tileset: Seq<TileData>, start_pos: (u32, u32), erase: bool)
    requires
        before.len() == 8192,
    ensures
        group_progress(before, before, layer, corner, h, 0, 0, tileset, start_pos, erase),
{
    reveal(group_progress);
}

proof fn lemma_group_next_column(before: Seq<TileData>, tiles: Seq<TileData>, layer: int, corner: (u32, u32), h: u32, dx: int, tileset: Seq<TileData>, start_pos: (u32, u32), erase: bool)
    requires
        group_progress(before, tiles, layer, corner, h, dx, h as int, tileset, start_pos, erase),
    ensures
        group_progress(before, tiles, layer, corner, h, dx + 1, 0, tileset, start_pos, erase),
{
    reveal(group_progress);
    assert forall|p: (int, int)| walked(p, corner, h, dx, h as int) == walked(p, corner, h, dx + 1, 0) by {}
}

/// One position of the walk: either the tile there is written with the
/// group's tile, or it is left as it was.
proof fn lemma_group_step(
    before: Seq<TileData>,
    tiles0: Seq<TileData>,
    tiles1: Seq<TileData>,
    layer: int,
    corner: (u32, u32),
    h: u32,
    dx: int,
    dy: int,
    tileset: Seq<TileData>,
    start_pos: (u32, u32),
    erase: bool,
)
    requires
        group_progress(before, tiles0, layer, corner, h, dx, dy, tileset, start_pos, erase),
        0 <= layer < 8,
        0 <= dx,
        0 <= dy < h,
        ({
            let q = (corner.0 + dx, corner.1 + dy);
            let wanted = if erase { cell(before, layer, q).texture_id > 0 } else { group_tile(tileset, corner, start_pos, q).texture_id > 0 };
            let t = if erase { default_tile() } else { group_tile(tileset, corner, start_pos, q) };
            if in_grid(q) && wanted {
                tiles1 == tiles0.update(tile_index(q.0, q.1, layer), t)
            } else {
                tiles1 == tiles0
            }
        }),
    ensures
        group_progress(before, tiles1, layer, corner, h, dx, dy + 1, tileset, start_pos, erase),
{
    reveal(group_progress);
    let q = (corner.0 + dx, corner.1 + dy);
    assert forall|z: int, p: (int, int)| 0 <= z < 8 && in_grid(p) && (z != layer || p != q) implies
        #[trigger] cell(tiles1, z, p) == cell(tiles0, z, p) by {
        if in_grid(q) {
            assert(tile_index(p.0, p.1, z) != tile_index(q.0, q.1, layer));
        }
    }
}

proof fn lemma_group_end(before: Seq<TileData>, tiles: Seq<TileData>, layer: int, corner: (u32, u32), size: (u32, u32), tileset: Seq<TileData>, start_pos: (u32, u32), erase: bool)
    requires
        group_progress(before, tiles, layer, corner, size.1, size.0 as int, 0, tileset, start_pos, erase),
    ensures
        !erase ==> placed_group(before, tiles, layer, tileset, corner, start_pos, size),
        erase ==> erased_group(before, tiles, layer, corner, size),
{
    reveal(group_progress);
    assert forall|p: (int, int)| walked(p, corner, size.1, size.0 as int, 0) == in_rect(p, corner, size) by {}
}

impl MapView {
    /// The tile at (x, y) of the bottom layer of the main map.
    pub fn get_tile_data(&self, set_pos: (u32, u32)) -> (t: TileData)
        requires
            self.wf(),
            tile_index(set_pos.0 as int, set_pos.1 as int, 0) < 8192,
        ensures
            t == self.maps@[0].tiles@[tile_index(set_pos.0 as int, set_pos.1 as int, 0)],
    {
        self.maps[0].get_tile((set_pos.0, set_pos.1, 0))
    }

    /// Puts the default tile on every position of every layer of map
    /// `index`.
    #[verifier::rlimit(40)]
    pub fn clear_map(&mut self, index: usize)
        requires
            old(self).wf(),
            index < 9,
        ensures
            final(self).wf(),
            final(self).maps@[index as int].tiles@ == empty_tiles(),
            final(self).maps@[index as int].filled_bound(),
            final(self).maps@[index as int].tilesize == old(self).maps@[index as int].tilesize,
            final(self).maps@[index as int].can_render == old(self).maps@[index as int].can_render,
            forall|i: int| 0 <= i < 9 && i != index ==> #[trigger] final(self).maps@[i] == old(self).maps@[i],
            final(self).map_attributes == old(self).map_attributes,
            final(self).map_zone == old(self).map_zone,
            final(self).map_zone_loc == old(self).map_zone_loc,
            final(self).map_zone_setting == old(self).map_zone_setting,
            final(self).fixed_weather == old(self).fixed_weather,
            preview_kept(*old(self), *final(self)),
            final(self).record == old(self).record,
    {
        let ghost before = self.maps@[index as int].tiles@;
        let ghost idx = index as int;
        let mut layer: u32 = 0;
        while layer < 8
            invariant
                self.wf(),
                index < 9,
                idx == index as int,
                layer <= 8,
                before == old(self).maps@[idx].tiles@,
                self.maps@[idx].tilesize == old(self).maps@[idx].tilesize,
                self.maps@[idx].can_render == old(self).maps@[idx].can_render,
                forall|i: int| 0 <= i < 9 && i != index ==> #[trigger] self.maps@[i] == old(self).maps@[i],
                self.map_attributes == old(self).map_attributes,
                self.map_zone == old(self).map_zone,
                self.map_zone_loc == old(self).map_zone_loc,
                self.map_zone_setting == old(self).map_zone_setting,
                self.fixed_weather == old(self).fixed_weather,
                preview_kept(*old(self), *self),
                self.record == old(self).record,
                forall|z: int, p: (int, int)| 0 <= z < 8 && in_grid(p) ==> #[trigger] cell(self.maps@[idx].tiles@, z, p)
                    == (if z < layer { default_tile() } else { cell(before, z, p) }),
            decreases 8 - layer,
        {
            let mut x: u32 = 0;
            while x < 32
                invariant
                    self.wf(),
                    index < 9,
                    idx == index as int,
                    layer < 8,
                    x <= 32,
                    self.maps@[idx].tilesize == old(self).maps@[idx].tilesize,
                    self.maps@[idx].can_render == old(self).maps@[idx].can_render,
                    forall|i: int| 0 <= i < 9 && i != index ==> #[trigger] self.maps@[i] == old(self).maps@[i],
                    self.map_attributes == old(self).map_attributes,
                    self.map_zone == old(self).map_zone,
                    self.map_zone_loc == old(self).map_zone_loc,
                    self.map_zone_setting == old(self).map_zone_setting,
                    self.fixed_weather == old(self).fixed_weather,
                    preview_kept(*old(self), *self),
                    self.record == old(self).record,
                    forall|z: int, p: (int, int)| 0 <= z < 8 && in_grid(p) ==> #[trigger] cell(self.maps@[idx].tiles@, z, p)
                        == (if z < layer || (z == layer && p.0 < x) { default_tile() } else { cell(before, z, p) }),
                decreases 32 - x,
            {
                let mut y: u32 = 0;
                while y < 32
                    invariant
                        self.wf(),
                        index < 9,
                        idx == index as int,
                        layer < 8,
                        x < 32,
                        y <= 32,
                        self.maps@[idx].tilesize == old(self).maps@[idx].tilesize,
                        self.maps@[idx].can_render == old(self).maps@[idx].can_render,
                        forall|i: int| 0 <= i < 9 && i != index ==> #[trigger] self.maps@[i] == old(self).maps@[i],
                        self.map_attributes == old(self).map_attributes,
                        self.map_zone == old(self).map_zone,
                        self.map_zone_loc == old(self).map_zone_loc,
                        self.map_zone_setting == old(self).map_zone_setting,
                        self.fixed_weather == old(self).fixed_weather,
                        preview_kept(*old(self), *self),
                        self.record == old(self).record,
                        forall|z: int, p: (int, int)| 0 <= z < 8 && in_grid(p) ==> #[trigger] cell(self.maps@[idx].tiles@, z, p)
                            == (if z < layer || (z == layer && (p.0 < x || (p.0 == x && p.1 < y))) {
                                default_tile()
                            } else {
                                cell(before, z, p)
                            }),
                    decreases 32 - y,
                {
                    let ghost tiles0 = self.maps@[idx].tiles@;
                    self.maps[index].set_tile((x, y, layer), TileData::default());
                    proof {
                        let q = (x as int, y as int);
                        assert forall|z: int, p: (int, int)| 0 <= z < 8 && in_grid(p) && (z != layer || p != q) implies
                            #[trigger] cell(self.maps@[idx].tiles@, z, p) == cell(tiles0, z, p) by {
                            assert(tile_index(p.0, p.1, z) != tile_index(q.0, q.1, layer as int));
                        }
                    }
                    y = y + 1;
                }
                x = x + 1;
            }
            layer = layer + 1;
        }
        proof {
            let t = self.maps@[idx].tiles@;
            assert forall|i: int| 0 <= i < 8192 implies #[trigger] t[i] == default_tile() by {
                let z = i / 1024;
                let p = (i % 32, (i / 32) % 32);
                assert(tile_index(p.0, p.1, z) == i) by (nonlinear_arith)
                    requires 0 <= i < 8192, z == i / 1024, p == (i % 32, (i / 32) % 32);
                assert(0 <= z < 8 && in_grid(p)) by (nonlinear_arith)
                    requires 0 <= i < 8192, z == i / 1024, p == (i % 32, (i / 32) % 32);
                assert(cell(t, z, p) == default_tile());
            }
            assert(t =~= empty_tiles());
            lemma_empty_map_bound(self.maps@[idx]);
        }
    }

    /// Places the group of tiles of `selection_size` read from the
    /// tileset at `start_pos` onto `layer` of the main map at `set_pos`,
    /// column by column: each tileset tile with a texture is copied to
    /// its position when that lies on the map, after its former texture
    /// id is offered to the open undo record.
    pub fn set_tile_group(
        &mut self,
        set_pos: (u32, u32),
        layer: u32,
        tileset: &TileMap,
        start_pos: (u32, u32),
        selection_size: (u32, u32),
    )
        requires
            old(self).wf(),
            old(self).record_ok(),
            tileset.wf(),
            layer < 8,
            selection_size.0 > 0 && selection_size.1 > 0 ==> tile_index(
                start_pos.0 + selection_size.0 - 1,
                start_pos.1 + selection_size.1 - 1,
                0,
            ) < 8192,
            set_pos.0 + selection_size.0 <= u32::MAX + 1,
            set_pos.1 + selection_size.1 <= u32::MAX + 1,
        ensures
            final(self).wf(),
            final(self).record_ok(),
            placed_group(old(self).maps@[0].tiles@, final(self).maps@[0].tiles@, layer as int, tileset.tiles@, set_pos, start_pos, selection_size),
            forall|i: int| 1 <= i < 9 ==> #[trigger] final(self).maps@[i] == old(self).maps@[i],
            final(self).maps@[0].tilesize == old(self).maps@[0].tilesize,
            final(self).maps@[0].can_render == old(self).maps@[0].can_render,
            recorded_edit(old(self).record, final(self).record, old(self).maps@[0].tiles@, final(self).maps@[0].tiles@),
            final(self).map_attributes == old(self).map_attributes,
            final(self).map_zone == old(self).map_zone,
            final(self).map_zone_loc == old(self).map_zone_loc,
            final(self).map_zone_setting == old(self).map_zone_setting,
            final(self).fixed_weather == old(self).fixed_weather,
            preview_kept(*old(self), *final(self)),
    {
        self.edit_group(set_pos, layer, Some(tileset), start_pos, selection_size);
        proof {
            lemma_group_end(old(self).maps@[0].tiles@, self.maps@[0].tiles@, layer as int, set_pos, selection_size,
                tileset.tiles@, start_pos, false);
        }
    }

    /// Erases the tiles with a texture in the rectangle of `size` at
    /// `set_pos` on `layer` of the main map, column by column, each after
    /// its texture id is offered to the open undo record.
    pub fn delete_tile_group(&mut self, set_pos: (u32, u32), layer: u32, size: (u32, u32))
        requires
            old(self).wf(),
            old(self).record_ok(),
            layer < 8,
            set_pos.0 + size.0 <= u32::MAX + 1,
            set_pos.1 + size.1 <= u32::MAX + 1,
        ensures
            final(self).wf(),
            final(self).record_ok(),
            erased_group(old(self).maps@[0].tiles@, final(self).maps@[0].tiles@, layer as int, set_pos, size),
            forall|i: int| 1 <= i < 9 ==> #[trigger] final(self).maps@[i] == old(self).maps@[i],
            final(self).maps@[0].tilesize == old(self).maps@[0].tilesize,
            final(self).maps@[0].can_render == old(self).maps@[0].can_render,
            recorded_edit(old(self).record, final(self).record, old(self).maps@[0].tiles@, final(self).maps@[0].tiles@),
            final(self).map_attributes == old(self).map_attributes,
            final(self).map_zone == old(self).map_zone,
            final(self).map_zone_loc == old(self).map_zone_loc,
            final(self).map_zone_setting == old(self).map_zone_setting,
            final(self).fixed_weather == old(self).fixed_weather,
            preview_kept(*old(self), *final(self)),
    {
        self.edit_group(set_pos, layer, None, (0, 0), size);
        proof {
            lemma_group_end(old(self).maps@[0].tiles@, self.maps@[0].tiles@, layer as int, set_pos, size,
                Seq::empty(), (0, 0), true);
        }
    }

    /// The walk shared by placing a group from a tileset and erasing one
    /// (no tileset): column by column over the rectangle, writing each
    /// position on the map that wants it after offering its texture id to
    /// the undo record.
    #[verifier::rlimit(40)]
    fn edit_group(
        &mut self,
        set_pos: (u32, u32),
        layer: u32,
        source: Option<&TileMap>,
        start_pos: (u32, u32),
        size: (u32, u32),
    )
        requires
            old(self).wf(),
            old(self).record_ok(),
            source matches Some(t) ==> t.wf(),
            layer < 8,
            source is Some && size.0 > 0 && size.1 > 0 ==> tile_index(start_pos.0 + size.0 - 1, start_pos.1 + size.1 - 1, 0) < 8192,
            set_pos.0 + size.0 <= u32::MAX + 1,
            set_pos.1 + size.1 <= u32::MAX + 1,
        ensures
            final(self).wf(),
            final(self).record_ok(),
            group_progress(old(self).maps@[0].tiles@, final(self).maps@[0].tiles@, layer as int, set_pos, size.1, size.0 as int, 0,
                source_tiles(source), start_pos, source is None),
            forall|i: int| 1 <= i < 9 ==> #[trigger] final(self).maps@[i] == old(self).maps@[i],
            final(self).maps@[0].tilesize == old(self).maps@[0].tilesize,
            final(self).maps@[0].can_render == old(self).maps@[0].can_render,
            recorded_edit(old(self).record, final(self).record, old(self).maps@[0].tiles@, final(self).maps@[0].tiles@),
            final(self).map_attributes == old(self).map_attributes,
            final(self).map_zone == old(self).map_zone,
            final(self).map_zone_loc == old(self).map_zone_loc,
            final(self).map_zone_setting == old(self).map_zone_setting,
            final(self).fixed_weather == old(self).fixed_weather,
            preview_kept(*old(self), *final(self)),
    {
        let ghost before = self.maps@[0].tiles@;
        let ghost z = layer as int;
        let ghost tileset = source_tiles(source);
        let erase = source.is_none();
        proof {
            lemma_recorded_edit_start(self.record, before);
            lemma_group_begin(before, z, set_pos, size.1, tileset, start_pos, erase);
        }
        let mut x: u32 = 0;
        while x < size.0
            invariant
                self.wf(),
                self.record_ok(),
                source matches Some(t) ==> t.wf(),
                tileset == source_tiles(source),
                erase == source is None,
                layer < 8,
                z == layer as int,
                x <= size.0,
                !erase && size.0 > 0 && size.1 > 0 ==> tile_index(start_pos.0 + size.0 - 1, start_pos.1 + size.1 - 1, 0) < 8192,
                set_pos.0 + size.0 <= u32::MAX + 1,
                set_pos.1 + size.1 <= u32::MAX + 1,
                before == old(self).maps@[0].tiles@,
                forall|i: int| 1 <= i < 9 ==> #[trigger] self.maps@[i] == old(self).maps@[i],
                self.maps@[0].tilesize == old(self).maps@[0].tilesize,
                self.maps@[0].can_render == old(self).maps@[0].can_render,
                recorded_edit(old(self).record, self.record, before, self.maps@[0].tiles@),
                self.map_attributes == old(self).map_attributes,
                self.map_zone == old(self).map_zone,
                self.map_zone_loc == old(self).map_zone_loc,
                self.map_zone_setting == old(self).map_zone_setting,
                self.fixed_weather == old(self).fixed_weather,
                preview_kept(*old(self), *self),
                group_progress(before, self.maps@[0].tiles@, z, set_pos, size.1, x as int, 0, tileset, start_pos, erase),
            decreases size.0 - x,
        {
            let mut y: u32 = 0;
            while y < size.1
                invariant
                    self.wf(),
                    self.record_ok(),
                    source matches Some(t) ==> t.wf(),
                    tileset == source_tiles(source),
                    erase == source is None,
                    layer < 8,
                    z == layer as int,
                    x < size.0,
                    y <= size.1,
                    !erase && size.0 > 0 && size.1 > 0 ==> tile_index(start_pos.0 + size.0 - 1, start_pos.1 + size.1 - 1, 0) < 8192,
                    set_pos.0 + size.0 <= u32::MAX + 1,
                    set_pos.1 + size.1 <= u32::MAX + 1,
                    before == old(self).maps@[0].tiles@,
                    forall|i: int| 1 <= i < 9 ==> #[trigger] self.maps@[i] == old(self).maps@[i],
                    self.maps@[0].tilesize == old(self).maps@[0].tilesize,
                    self.maps@[0].can_render == old(self).maps@[0].can_render,
                    recorded_edit(old(self).record, self.record, before, self.maps@[0].tiles@),
                    self.map_attributes == old(self).map_attributes,
                    self.map_zone == old(self).map_zone,
                    self.map_zone_loc == old(self).map_zone_loc,
                    self.map_zone_setting == old(self).map_zone_setting,
                    self.fixed_weather == old(self).fixed_weather,
                    preview_kept(*old(self), *self),
                    group_progress(before, self.maps@[0].tiles@, z, set_pos, size.1, x as int, y as int, tileset, start_pos, erase),
                decreases size.1 - y,
            {
                let ghost tiles0 = self.maps@[0].tiles@;
                let ghost r0 = self.record;
                let px = set_pos.0 + x;
                let py = set_pos.1 + y;
                let ghost q = (px as int, py as int);
                let on_map = px < 32 && py < 32;
                proof {
                    reveal(group_progress);
                    if on_map {
                        assert(cell(tiles0, z, q) == cell(before, z, q));
                    }
                }
                let wanted_tile = match source {
                    Some(t) => t.get_tile((start_pos.0 + x, start_pos.1 + y, 0)),
                    None => TileData::default(),
                };
                let wanted = match source {
                    Some(_) => wanted_tile.texture_id > 0 && on_map,
                    None => on_map && self.maps[0].get_tile((px, py, layer)).texture_id > 0,
                };
                if wanted {
                    let last_texture = self.maps[0].get_tile((px, py, layer)).texture_id;
                    self.record.push_undo(TilePos { x: px, y: py, z: layer }, #[verifier::truncate] (last_texture as i32));
                    self.maps[0].set_tile((px, py, layer), wanted_tile);
                    proof {
                        lemma_recorded_edit_step(old(self).record, r0, self.record, before, tiles0, self.maps@[0].tiles@,
                            TilePos { x: px, y: py, z: layer }, wanted_tile);
                    }
                }
                proof {
                    lemma_group_step(before, tiles0, self.maps@[0].tiles@, z, set_pos, size.1, x as int, y as int,
                        tileset, start_pos, erase);
                }
                y = y + 1;
            }
            proof {
                lemma_group_next_column(before, self.maps@[0].tiles@, z, set_pos, size.1, x as int, tileset, start_pos, erase);
            }
            x = x + 1;
        }
    }

    /// Fills the region around `set_pos` on `layer` of the main map with
    /// the tileset's tile at `tileset_pos`: every tile reached from
    /// `set_pos` through neighbouring tiles of the same texture id takes
    /// that tile. An empty tileset tile, or one of the texture id already
    /// there, changes nothing. Each filled tile's former texture id is
    /// offered to the open undo record.
    #[verifier::rlimit(40)]
    pub fn set_tile_fill(&mut self, set_pos: (u32, u32), layer: u32, tileset: &TileMap, tileset_pos: (u32, u32))
        requires
            old(self).wf(),
            old(self).record_ok(),
            tileset.wf(),
            set_pos.0 < 32,
            set_pos.1 < 32,
            layer < 8,
            tile_index(tileset_pos.0 as int, tileset_pos.1 as int, 0) < 8192,
        ensures
            final(self).wf(),
            final(self).record_ok(),
            forall|i: int| 1 <= i < 9 ==> #[trigger] final(self).maps@[i] == old(self).maps@[i],
            ({
                let n = tileset.tiles@[tile_index(tileset_pos.0 as int, tileset_pos.1 as int, 0)];
                let before = old(self).maps@[0].tiles@;
                let c = cell(before, layer as int, pt(set_pos)).texture_id;
                if n.texture_id == 0 || c == n.texture_id {
                    final(self).maps@[0] == old(self).maps@[0]
                } else {
                    filled_layer(before, final(self).maps@[0].tiles@, layer as int, pt(set_pos), n)
                }
            }),
            final(self).maps@[0].tilesize == old(self).maps@[0].tilesize,
            final(self).maps@[0].can_render == old(self).maps@[0].can_render,
            old(self).maps@[0].filled_bound() ==> final(self).maps@[0].filled_bound(),
            recorded_edit(old(self).record, final(self).record, old(self).maps@[0].tiles@, final(self).maps@[0].tiles@),
            final(self).map_attributes == old(self).map_attributes,
            final(self).map_zone == old(self).map_zone,
            final(self).map_zone_loc == old(self).map_zone_loc,
            final(self).map_zone_setting == old(self).map_zone_setting,
            final(self).fixed_weather == old(self).fixed_weather,
            preview_kept(*old(self), *final(self)),
    {
        proof {
            lemma_recorded_edit_start(self.record, self.maps@[0].tiles@);
        }
        let tiledata = tileset.get_tile((tileset_pos.0, tileset_pos.1, 0));
        if tiledata.texture_id == 0 {
            return;
        }

        let comparedata = self.maps[0].get_tile((set_pos.0, set_pos.1, layer)).texture_id;
        if comparedata == tiledata.texture_id {
            return;
        }

        let ghost z = layer as int;
        let ghost c = comparedata;
        let ghost n = tiledata;
        let ghost start = pt(set_pos);
        let ghost before = self.maps@[0].tiles@;
        let ghost ids = layer_ids(before, z);

        let mut paint_to_map: Vec<(u32, u32)> = Vec::new();
        paint_to_map.push(set_pos);

        proof {
            lemma_layer_ids_at(before, z);
            lemma_fill_start(ids, c, n.texture_id, start, paint_to_map@);
            lemma_tiles_start(before, z, n, start);
        }

        while paint_to_map.len() > 0
            invariant
                self.wf(),
                self.record_ok(),
                forall|i: int| 1 <= i < 9 ==> #[trigger] self.maps@[i] == old(self).maps@[i],
                self.maps@[0].tilesize == old(self).maps@[0].tilesize,
                self.maps@[0].can_render == old(self).maps@[0].can_render,
                old(self).maps@[0].filled_bound() ==> self.maps@[0].filled_bound(),
                recorded_edit(old(self).record, self.record, old(self).maps@[0].tiles@, self.maps@[0].tiles@),
                self.map_attributes == old(self).map_attributes,
                self.map_zone == old(self).map_zone,
                self.map_zone_loc == old(self).map_zone_loc,
                self.map_zone_setting == old(self).map_zone_setting,
                self.fixed_weather == old(self).fixed_weather,
                preview_kept(*old(self), *self),
                layer < 8,
                z == layer as int,
                n == tiledata,
                c == comparedata,
                n.texture_id != c,
                in_grid(start),
                before == old(self).maps@[0].tiles@,
                ids == layer_ids(before, z),
                at(ids, start) == c,
                fill_inv(ids, layer_ids(self.maps@[0].tiles@, z), c, n.texture_id, start, paint_to_map@),
                inv_outside(before, self.maps@[0].tiles@, z),
                inv_tiles(before, self.maps@[0].tiles@, z, n, start),
            decreases fill_measure(layer_ids(self.maps@[0].tiles@, z), c, paint_to_map@),
        {
            let ghost tiles0 = self.maps@[0].tiles@;
            let ghost stack0 = paint_to_map@;
            let pos = paint_to_map.pop().unwrap();
            let ghost t = pt(pos);
            assert(stack0.last() == pos);
            proof {
                lemma_fill_pending(ids, layer_ids(tiles0, z), c, n.texture_id, start, stack0);
                assert(stack0[stack0.len() - 1] == pos);
            }

            let ghost r0 = self.record;
            let last_texture = self.maps[0].get_tile((pos.0, pos.1, layer)).texture_id;
            self.record.push_undo(TilePos { x: pos.0, y: pos.1, z: layer }, #[verifier::truncate] (last_texture as i32));
            self.maps[0].set_tile((pos.0, pos.1, layer), tiledata);
            let ghost tiles1 = self.maps@[0].tiles@;
            let ghost g1 = layer_ids(tiles1, z);
            proof {
                assert(tiles1 == tiles0.update(tile_index(t.0, t.1, z), n));
                lemma_recorded_edit_step(old(self).record, r0, self.record, old(self).maps@[0].tiles@, tiles0, tiles1,
                    TilePos { x: pos.0, y: pos.1, z: layer }, n);
                lemma_layer_ids_update(tiles0, z, t, n);
                lemma_layer_ids_at(tiles1, z);
            }

            let ghost stack1 = paint_to_map@;
            let ghost mut pushed: Seq<(u32, u32)> = Seq::empty();
            // Down
            if pos.1 > 0 {
                if self.maps[0].get_tile((pos.0, pos.1 - 1, layer)).texture_id == comparedata {
                    paint_to_map.push((pos.0, pos.1 - 1));
                    proof { pushed = pushed.push((pos.0, (pos.1 - 1) as u32)); assert(pushed[pushed.len() - 1] == (pos.0, (pos.1 - 1) as u32)); }
                }
            }
            proof {
                assert(pos.1 > 0 && at(g1, (pos.0 as int, pos.1 - 1)) == c
                    ==> pushed.contains((pos.0, (pos.1 - 1) as u32)));
            }
            let ghost pushed_down = pushed;
            // Up
            if pos.1 + 1 < 32 {
                if self.maps[0].get_tile((pos.0, pos.1 + 1, layer)).texture_id == comparedata {
                    paint_to_map.push((pos.0, pos.1 + 1));
                    proof { pushed = pushed.push((pos.0, (pos.1 + 1) as u32)); assert(pushed[pushed.len() - 1] == (pos.0, (pos.1 + 1) as u32)); }
                }
            }
            proof {
                assert(pos.1 + 1 < 32 && at(g1, (pos.0 as int, pos.1 + 1)) == c
                    ==> pushed.contains((pos.0, (pos.1 + 1) as u32)));
            }
            let ghost pushed_up = pushed;
            proof { assert(pushed_down.len() <= pushed_up.len() && forall|i: int| 0 <= i < pushed_down.len() ==> pushed_up[i] == pushed_down[i]); }
            // Left
            if pos.0 > 0 {
                if self.maps[0].get_tile((pos.0 - 1, pos.1, layer)).texture_id == comparedata {
                    paint_to_map.push((pos.0 - 1, pos.1));
                    proof { pushed = pushed.push(((pos.0 - 1) as u32, pos.1)); assert(pushed[pushed.len() - 1] == ((pos.0 - 1) as u32, pos.1)); }
                }
            }
            proof {
                assert(pos.0 > 0 && at(g1, (pos.0 - 1, pos.1 as int)) == c
                    ==> pushed.contains(((pos.0 - 1) as u32, pos.1)));
            }
            let ghost pushed_left = pushed;
            proof { assert(pushed_up.len() <= pushed_left.len() && forall|i: int| 0 <= i < pushed_up.len() ==> pushed_left[i] == pushed_up[i]); }
            // Right
            if pos.0 + 1 < 32 {
                if self.maps[0].get_tile((pos.0 + 1, pos.1, layer)).texture_id == comparedata {
                    paint_to_map.push((pos.0 + 1, pos.1));
                    proof { pushed = pushed.push(((pos.0 + 1) as u32, pos.1)); assert(pushed[pushed.len() - 1] == ((pos.0 + 1) as u32, pos.1)); }
                }
            }

            proof {
                assert(pushed_left.len() <= pushed.len() && forall|i: int| 0 <= i < pushed_left.len() ==> pushed[i] == pushed_left[i]);
                assert(pushed_down.len() <= pushed.len() && forall|i: int| 0 <= i < pushed_down.len() ==> pushed[i] == pushed_down[i]);
                assert(pushed_up.len() <= pushed.len() && forall|i: int| 0 <= i < pushed_up.len() ==> pushed[i] == pushed_up[i]);
                assert(paint_to_map@ =~= stack1 + pushed);
                assert(stack1 =~= stack0.drop_last());
                assert(pos.0 + 1 < 32 && at(g1, (pos.0 + 1, pos.1 as int)) == c
                    ==> pushed.contains(((pos.0 + 1) as u32, pos.1)));
                lemma_prefix_contains(pushed_down, pushed, (pos.0, (pos.1 - 1) as u32));
                lemma_prefix_contains(pushed_up, pushed, (pos.0, (pos.1 + 1) as u32));
                lemma_prefix_contains(pushed_left, pushed, ((pos.0 - 1) as u32, pos.1));
                lemma_step_neighbours(g1, c, pos, pushed);
                assert(fill_step(layer_ids(tiles0, z), g1, c, n.texture_id, stack0, pushed));
                lemma_fill_step(ids, layer_ids(tiles0, z), g1, c, n.texture_id, start, stack0, pushed);
                lemma_tiles_step(before, tiles0, z, n, start, t);
            }
        }

        proof {
            assert(paint_to_map@ =~= Seq::<(u32, u32)>::empty());
            lemma_fill_done(ids, layer_ids(self.maps@[0].tiles@, z), c, n.texture_id, start);
            lemma_tiles_done(before, self.maps@[0].tiles@, z, n, start);
        }
    }
}

} // verus!
