//! The tileset panel: the tiles of the chosen sheet laid out on a map,
//! and the rectangle of tiles selected on it.

use vstd::prelude::*;
use crate::color::Color;
use crate::resource::{TilesheetData, MAX_TILE_Y};
use crate::texture::Tile;
use crate::tile_map::{TileMap, TileData, tile_index, default_tile};
use crate::map_view::tiles::cell;
use crate::region::in_grid;

verus! {

/// The width of a tile sheet in tiles.
pub const MAX_TILE_X: u32 = 10;

/// Where a sheet tile goes on the panel: its column, and its row counted
/// from the panel's bottom.
pub open spec fn panel_pos(t: Tile, tilesize: u32) -> (int, int) {
    ((t.x / tilesize) as int, MAX_TILE_Y - (t.y / tilesize) - 1)
}

/// The tile a sheet tile shows as: its atlas id in opaque white.
pub open spec fn panel_tile(t: Tile) -> TileData {
    TileData { texture_id: t.tex_id as u32, texture_layer: 0, color: Color { r: 255, g: 255, b: 255, alpha: 255 } }
}

/// The panel's tiles after the tiles of a sheet are laid out in order:
/// each tile with an atlas id is put at its position, when that lies on
/// the map.
pub open spec fn laid_out(tiles: Seq<TileData>, sheet: Seq<Tile>, tilesize: u32) -> Seq<TileData>
    decreases sheet.len(),
{
    if sheet.len() == 0 {
        tiles
    } else {
        let before = laid_out(tiles, sheet.drop_last(), tilesize);
        let t = sheet.last();
        let p = panel_pos(t, tilesize);
        if t.tex_id > 0 && in_grid(p) {
            before.update(tile_index(p.0, p.1, 0), panel_tile(t))
        } else {
            before
        }
    }
}

/// Every tile of the sheet lies in one of the panel's rows.
pub open spec fn sheet_fits(sheet: Seq<Tile>, tilesize: u32) -> bool {
    forall|i: int| 0 <= i < sheet.len() ==> (#[trigger] sheet[i]).y / tilesize < MAX_TILE_Y
}

/// The tileset panel.
pub struct Tileset {
    pub map: TileMap,
    pub selected_tile: usize,
    pub select_start: (u32, u32),
    pub select_size: (u32, u32),
}

/// Lays the tiles of a sheet out on the panel's map.
fn lay_out(map: &mut TileMap, sheet: &Vec<Tile>, tilesize: u32)
    requires
        old(map).wf(),
        tilesize > 0,
        sheet_fits(sheet@, tilesize),
    ensures
        final(map).wf(),
        final(map).tiles@ == laid_out(old(map).tiles@, sheet@, tilesize),
        final(map).tilesize == old(map).tilesize,
        final(map).can_render == old(map).can_render,
{
    let mut i: usize = 0;
    while i < sheet.len()
        invariant
            map.wf(),
            tilesize > 0,
            sheet_fits(sheet@, tilesize),
            i <= sheet@.len(),
            map.tiles@ == laid_out(old(map).tiles@, sheet@.take(i as int), tilesize),
            map.tilesize == old(map).tilesize,
            map.can_render == old(map).can_render,
        decreases sheet@.len() - i,
    {
        let tiledata = sheet[i];
        proof {
            assert(sheet@.take(i as int + 1).drop_last() =~= sheet@.take(i as int));
            assert(sheet@.take(i as int + 1).last() == tiledata);
            assert(tiledata.y / tilesize < MAX_TILE_Y);
        }
        let id = tiledata.tex_id;
        let x = tiledata.x / tilesize;
        let y = MAX_TILE_Y - (tiledata.y / tilesize) - 1;
        if id > 0 {
            map.set_tile((x, y, 0), TileData {
                texture_id: #[verifier::truncate] (id as u32),
                texture_layer: 0,
                color: Color::rgba(255, 255, 255, 255),
            });
        }
        i = i + 1;
    }
    proof {
        assert(sheet@.take(sheet@.len() as int) =~= sheet@);
    }
}

/// The panel after sheet `tileset_index` is shown on it (see
/// `Tileset::change_tileset`).
pub open spec fn sheet_shown(before: Tileset, after: Tileset, sheets: Seq<TilesheetData>, tileset_index: usize, tilesize: u32)
    -> bool {
    &&& before.selected_tile == tileset_index ==> after == before
    &&& before.selected_tile != tileset_index ==> {
        &&& after.selected_tile == tileset_index
        &&& exists|cleared: Seq<TileData>| {
            &&& #[trigger] after.map.tiles@ == laid_out(cleared, sheets[tileset_index as int].tile.tiles@, tilesize)
            &&& cleared.len() == 8192
            &&& forall|z: int, p: (int, int)| 0 <= z < 8 && in_grid(p) ==> #[trigger] cell(cleared, z, p) == (
                if z == 0 && p.0 < MAX_TILE_X && p.1 < MAX_TILE_Y { default_tile() } else { cell(before.map.tiles@, z, p) })
        }
    }
    &&& after.select_start == before.select_start
    &&& after.select_size == before.select_size
}

impl Tileset {
    /// The panel showing sheet 0, with its top-left tile selected.
    pub fn new(sheets: &Vec<TilesheetData>, tilesize: u32) -> (t: Self)
        requires
            sheets@.len() > 0,
            tilesize > 0,
            sheet_fits(sheets@[0].tile.tiles@, tilesize),
        ensures
            t.map.wf(),
            t.map.tiles@ == laid_out(crate::tile_map::empty_tiles(), sheets@[0].tile.tiles@, tilesize),
            t.map.can_render,
            t.map.tilesize == tilesize,
            t.selected_tile == 0,
            t.select_start == (0u32, (MAX_TILE_Y - 1) as u32),
            t.select_size == (1u32, 1u32),
    {
        let mut map = TileMap::new(tilesize);
        lay_out(&mut map, &sheets[0].tile.tiles, tilesize);
        map.can_render = true;
        Tileset { map, selected_tile: 0, select_start: (0, MAX_TILE_Y - 1), select_size: (1, 1) }
    }

    /// Selects the rectangle with corners `start` and `end` (in either
    /// order) and returns its size in tiles.
    pub fn set_selection(&mut self, start: (u32, u32), end: (u32, u32)) -> (size: (u32, u32))
        requires
            (if start.0 > end.0 { start.0 - end.0 } else { end.0 - start.0 }) < u32::MAX,
            (if start.1 > end.1 { start.1 - end.1 } else { end.1 - start.1 }) < u32::MAX,
        ensures
            final(self).select_start == (
                if start.0 > end.0 { end.0 } else { start.0 },
                if start.1 > end.1 { end.1 } else { start.1 },
            ),
            size.0 == (if start.0 > end.0 { start.0 - end.0 } else { end.0 - start.0 }) + 1,
            size.1 == (if start.1 > end.1 { start.1 - end.1 } else { end.1 - start.1 }) + 1,
            final(self).select_size == size,
            final(self).map == old(self).map,
            final(self).selected_tile == old(self).selected_tile,
    {
        let start_pos = (
            if start.0 > end.0 { end.0 } else { start.0 },
            if start.1 > end.1 { end.1 } else { start.1 },
        );
        let end_pos = (
            if start.0 > end.0 { start.0 } else { end.0 },
            if start.1 > end.1 { start.1 } else { end.1 },
        );
        self.select_start = start_pos;
        self.select_size = (end_pos.0 - start_pos.0 + 1, end_pos.1 - start_pos.1 + 1);
        self.select_size
    }

    /// Shows sheet `tileset_index` on the panel: the panel's ten columns
    /// of twenty rows are cleared, then the sheet's tiles laid out. The
    /// sheet shown already changes nothing.
    #[verifier::rlimit(40)]
    pub fn change_tileset(&mut self, sheets: &Vec<TilesheetData>, tileset_index: usize, tilesize: u32)
        requires
            old(self).map.wf(),
            tileset_index < sheets@.len(),
            tilesize > 0,
            sheet_fits(sheets@[tileset_index as int].tile.tiles@, tilesize),
        ensures
            final(self).map.wf(),
            sheet_shown(*old(self), *final(self), sheets@, tileset_index, tilesize),
    {
        if self.selected_tile == tileset_index {
            return;
        }
        self.selected_tile = tileset_index;
        let ghost before = self.map.tiles@;
        let mut x: u32 = 0;
        while x < MAX_TILE_X
            invariant
                self.map.wf(),
                x <= MAX_TILE_X,
                self.selected_tile == tileset_index,
                self.select_start == old(self).select_start,
                self.select_size == old(self).select_size,
                before == old(self).map.tiles@,
                forall|z: int, p: (int, int)| 0 <= z < 8 && in_grid(p) ==> #[trigger] cell(self.map.tiles@, z, p) == (
                    if z == 0 && p.0 < x && p.1 < MAX_TILE_Y { default_tile() } else { cell(before, z, p) }),
            decreases MAX_TILE_X - x,
        {
            let mut y: u32 = 0;
            while y < MAX_TILE_Y
                invariant
                    self.map.wf(),
                    x < MAX_TILE_X,
                    y <= MAX_TILE_Y,
                    self.selected_tile == tileset_index,
                    self.select_start == old(self).select_start,
                    self.select_size == old(self).select_size,
                    before == old(self).map.tiles@,
                    forall|z: int, p: (int, int)| 0 <= z < 8 && in_grid(p) ==> #[trigger] cell(self.map.tiles@, z, p) == (
                        if z == 0 && p.1 < MAX_TILE_Y && (p.0 < x || (p.0 == x && p.1 < y)) { default_tile() } else { cell(before, z, p) }),
                decreases MAX_TILE_Y - y,
            {
                let ghost tiles0 = self.map.tiles@;
                self.map.set_tile((x, y, 0), TileData::default());
                proof {
                    let q = (x as int, y as int);
                    assert forall|z: int, p: (int, int)| 0 <= z < 8 && in_grid(p) && (z != 0 || p != q) implies
                        #[trigger] cell(self.map.tiles@, z, p) == cell(tiles0, z, p) by {
                        assert(tile_index(p.0, p.1, z) != tile_index(q.0, q.1, 0));
                    }
                }
                y = y + 1;
            }
            x = x + 1;
        }
        let ghost cleared = self.map.tiles@;
        lay_out(&mut self.map, &sheets[tileset_index].tile.tiles, tilesize);
        assert(self.map.tiles@ == laid_out(cleared, sheets@[tileset_index as int].tile.tiles@, tilesize));
    }
}

/// Laying out a sheet keeps the number of tiles.
proof fn lemma_laid_out_len(tiles0: Seq<TileData>, sheet: Seq<Tile>, tilesize: u32)
    requires
        tiles0.len() >= 1024,
    ensures
        laid_out(tiles0, sheet, tilesize).len() == tiles0.len(),
    decreases sheet.len(),
{
    if sheet.len() > 0 {
        lemma_laid_out_len(tiles0, sheet.drop_last(), tilesize);
    }
}

/// Laying out a sheet shows tile `k` on its panel cell when no later
/// tile of the sheet with an atlas id lands on the same cell.
pub proof fn lemma_laid_out_last(tiles0: Seq<TileData>, sheet: Seq<Tile>, tilesize: u32, k: int)
    requires
        tiles0.len() == 8192,
        0 <= k < sheet.len(),
        sheet[k].tex_id > 0,
        in_grid(panel_pos(sheet[k], tilesize)),
        forall|j: int| k < j < sheet.len() && (#[trigger] sheet[j]).tex_id > 0 && in_grid(panel_pos(sheet[j], tilesize))
            ==> panel_pos(sheet[j], tilesize) != panel_pos(sheet[k], tilesize),
    ensures
        laid_out(tiles0, sheet, tilesize)[tile_index(panel_pos(sheet[k], tilesize).0, panel_pos(sheet[k], tilesize).1, 0)]
            == panel_tile(sheet[k]),
    decreases sheet.len(),
{
    let front = sheet.drop_last();
    let t = sheet.last();
    assert(t == sheet[sheet.len() - 1]);
    let p = panel_pos(sheet[k], tilesize);
    lemma_laid_out_len(tiles0, front, tilesize);
    let before = laid_out(tiles0, front, tilesize);
    let q = panel_pos(t, tilesize);
    assert(laid_out(tiles0, sheet, tilesize) == (if t.tex_id > 0 && in_grid(q) {
        before.update(tile_index(q.0, q.1, 0), panel_tile(t))
    } else {
        before
    }));
    if k == sheet.len() - 1 {
        assert(0 <= tile_index(p.0, p.1, 0) < before.len());
    } else {
        assert(front[k] == sheet[k]);
        assert forall|j: int| k < j < front.len() && (#[trigger] front[j]).tex_id > 0 && in_grid(panel_pos(front[j], tilesize))
            implies panel_pos(front[j], tilesize) != panel_pos(front[k], tilesize) by {
            assert(front[j] == sheet[j]);
        }
        lemma_laid_out_last(tiles0, front, tilesize, k);
        if t.tex_id > 0 && in_grid(q) {
            assert(q != p);
            assert(tile_index(q.0, q.1, 0) != tile_index(p.0, p.1, 0));
        }
    }
}

} // verus!
