//! A map's tiles as the renderer draws them: eight layers of 32 by 32
//! tiles, with a count per layer that tells which layers can be skipped.

use vstd::prelude::*;
use crate::color::Color;

verus! {

/// The layers of a map, lowest first.
#[derive(Copy, Clone, Debug, PartialEq, Eq, Structural)]
pub enum MapLayers {
    Ground,
    Mask,
    /// Mask 2 is the Z layer spacer for bridges.
    Mask2,
    Anim1,
    Anim2,
    Anim3,
    /// always above player.
    Fringe,
    Fringe2,
    Count,
}

/// The depth at which a layer index is drawn.
pub open spec fn depth_of_index(layer: u32) -> u32 {
    if layer == 0 { 10 }
    else if layer == 1 { 9 }
    else if layer == 2 { 8 }
    else if layer == 3 { 7 }
    else if layer == 4 { 6 }
    else if layer == 5 { 5 }
    else if layer == 6 { 3 }
    else { 2 }
}

/// The index of a layer (the placeholder `Count` counts as the last).
pub open spec fn layer_index(layer: MapLayers) -> u32 {
    match layer {
        MapLayers::Ground => 0,
        MapLayers::Mask => 1,
        MapLayers::Mask2 => 2,
        MapLayers::Anim1 => 3,
        MapLayers::Anim2 => 4,
        MapLayers::Anim3 => 5,
        MapLayers::Fringe => 6,
        MapLayers::Fringe2 => 7,
        MapLayers::Count => 8,
    }
}

/// Each layer is drawn above every layer below it: of two layers, the
/// higher one has the smaller depth, so Ground lies deepest and Fringe2
/// on top; a layer named by `MapLayers` has the depth of its number.
pub proof fn lemma_depth_order(a: u32, b: u32)
    requires
        a < b < 8,
    ensures
        depth_of_index(a) > depth_of_index(b),
        depth_of_index(0) >= depth_of_index(a) && depth_of_index(b) >= depth_of_index(7),
{
}

/// The named layers, from Ground up to Fringe2, are drawn each above the
/// one before it.
pub proof fn lemma_named_layers_order()
    ensures
        depth_of_index(layer_index(MapLayers::Ground)) > depth_of_index(layer_index(MapLayers::Mask)),
        depth_of_index(layer_index(MapLayers::Mask)) > depth_of_index(layer_index(MapLayers::Mask2)),
        depth_of_index(layer_index(MapLayers::Mask2)) > depth_of_index(layer_index(MapLayers::Anim1)),
        depth_of_index(layer_index(MapLayers::Anim1)) > depth_of_index(layer_index(MapLayers::Anim2)),
        depth_of_index(layer_index(MapLayers::Anim2)) > depth_of_index(layer_index(MapLayers::Anim3)),
        depth_of_index(layer_index(MapLayers::Anim3)) > depth_of_index(layer_index(MapLayers::Fringe)),
        depth_of_index(layer_index(MapLayers::Fringe)) > depth_of_index(layer_index(MapLayers::Fringe2)),
{
}

impl MapLayers {
    /// The depth at which layer number `layer` is drawn; the renderer
    /// takes it as its z coordinate.
    pub fn indexed_layer_depth(layer: u32) -> (z: u32)
        ensures
            z == depth_of_index(layer),
    {
        match layer {
            0 => 10,
            1 => 9,
            2 => 8,
            3 => 7,
            4 => 6,
            5 => 5,
            6 => 3,
            _ => 2,
        }
    }

    /// The depth at which a layer is drawn.
    pub fn layer_depth(layer: MapLayers) -> (z: u32)
        ensures
            z == depth_of_index(layer_index(layer)),
    {
        match layer {
            MapLayers::Ground => 10,
            MapLayers::Mask => 9,
            MapLayers::Mask2 => 8,
            MapLayers::Anim1 => 7,
            MapLayers::Anim2 => 6,
            MapLayers::Anim3 => 5,
            MapLayers::Fringe => 3,
            MapLayers::Fringe2 | MapLayers::Count => 2,
        }
    }
}

/// One drawn tile.
#[derive(Copy, Clone, Debug, PartialEq, Eq, Structural)]
pub struct TileData {
    pub texture_id: u32,
    pub texture_layer: u8,
    pub color: Color,
}

/// The tile that a fresh map holds: no texture, opaque white.
pub open spec fn default_tile() -> TileData {
    TileData { texture_id: 0, texture_layer: 0, color: Color { r: 255, g: 255, b: 255, alpha: 255 } }
}

impl Default for TileData {
    fn default() -> (t: Self)
        ensures
            t == default_tile(),
    {
        Self {
            texture_id: 0,
            texture_layer: 0,
            color: Color::rgba(255, 255, 255, 255),
        }
    }
}

/// The tiles of a fresh map: 8192 default tiles.
pub open spec fn empty_tiles() -> Seq<TileData> {
    Seq::new(8192, |i: int| default_tile())
}

/// The tile shows something: it has a texture or a visible colour.
pub open spec fn shows(t: TileData) -> bool {
    t.texture_id > 0 || t.color.alpha > 0
}

/// The tile has a texture.
pub open spec fn textured(t: TileData) -> bool {
    t.texture_id > 0
}

/// The index of tile (x, y) of layer z.
pub open spec fn tile_index(x: int, y: int, z: int) -> int {
    x + y * 32 + z * 1024
}

/// How many tiles in `s[lo..hi]` have a texture.
pub open spec fn count_textured(s: Seq<TileData>, lo: int, hi: int) -> nat
    decreases hi - lo,
{
    if hi <= lo {
        0
    } else {
        count_textured(s, lo, hi - 1) + if textured(s[hi - 1]) { 1nat } else { 0nat }
    }
}

/// How many tiles of layer `l` have a texture.
pub open spec fn layer_textured_count(tiles: Seq<TileData>, l: int) -> nat {
    count_textured(tiles, l * 1024, l * 1024 + 1024)
}

/// The layer's new count after a tile changes from `cur` to `new`: one
/// less (not below zero) when a textured tile is replaced by one without
/// a texture, else one more (not above the maximum) when a tile that
/// shows something is written, the same otherwise. Only the loss of a
/// texture lowers the count: a textured tile made transparent keeps its
/// place in the count, since a layer counted zero is skipped when drawn
/// and so must hold no textured tile (see `empty_when_uncounted`).
pub open spec fn next_count(count: u16, cur: TileData, new: TileData) -> u16 {
    if textured(cur) && !textured(new) {
        if count > 0 { (count - 1) as u16 } else { 0 }
    } else if shows(new) {
        if count < u16::MAX { (count + 1) as u16 } else { u16::MAX }
    } else {
        count
    }
}

/// A map: its tiles, layer after layer, and for each layer a count that
/// is never below the number of its textured tiles, so that a layer
/// counted zero can be skipped when drawing.
pub struct TileMap {
    pub tiles: Vec<TileData>,
    pub filled_tiles: Vec<u16>,
    pub tilesize: u32,
    pub can_render: bool,
    pub changed: bool,
}

impl TileMap {
    /// Eight layers of 1024 tiles and eight counts.
    pub open spec fn wf(&self) -> bool {
        &&& self.tiles@.len() == 8192
        &&& self.filled_tiles@.len() == 8
    }

    /// Every layer's count is at least its number of textured tiles.
    pub open spec fn filled_bound(&self) -> bool {
        forall|l: int| 0 <= l < 8 ==> layer_textured_count(self.tiles@, l) <= #[trigger] self.filled_tiles@[l]
    }

    /// A layer counted zero holds no textured tile.
    pub open spec fn empty_when_uncounted(&self) -> bool {
        forall|l: int, i: int| #![trigger self.filled_tiles@[l], self.tiles@[i]]
            0 <= l < 8 && self.filled_tiles@[l] == 0 && l * 1024 <= i < l * 1024 + 1024
            ==> self.tiles@[i].texture_id == 0
    }

    /// A map of empty tiles with counts of zero.
    pub fn new(tilesize: u32) -> (m: Self)
        ensures
            m.wf(),
            m.tiles@ == empty_tiles(),
            m.filled_tiles@ == Seq::new(8, |i: int| 0u16),
            m.filled_bound(),
            m.tilesize == tilesize,
            !m.can_render,
            m.changed,
    {
        let mut tiles: Vec<TileData> = Vec::new();
        let mut i: usize = 0;
        while i < 8192
            invariant
                i <= 8192,
                tiles@ == Seq::new(i as nat, |j: int| default_tile()),
            decreases 8192 - i,
        {
            tiles.push(TileData::default());
            i = i + 1;
            assert(tiles@ =~= Seq::new(i as nat, |j: int| default_tile()));
        }
        let mut filled_tiles: Vec<u16> = Vec::new();
        let mut l: usize = 0;
        while l < 8
            invariant
                l <= 8,
                filled_tiles@ == Seq::new(l as nat, |j: int| 0u16),
            decreases 8 - l,
        {
            filled_tiles.push(0);
            l = l + 1;
            assert(filled_tiles@ =~= Seq::new(l as nat, |j: int| 0u16));
        }
        let m = Self {
            tiles,
            filled_tiles,
            tilesize,
            can_render: false,
            changed: true,
        };
        assert forall|l: int| 0 <= l < 8 implies layer_textured_count(m.tiles@, l) <= #[trigger] m.filled_tiles@[l] by {
            lemma_count_none_textured(m.tiles@, l * 1024, l * 1024 + 1024);
        }
        m
    }

    /// The tile at (x, y) of layer z.
    pub fn get_tile(&self, pos: (u32, u32, u32)) -> (t: TileData)
        requires
            self.wf(),
            tile_index(pos.0 as int, pos.1 as int, pos.2 as int) < 8192,
        ensures
            t == self.tiles@[tile_index(pos.0 as int, pos.1 as int, pos.2 as int)],
    {
        self.tiles[(pos.0 + (pos.1 * 32) + (pos.2 * 1024)) as usize]
    }

    /// Writes tile (x, y) of layer z and updates the layer's count; a
    /// position outside the map changes nothing.
    pub fn set_tile(&mut self, pos: (u32, u32, u32), tile: TileData)
        requires
            old(self).wf(),
        ensures
            final(self).wf(),
            final(self).tilesize == old(self).tilesize,
            final(self).can_render == old(self).can_render,
            pos.0 >= 32 || pos.1 >= 32 || pos.2 >= 8 ==> *final(self) == *old(self),
            pos.0 < 32 && pos.1 < 32 && pos.2 < 8 ==> {
                let idx = tile_index(pos.0 as int, pos.1 as int, pos.2 as int);
                &&& final(self).tiles@ == old(self).tiles@.update(idx, tile)
                &&& final(self).filled_tiles@ == old(self).filled_tiles@.update(
                    pos.2 as int,
                    next_count(old(self).filled_tiles@[pos.2 as int], old(self).tiles@[idx], tile),
                )
                &&& final(self).changed
            },
            old(self).filled_bound() ==> final(self).filled_bound() && final(self).empty_when_uncounted(),
    {
        if pos.0 >= 32 || pos.1 >= 32 || pos.2 >= 8 {
            proof {
                if old(self).filled_bound() {
                    lemma_bound_empty(*self);
                }
            }
            return;
        }
        let tilepos = (pos.0 + (pos.1 * 32) + (pos.2 * 1024)) as usize;
        let current_tile = self.tiles[tilepos];
        let layer = pos.2 as usize;
        let count = self.filled_tiles[layer];

        let new_count = if current_tile.texture_id > 0 && tile.texture_id == 0
        {
            count.saturating_sub(1)
        } else if tile.color.a() > 0 || tile.texture_id > 0 {
            count.saturating_add(1)
        } else {
            count
        };
        self.filled_tiles.set(layer, new_count);

        self.tiles.set(tilepos, tile);
        self.changed = true;

        proof {
            let ghost old_tiles = old(self).tiles@;
            let ghost idx = tilepos as int;
            if old(self).filled_bound() {
                assert forall|l: int| 0 <= l < 8 implies layer_textured_count(self.tiles@, l) <= #[trigger] self.filled_tiles@[l] by {
                    assert(layer_textured_count(old_tiles, l) <= old(self).filled_tiles@[l]);
                    lemma_count_update(old_tiles, l * 1024, l * 1024 + 1024, idx, tile);
                    lemma_count_bound(self.tiles@, l * 1024, l * 1024 + 1024);
                }
                lemma_bound_empty(*self);
            }
        }
    }
}

/// Counts that bound the layers leave no textured tile in a layer
/// counted zero.
proof fn lemma_bound_empty(m: TileMap)
    requires
        m.wf(),
        m.filled_bound(),
    ensures
        m.empty_when_uncounted(),
{
    assert forall|l: int, i: int| #![trigger m.filled_tiles@[l], m.tiles@[i]]
        0 <= l < 8 && m.filled_tiles@[l] == 0 && l * 1024 <= i < l * 1024 + 1024
        implies m.tiles@[i].texture_id == 0 by {
        assert(layer_textured_count(m.tiles@, l) <= m.filled_tiles@[l]);
        lemma_count_zero_none(m.tiles@, l * 1024, l * 1024 + 1024, i);
    }
}

/// A map whose tiles are all default ones keeps its counts as bounds.
pub proof fn lemma_empty_map_bound(m: TileMap)
    requires
        m.wf(),
        m.tiles@ == empty_tiles(),
    ensures
        m.filled_bound(),
{
    assert forall|l: int| 0 <= l < 8 implies layer_textured_count(m.tiles@, l) <= #[trigger] m.filled_tiles@[l] by {
        lemma_count_none_textured(m.tiles@, l * 1024, l * 1024 + 1024);
    }
}

proof fn lemma_count_none_textured(s: Seq<TileData>, lo: int, hi: int)
    requires
        forall|i: int| lo <= i < hi ==> !textured(#[trigger] s[i]),
    ensures
        count_textured(s, lo, hi) == 0,
    decreases hi - lo,
{
    if hi > lo {
        lemma_count_none_textured(s, lo, hi - 1);
    }
}

proof fn lemma_count_bound(s: Seq<TileData>, lo: int, hi: int)
    requires
        lo <= hi,
    ensures
        count_textured(s, lo, hi) <= hi - lo,
    decreases hi - lo,
{
    if hi > lo {
        lemma_count_bound(s, lo, hi - 1);
    }
}

proof fn lemma_count_update(s: Seq<TileData>, lo: int, hi: int, k: int, t: TileData)
    requires
        0 <= k < s.len(),
        0 <= lo <= hi <= s.len(),
    ensures
        (k < lo || k >= hi) ==> count_textured(s.update(k, t), lo, hi) == count_textured(s, lo, hi),
        lo <= k < hi ==> count_textured(s.update(k, t), lo, hi) + (if textured(s[k]) { 1int } else { 0int })
            == count_textured(s, lo, hi) + (if textured(t) { 1int } else { 0int }),
    decreases hi - lo,
{
    if hi > lo {
        lemma_count_update(s, lo, hi - 1, k, t);
    }
}

/// A layer whose count is zero holds no textured tile, as long as the
/// counts bound the layers: the renderer may skip it.
pub proof fn lemma_zero_count_layer_is_empty(m: TileMap, l: int)
    requires
        m.wf(),
        m.filled_bound(),
        0 <= l < 8,
        m.filled_tiles@[l] == 0,
    ensures
        forall|i: int| l * 1024 <= i < l * 1024 + 1024 ==> (#[trigger] m.tiles@[i]).texture_id == 0,
{
    assert(layer_textured_count(m.tiles@, l) == 0);
    assert forall|i: int| l * 1024 <= i < l * 1024 + 1024 implies (#[trigger] m.tiles@[i]).texture_id == 0 by {
        lemma_count_zero_none(m.tiles@, l * 1024, l * 1024 + 1024, i);
    }
}

proof fn lemma_count_zero_none(s: Seq<TileData>, lo: int, hi: int, i: int)
    requires
        count_textured(s, lo, hi) == 0,
        lo <= i < hi,
    ensures
        !textured(s[i]),
    decreases hi - lo,
{
    if i < hi - 1 {
        lemma_count_zero_none(s, lo, hi - 1, i);
    }
}

/// A tile read back is the tile last written there: after `m1` is `m0`
/// with tile `tile` written at `pos` of the map (as `set_tile` leaves
/// it), reading `pos` gives `tile` and reading any other position of the
/// map gives what `m0` held there.
pub proof fn lemma_read_after_write(m0: TileMap, m1: TileMap, pos: (u32, u32, u32), tile: TileData, other: (u32, u32, u32))
    requires
        m0.wf(),
        pos.0 < 32 && pos.1 < 32 && pos.2 < 8,
        m1.tiles@ == m0.tiles@.update(tile_index(pos.0 as int, pos.1 as int, pos.2 as int), tile),
        other.0 < 32 && other.1 < 32 && other.2 < 8,
    ensures
        m1.tiles@[tile_index(pos.0 as int, pos.1 as int, pos.2 as int)] == tile,
        other != pos ==> m1.tiles@[tile_index(other.0 as int, other.1 as int, other.2 as int)]
            == m0.tiles@[tile_index(other.0 as int, other.1 as int, other.2 as int)],
{
    if other != pos {
        assert(tile_index(other.0 as int, other.1 as int, other.2 as int) != tile_index(pos.0 as int, pos.1 as int, pos.2 as int));
    }
}

} // verus!
