//! The editor's loaded images: the interface textures, the tile sheets,
//! and where each tile of the sheets lies, by its atlas id, for the
//! eyedropper.

use vstd::prelude::*;
use indexmap::IndexMap;
use crate::editor_data::{key_in, unique_keys, inserted, key_place, lemma_inserted_unique, lemma_unique_value};
use crate::texture::{Tile, TileSheet};
use crate::tileset::sheet_fits;

verus! {

/// How many tile sheets the editor loads.
pub const MAX_TILESHEET: u32 = 4;

/// The height of a tile sheet in tiles.
pub const MAX_TILE_Y: u32 = 20;

/// An interface image: its file name and where the atlas holds it.
pub struct TextureData {
    pub name: String,
    pub allocation: usize,
}

/// A tile sheet: its file name and its tiles.
pub struct TilesheetData {
    pub name: String,
    pub tile: TileSheet,
}

/// The entries of the map of tile locations in their order: an atlas id
/// with the tile's x and y in its sheet (in pixels) and the sheet's
/// number.
pub uninterp spec fn location_entries(m: IndexMap<usize, (u32, u32, u32)>) -> Seq<(usize, (u32, u32, u32))>;

/// `IndexMap::new`: no locations.
#[verifier::external_body]
fn new_locations() -> (m: IndexMap<usize, (u32, u32, u32)>)
    ensures
        location_entries(m) == Seq::<(usize, (u32, u32, u32))>::empty(),
{
    IndexMap::new()
}

/// `IndexMap::insert` on the locations: a present id keeps its place and
/// takes the location, a new id goes last.
#[verifier::external_body]
fn locations_insert(m: &mut IndexMap<usize, (u32, u32, u32)>, key: usize, value: (u32, u32, u32))
    ensures
        location_entries(*final(m)) == inserted(location_entries(*old(m)), key, value),
{
    m.insert(key, value);
}

/// `IndexMap::get` on the locations, copied.
#[verifier::external_body]
fn locations_get(m: &IndexMap<usize, (u32, u32, u32)>, key: usize) -> (r: Option<(u32, u32, u32)>)
    ensures
        r is Some <==> key_in(location_entries(*m), key),
        r matches Some(v) ==> exists|i: int| 0 <= i < location_entries(*m).len() && location_entries(*m)[i] == (key, v),
{
    m.get(&key).copied()
}

/// The locations after the tiles of sheet `index` are recorded in
/// order: each tile with an atlas id records its position under it.
pub open spec fn with_tiles(
    entries: Seq<(usize, (u32, u32, u32))>,
    tiles: Seq<Tile>,
    index: u32,
) -> Seq<(usize, (u32, u32, u32))>
    decreases tiles.len(),
{
    if tiles.len() == 0 {
        entries
    } else {
        let before = with_tiles(entries, tiles.drop_last(), index);
        let t = tiles.last();
        if t.tex_id > 0 { inserted(before, t.tex_id, (t.x, t.y, index)) } else { before }
    }
}

proof fn lemma_with_tiles_unique(entries: Seq<(usize, (u32, u32, u32))>, tiles: Seq<Tile>, index: u32)
    requires
        unique_keys(entries),
    ensures
        unique_keys(with_tiles(entries, tiles, index)),
    decreases tiles.len(),
{
    if tiles.len() > 0 {
        lemma_with_tiles_unique(entries, tiles.drop_last(), index);
        let t = tiles.last();
        lemma_inserted_unique(with_tiles(entries, tiles.drop_last(), index), t.tex_id, (t.x, t.y, index));
    }
}

/// Records where each tile of sheet number `index` lies, under its atlas
/// id; tiles without an id are left out.
pub fn add_tile_locations(tile_location: &mut IndexMap<usize, (u32, u32, u32)>, sheet: &TileSheet, index: u32)
    requires
        unique_keys(location_entries(*old(tile_location))),
    ensures
        location_entries(*final(tile_location)) == with_tiles(location_entries(*old(tile_location)), sheet.tiles@, index),
        unique_keys(location_entries(*final(tile_location))),
{
    let ghost start = location_entries(*tile_location);
    let mut i: usize = 0;
    while i < sheet.tiles.len()
        invariant
            i <= sheet.tiles@.len(),
            location_entries(*tile_location) == with_tiles(start, sheet.tiles@.take(i as int), index),
        decreases sheet.tiles@.len() - i,
    {
        let tile = sheet.tiles[i];
        proof {
            assert(sheet.tiles@.take(i as int + 1).drop_last() =~= sheet.tiles@.take(i as int));
            assert(sheet.tiles@.take(i as int + 1).last() == tile);
        }
        if tile.tex_id > 0 {
            locations_insert(tile_location, tile.tex_id, (tile.x, tile.y, index));
        }
        i = i + 1;
    }
    proof {
        assert(sheet.tiles@.take(sheet.tiles@.len() as int) =~= sheet.tiles@);
        lemma_with_tiles_unique(start, sheet.tiles@, index);
    }
}

/// Where a tile with atlas id `id` lies: its sheet number and its
/// column and row in the sheet, rows counted from the sheet's top, for
/// tiles of `tilesize` pixels.
pub fn eyedrop_location(
    locations: &IndexMap<usize, (u32, u32, u32)>,
    id: usize,
    tilesize: u32,
) -> (r: Option<(u32, u32, u32)>)
    requires
        tilesize > 0,
        unique_keys(location_entries(*locations)),
        forall|i: int| 0 <= i < location_entries(*locations).len()
            ==> (#[trigger] location_entries(*locations)[i]).1.1 / tilesize < MAX_TILE_Y,
    ensures
        r is Some <==> key_in(location_entries(*locations), id),
        r matches Some(v) ==> {
            let loc = location_entries(*locations)[key_place(location_entries(*locations), id)].1;
            v == (loc.2, loc.0 / tilesize, (MAX_TILE_Y - loc.1 / tilesize - 1) as u32)
        },
{
    match locations_get(locations, id) {
        Some((x, y, sheet)) => {
            proof {
                let entries = location_entries(*locations);
                let i = choose|i: int| 0 <= i < entries.len() && entries[i] == (id, (x, y, sheet));
                lemma_unique_value(entries, id, i);
                assert(entries[i].1.1 / tilesize < MAX_TILE_Y);
            }
            Some((sheet, x / tilesize, MAX_TILE_Y - (y / tilesize) - 1))
        },
        None => None,
    }
}

/// The locations after the tiles of the first `n` sheets are recorded,
/// sheet after sheet.
pub open spec fn sheets_located(sheets: Seq<TilesheetData>, n: nat) -> Seq<(usize, (u32, u32, u32))>
    decreases n,
{
    if n == 0 {
        Seq::empty()
    } else {
        with_tiles(sheets_located(sheets, (n - 1) as nat), sheets[n - 1].tile.tiles@, (n - 1) as u32)
    }
}

/// Where each tile of the sheets lies, under its atlas id: the tiles of
/// sheet after sheet are recorded in order (see `add_tile_locations`),
/// so an id met again takes the later location.
pub fn tile_locations(sheets: &Vec<TilesheetData>) -> (m: IndexMap<usize, (u32, u32, u32)>)
    requires
        sheets@.len() <= u32::MAX,
    ensures
        location_entries(m) == sheets_located(sheets@, sheets@.len()),
        unique_keys(location_entries(m)),
{
    let mut m = new_locations();
    let mut index: usize = 0;
    while index < sheets.len()
        invariant
            index <= sheets@.len(),
            sheets@.len() <= u32::MAX,
            location_entries(m) == sheets_located(sheets@, index as nat),
            unique_keys(location_entries(m)),
        decreases sheets@.len() - index,
    {
        add_tile_locations(&mut m, &sheets[index].tile, index as u32);
        index = index + 1;
    }
    m
}

/// The value kept under a key.
pub open spec fn value_at<K, V>(entries: Seq<(K, V)>, key: K) -> V {
    entries[key_place(entries, key)].1
}

/// Setting a key's value: the key is then present with that value, and
/// every other key keeps its presence and its value.
proof fn lemma_inserted_value<K, V>(entries: Seq<(K, V)>, key: K, v: V)
    requires
        unique_keys(entries),
    ensures
        key_in(inserted(entries, key, v), key),
        value_at(inserted(entries, key, v), key) == v,
        forall|k: K| k != key ==> (#[trigger] key_in(inserted(entries, key, v), k) == key_in(entries, k)),
        forall|k: K| k != key && key_in(entries, k) ==> #[trigger] value_at(inserted(entries, key, v), k) == value_at(entries, k),
{
    let r = inserted(entries, key, v);
    lemma_inserted_unique(entries, key, v);
    if key_in(entries, key) {
        let p = key_place(entries, key);
        assert(r[p].0 == key);
        lemma_unique_value(r, key, p);
        assert forall|k: K| k != key implies (#[trigger] key_in(r, k) == key_in(entries, k)) by {
            if key_in(r, k) {
                let i = choose|i: int| 0 <= i < r.len() && #[trigger] r[i].0 == k;
                assert(i != p);
                assert(entries[i].0 == k);
            }
            if key_in(entries, k) {
                let i = choose|i: int| 0 <= i < entries.len() && #[trigger] entries[i].0 == k;
                assert(r[i].0 == k);
            }
        }
        assert forall|k: K| k != key && key_in(entries, k) implies #[trigger] value_at(r, k) == value_at(entries, k) by {
            let q = key_place(entries, k);
            assert(q != p);
            assert(r[q] == entries[q]);
            lemma_unique_value(r, k, q);
        }
    } else {
        let n = entries.len() as int;
        assert(r[n].0 == key);
        lemma_unique_value(r, key, n);
        assert forall|k: K| k != key implies (#[trigger] key_in(r, k) == key_in(entries, k)) by {
            if key_in(r, k) {
                let i = choose|i: int| 0 <= i < r.len() && #[trigger] r[i].0 == k;
                assert(i != n);
                assert(entries[i].0 == k);
            }
            if key_in(entries, k) {
                let i = choose|i: int| 0 <= i < entries.len() && #[trigger] entries[i].0 == k;
                assert(r[i].0 == k);
            }
        }
        assert forall|k: K| k != key && key_in(entries, k) implies #[trigger] value_at(r, k) == value_at(entries, k) by {
            let q = key_place(entries, k);
            assert(r[q] == entries[q]);
            lemma_unique_value(r, k, q);
        }
    }
}

/// Recording tiles none of which has atlas id `id` leaves that id's
/// location as it was.
proof fn lemma_with_tiles_other(entries: Seq<(usize, (u32, u32, u32))>, tiles: Seq<Tile>, index: u32, id: usize)
    requires
        unique_keys(entries),
        forall|j: int| 0 <= j < tiles.len() ==> (#[trigger] tiles[j]).tex_id != id,
    ensures
        key_in(with_tiles(entries, tiles, index), id) == key_in(entries, id),
        key_in(entries, id) ==> value_at(with_tiles(entries, tiles, index), id) == value_at(entries, id),
    decreases tiles.len(),
{
    if tiles.len() > 0 {
        let front = tiles.drop_last();
        assert forall|j: int| 0 <= j < front.len() implies (#[trigger] front[j]).tex_id != id by {
            assert(front[j] == tiles[j]);
        }
        lemma_with_tiles_other(entries, front, index, id);
        lemma_with_tiles_unique(entries, front, index);
        let t = tiles.last();
        assert(t == tiles[tiles.len() - 1]);
        if t.tex_id > 0 {
            lemma_inserted_value(with_tiles(entries, front, index), t.tex_id, (t.x, t.y, index));
        }
    }
}

/// Recording tiles of sheet `index` where tile `k` is the last with its
/// atlas id leaves that tile's location under the id.
proof fn lemma_with_tiles_last(entries: Seq<(usize, (u32, u32, u32))>, tiles: Seq<Tile>, index: u32, k: int)
    requires
        unique_keys(entries),
        0 <= k < tiles.len(),
        tiles[k].tex_id > 0,
        forall|j: int| k < j < tiles.len() ==> (#[trigger] tiles[j]).tex_id != tiles[k].tex_id,
    ensures
        key_in(with_tiles(entries, tiles, index), tiles[k].tex_id),
        value_at(with_tiles(entries, tiles, index), tiles[k].tex_id) == (tiles[k].x, tiles[k].y, index),
    decreases tiles.len(),
{
    let front = tiles.drop_last();
    let t = tiles.last();
    assert(t == tiles[tiles.len() - 1]);
    lemma_with_tiles_unique(entries, front, index);
    if k == tiles.len() - 1 {
        lemma_inserted_value(with_tiles(entries, front, index), t.tex_id, (t.x, t.y, index));
    } else {
        assert(front[k] == tiles[k]);
        assert forall|j: int| k < j < front.len() implies (#[trigger] front[j]).tex_id != front[k].tex_id by {
            assert(front[j] == tiles[j]);
        }
        lemma_with_tiles_last(entries, front, index, k);
        if t.tex_id > 0 {
            lemma_inserted_value(with_tiles(entries, front, index), t.tex_id, (t.x, t.y, index));
        }
    }
}

/// The locations recorded from any number of sheets have unique ids.
pub proof fn lemma_sheets_located_unique(sheets: Seq<TilesheetData>, n: nat)
    ensures
        unique_keys(sheets_located(sheets, n)),
    decreases n,
{
    if n > 0 {
        lemma_sheets_located_unique(sheets, (n - 1) as nat);
        lemma_with_tiles_unique(sheets_located(sheets, (n - 1) as nat), sheets[n - 1].tile.tiles@, (n - 1) as u32);
    }
}

/// When tile `k` of sheet `s` is the last tile of the sheets with its
/// atlas id, the locations recorded from the first `n` sheets (`n` past
/// `s`) keep that tile's position and sheet under the id.
pub proof fn lemma_sheets_located_last(sheets: Seq<TilesheetData>, n: nat, s: int, k: int)
    requires
        0 <= s < n <= sheets.len(),
        n <= u32::MAX + 1,
        0 <= k < sheets[s].tile.tiles@.len(),
        sheets[s].tile.tiles@[k].tex_id > 0,
        forall|j: int| k < j < sheets[s].tile.tiles@.len()
            ==> (#[trigger] sheets[s].tile.tiles@[j]).tex_id != sheets[s].tile.tiles@[k].tex_id,
        forall|s2: int, j: int| s < s2 < sheets.len() && 0 <= j < sheets[s2].tile.tiles@.len()
            ==> (#[trigger] sheets[s2].tile.tiles@[j]).tex_id != sheets[s].tile.tiles@[k].tex_id,
    ensures
        key_in(sheets_located(sheets, n), sheets[s].tile.tiles@[k].tex_id),
        value_at(sheets_located(sheets, n), sheets[s].tile.tiles@[k].tex_id)
            == (sheets[s].tile.tiles@[k].x, sheets[s].tile.tiles@[k].y, s as u32),
    decreases n,
{
    let t = sheets[s].tile.tiles@[k];
    let prev = (n - 1) as nat;
    lemma_sheets_located_unique(sheets, prev);
    if prev == s {
        lemma_with_tiles_last(sheets_located(sheets, prev), sheets[s].tile.tiles@, s as u32, k);
    } else {
        lemma_sheets_located_last(sheets, prev, s, k);
        let tiles = sheets[prev as int].tile.tiles@;
        assert forall|j: int| 0 <= j < tiles.len() implies (#[trigger] tiles[j]).tex_id != t.tex_id by {
            assert(tiles[j] == sheets[prev as int].tile.tiles@[j]);
        }
        lemma_with_tiles_other(sheets_located(sheets, prev), tiles, prev as u32, t.tex_id);
    }
}

/// Every location lies on one of the first `n` sheets, in a row of the
/// tileset panel for tiles of `tilesize` pixels.
pub open spec fn locations_on_sheets(entries: Seq<(usize, (u32, u32, u32))>, n: nat, tilesize: u32) -> bool {
    forall|i: int| 0 <= i < entries.len() ==> {
        let loc = (#[trigger] entries[i]).1;
        &&& loc.2 < n
        &&& loc.1 / tilesize < MAX_TILE_Y
    }
}

proof fn lemma_with_tiles_on_sheets(
    entries: Seq<(usize, (u32, u32, u32))>,
    tiles: Seq<Tile>,
    index: u32,
    n: nat,
    tilesize: u32,
)
    requires
        locations_on_sheets(entries, n, tilesize),
        index < n,
        sheet_fits(tiles, tilesize),
    ensures
        locations_on_sheets(with_tiles(entries, tiles, index), n, tilesize),
    decreases tiles.len(),
{
    if tiles.len() > 0 {
        let rest = tiles.drop_last();
        assert forall|i: int| 0 <= i < rest.len() implies (#[trigger] rest[i]).y / tilesize < MAX_TILE_Y by {
            assert(rest[i] == tiles[i]);
        }
        lemma_with_tiles_on_sheets(entries, rest, index, n, tilesize);
        let before = with_tiles(entries, rest, index);
        let t = tiles.last();
        assert(t == tiles[tiles.len() - 1]);
        if t.tex_id > 0 {
            let after = inserted(before, t.tex_id, (t.x, t.y, index));
            assert forall|i: int| 0 <= i < after.len() implies {
                let loc = (#[trigger] after[i]).1;
                &&& loc.2 < n
                &&& loc.1 / tilesize < MAX_TILE_Y
            } by {
                if key_in(before, t.tex_id) {
                    let p = key_place(before, t.tex_id);
                    if i != p {
                        assert(after[i] == before[i]);
                    }
                } else if i < before.len() {
                    assert(after[i] == before[i]);
                }
            }
        }
    }
}

/// The locations of a set of sheets that fit the tileset panel lie on
/// those sheets and on the panel: what the eyedropper needs of them.
pub proof fn lemma_locations_on_sheets(sheets: Seq<TilesheetData>, n: nat, tilesize: u32)
    requires
        n <= sheets.len(),
        n <= u32::MAX + 1,
        forall|k: int| 0 <= k < sheets.len() ==> sheet_fits(#[trigger] sheets[k].tile.tiles@, tilesize),
    ensures
        locations_on_sheets(sheets_located(sheets, n), n, tilesize),
    decreases n,
{
    if n > 0 {
        let prev = (n - 1) as nat;
        lemma_locations_on_sheets(sheets, prev, tilesize);
        let entries = sheets_located(sheets, prev);
        assert(locations_on_sheets(entries, n, tilesize));
        lemma_with_tiles_on_sheets(entries, sheets[prev as int].tile.tiles@, prev as u32, n, tilesize);
    }
}

} // verus!
