//! The maps the editor has loaded, keyed `x_y_group`, with a flag per
//! map telling whether it changed since it was loaded or saved, and the
//! copying of tiles between stored maps and the maps in view.

use vstd::prelude::*;
use indexmap::IndexMap;
use crate::color::Color;
use crate::map_data::{Direction, MapData, Tile, direction_step, direction_of_link, opposite, map_key};
use crate::map_view::MapView;
use crate::map_view::tiles::cell;
use crate::region::in_grid;
use crate::text::{triple_key, signed_decimal, push_signed_decimal};
use crate::tile_map::{TileMap, TileData, tile_index, default_tile, empty_tiles};

verus! {

/// The entries of the map of loaded maps in their order: each key's
/// characters with its map.
pub uninterp spec fn stored_maps(m: IndexMap<String, MapData>) -> Seq<(Seq<char>, MapData)>;

/// The entries of the map of change flags in their order.
pub uninterp spec fn change_flags(m: IndexMap<String, bool>) -> Seq<(Seq<char>, bool)>;

/// Some entry has the key.
pub open spec fn key_in<K, V>(entries: Seq<(K, V)>, key: K) -> bool {
    exists|i: int| 0 <= i < entries.len() && #[trigger] entries[i].0 == key
}

/// No two entries share a key.
pub open spec fn unique_keys<K, V>(entries: Seq<(K, V)>) -> bool {
    forall|i: int, j: int|
        0 <= i < entries.len() && 0 <= j < entries.len() && i != j ==> #[trigger] entries[i].0 != #[trigger] entries[j].0
}

/// The place of the key's entry.
pub open spec fn key_place<K, V>(entries: Seq<(K, V)>, key: K) -> int {
    choose|i: int| 0 <= i < entries.len() && #[trigger] entries[i].0 == key
}

/// The entries after the key's value is set: a present key keeps its
/// place and takes the value, a new key goes last.
pub open spec fn inserted<K, V>(entries: Seq<(K, V)>, key: K, v: V) -> Seq<(K, V)> {
    if key_in(entries, key) {
        entries.update(key_place(entries, key), (key, v))
    } else {
        entries.push((key, v))
    }
}

/// The entries after the key's entry is removed by moving the last
/// entry into its place.
pub open spec fn swap_removed<K, V>(entries: Seq<(K, V)>, key: K) -> Seq<(K, V)> {
    if key_in(entries, key) {
        entries.update(key_place(entries, key), entries.last()).drop_last()
    } else {
        entries
    }
}

/// `IndexMap::new`: no loaded maps.
#[verifier::external_body]
fn new_stored() -> (m: IndexMap<String, MapData>)
    ensures
        stored_maps(m) == Seq::<(Seq<char>, MapData)>::empty(),
{
    IndexMap::new()
}

/// `IndexMap::contains_key` on the loaded maps.
#[verifier::external_body]
fn stored_contains(m: &IndexMap<String, MapData>, key: &String) -> (b: bool)
    ensures
        b == key_in(stored_maps(*m), key@),
{
    m.contains_key(key)
}

/// `IndexMap::get` on the loaded maps: the map kept under the key.
#[verifier::external_body]
fn stored_get<'a>(m: &'a IndexMap<String, MapData>, key: &String) -> (r: Option<&'a MapData>)
    ensures
        r is Some <==> key_in(stored_maps(*m), key@),
        r matches Some(v) ==> exists|i: int| 0 <= i < stored_maps(*m).len() && stored_maps(*m)[i] == (key@, *v),
{
    m.get(key)
}

/// `IndexMap::insert` on the loaded maps: a present key keeps its place
/// and takes the map, a new key goes last.
#[verifier::external_body]
fn stored_insert(m: &mut IndexMap<String, MapData>, key: String, value: MapData)
    ensures
        stored_maps(*final(m)) == inserted(stored_maps(*old(m)), key@, value),
{
    m.insert(key, value);
}

/// `IndexMap::remove` (a swap remove) on the loaded maps.
#[verifier::external_body]
fn stored_remove(m: &mut IndexMap<String, MapData>, key: &String)
    ensures
        stored_maps(*final(m)) == swap_removed(stored_maps(*old(m)), key@),
{
    m.swap_remove(key);
}

/// `IndexMap::new`: no change flags.
#[verifier::external_body]
fn new_flags() -> (m: IndexMap<String, bool>)
    ensures
        change_flags(m) == Seq::<(Seq<char>, bool)>::empty(),
{
    IndexMap::new()
}

/// `IndexMap::get` on the change flags: the flag kept under the key.
#[verifier::external_body]
fn flag_get(m: &IndexMap<String, bool>, key: &String) -> (r: Option<bool>)
    ensures
        r is Some <==> key_in(change_flags(*m), key@),
        r matches Some(v) ==> exists|i: int| 0 <= i < change_flags(*m).len() && change_flags(*m)[i] == (key@, v),
{
    m.get(key).copied()
}

/// `IndexMap::insert` on the change flags.
#[verifier::external_body]
fn flag_insert(m: &mut IndexMap<String, bool>, key: String, value: bool)
    ensures
        change_flags(*final(m)) == inserted(change_flags(*old(m)), key@, value),
{
    m.insert(key, value);
}

/// `IndexMap::remove` (a swap remove) on the change flags.
#[verifier::external_body]
fn flag_remove(m: &mut IndexMap<String, bool>, key: &String)
    ensures
        change_flags(*final(m)) == swap_removed(change_flags(*old(m)), key@),
{
    m.swap_remove(key);
}

/// `IndexMap::len` on the change flags.
#[verifier::external_body]
fn flags_len(m: &IndexMap<String, bool>) -> (n: usize)
    ensures
        n == change_flags(*m).len(),
{
    m.len()
}

/// `IndexMap::get_index` on the change flags: the entry at a place in the
/// order, its key cloned.
#[verifier::external_body]
fn flag_at(m: &IndexMap<String, bool>, index: usize) -> (entry: (String, bool))
    requires
        index < change_flags(*m).len(),
    ensures
        entry.0@ == change_flags(*m)[index as int].0,
        entry.1 == change_flags(*m)[index as int].1,
{
    let (k, v) = m.get_index(index).unwrap();
    (k.clone(), *v)
}

/// The keys of the entries flagged true, in their order.
pub open spec fn flagged_keys(entries: Seq<(Seq<char>, bool)>) -> Seq<Seq<char>>
    decreases entries.len(),
{
    if entries.len() == 0 {
        Seq::empty()
    } else {
        let before = flagged_keys(entries.drop_last());
        if entries.last().1 { before.push(entries.last().0) } else { before }
    }
}

/// The keys of a map of flags whose flag is set, in the map's order.
pub fn flagged_list(m: &IndexMap<String, bool>) -> (keys: Vec<String>)
    ensures
        keys@.len() == flagged_keys(change_flags(*m)).len(),
        forall|i: int| 0 <= i < keys@.len() ==> #[trigger] keys@[i]@ == flagged_keys(change_flags(*m))[i],
{
    let ghost flags = change_flags(*m);
    let mut keys: Vec<String> = Vec::new();
    let n = flags_len(m);
    let mut i: usize = 0;
    while i < n
        invariant
            n == flags.len(),
            flags == change_flags(*m),
            i <= n,
            keys@.len() == flagged_keys(flags.take(i as int)).len(),
            forall|j: int| 0 <= j < keys@.len() ==> #[trigger] keys@[j]@ == flagged_keys(flags.take(i as int))[j],
        decreases n - i,
    {
        let (key, changed) = flag_at(m, i);
        proof {
            assert(flags.take(i as int + 1).drop_last() =~= flags.take(i as int));
            assert(flags.take(i as int + 1).last() == flags[i as int]);
        }
        if changed {
            keys.push(key);
        }
        i = i + 1;
    }
    proof {
        assert(flags.take(n as int) =~= flags);
    }
    keys
}

pub proof fn lemma_unique_value<K, V>(entries: Seq<(K, V)>, key: K, i: int)
    requires
        unique_keys(entries),
        0 <= i < entries.len(),
        entries[i].0 == key,
    ensures
        key_in(entries, key),
        key_place(entries, key) == i,
{
    let k = key_place(entries, key);
    assert(entries[i].0 == key);
}

pub proof fn lemma_inserted_unique<K, V>(entries: Seq<(K, V)>, key: K, v: V)
    requires
        unique_keys(entries),
    ensures
        unique_keys(inserted(entries, key, v)),
        key_in(inserted(entries, key, v), key),
        forall|k: K| key_in(entries, k) ==> #[trigger] key_in(inserted(entries, key, v), k),
{
    let r = inserted(entries, key, v);
    if key_in(entries, key) {
        let p = key_place(entries, key);
        assert(r[p].0 == key);
        assert forall|k: K| key_in(entries, k) implies #[trigger] key_in(r, k) by {
            let i = choose|i: int| 0 <= i < entries.len() && #[trigger] entries[i].0 == k;
            assert(r[i].0 == k);
        }
    } else {
        assert(r[entries.len() as int].0 == key);
        assert forall|k: K| key_in(entries, k) implies #[trigger] key_in(r, k) by {
            let i = choose|i: int| 0 <= i < entries.len() && #[trigger] entries[i].0 == k;
            assert(r[i].0 == k);
        }
    }
}

pub proof fn lemma_swap_removed_unique<K, V>(entries: Seq<(K, V)>, key: K)
    requires
        unique_keys(entries),
    ensures
        unique_keys(swap_removed(entries, key)),
        !key_in(swap_removed(entries, key), key),
{
    if key_in(entries, key) {
        let p = key_place(entries, key);
        let r = swap_removed(entries, key);
        let last = entries.len() - 1;
        assert(entries[last] == entries.last());
        assert forall|i: int| 0 <= i < r.len() implies #[trigger] r[i].0 != key by {
            if i == p {
                assert(r[i] == entries[last]);
                if p != last {
                    assert(entries[last].0 != entries[p].0);
                }
            } else {
                assert(r[i] == entries[i]);
            }
        }
        assert forall|i: int, j: int| 0 <= i < r.len() && 0 <= j < r.len() && i != j
            implies #[trigger] r[i].0 != #[trigger] r[j].0 by {
            let ei = if i == p { last } else { i };
            let ej = if j == p { last } else { j };
            assert(r[i] == entries[ei]);
            assert(r[j] == entries[ej]);
        }
    }
}

/// A stored map has eight layers of 1024 tile ids.
pub open spec fn map_shaped(m: MapData) -> bool {
    &&& m.tile@.len() == 8
    &&& forall|l: int| 0 <= l < 8 ==> (#[trigger] m.tile@[l]).id@.len() == 1024
}

/// The tile a stored texture id is shown as: that texture in opaque
/// white.
pub open spec fn stored_tile(id: u32) -> TileData {
    TileData { texture_id: id, texture_layer: 0, color: Color { r: 255, g: 255, b: 255, alpha: 255 } }
}

/// The tiles shown from a stored map: at each position (x, y) of a
/// layer with x below `size.0` and y below `size.1`, the stored id of
/// position (start.0 + x, start.1 + y) when it is not zero; the default
/// tile everywhere else.
pub open spec fn shown_from(tiles: Seq<TileData>, data: MapData, start: (u32, u32), size: (u32, u32)) -> bool {
    &&& tiles.len() == 8192
    &&& forall|z: int, p: (int, int)| 0 <= z < 8 && in_grid(p) ==> #[trigger] cell(tiles, z, p) == ({
        let id = data.tile@[z].id@[(start.0 + p.0) + (start.1 + p.1) * 32];
        if p.0 < size.0 && p.1 < size.1 && id > 0 { stored_tile(id) } else { default_tile() }
    })
}

/// The stored form of a map's tiles: layer after layer, the texture id
/// of each tile.
pub open spec fn stored_from(m: MapData, tiles: Seq<TileData>) -> bool {
    &&& map_shaped(m)
    &&& forall|l: int, i: int| 0 <= l < 8 && 0 <= i < 1024 ==> #[trigger] m.tile@[l].id@[i] == tiles[l * 1024 + i].texture_id
}

impl MapData {
    /// The stored form of a map's tiles.
    pub fn from_tiles(map: &TileMap) -> (m: MapData)
        requires
            map.wf(),
        ensures
            stored_from(m, map.tiles@),
    {
        let mut tile: Vec<Tile> = Vec::new();
        let mut layer: usize = 0;
        while layer < 8
            invariant
                map.wf(),
                layer <= 8,
                tile@.len() == layer,
                forall|l: int| 0 <= l < layer ==> (#[trigger] tile@[l]).id@.len() == 1024,
                forall|l: int, i: int| 0 <= l < layer && 0 <= i < 1024 ==> #[trigger] tile@[l].id@[i] == map.tiles@[l * 1024 + i].texture_id,
            decreases 8 - layer,
        {
            let mut id: Vec<u32> = Vec::new();
            let mut i: usize = 0;
            while i < 1024
                invariant
                    map.wf(),
                    layer < 8,
                    i <= 1024,
                    id@.len() == i,
                    forall|j: int| 0 <= j < i ==> #[trigger] id@[j] == map.tiles@[layer * 1024 + j].texture_id,
                decreases 1024 - i,
            {
                id.push(map.tiles[layer * 1024 + i].texture_id);
                i = i + 1;
            }
            tile.push(Tile { id });
            layer = layer + 1;
        }
        MapData { tile }
    }
}

/// Where the tiles of linked map number `maplink` come from: the offset
/// of its map from the current one, the corner of the strip it shows
/// and the strip's size (0 top left, 1 top, 2 top right, 3 left,
/// 4 right, 5 bottom left, 6 bottom, 7 bottom right).
pub open spec fn link_source(maplink: usize) -> ((int, int), (u32, u32), (u32, u32)) {
    if maplink == 1 {
        ((0, 1), (0, 0), (32, 2))
    } else if maplink == 2 {
        ((1, 1), (0, 0), (2, 2))
    } else if maplink == 3 {
        ((-1, 0), (30, 0), (2, 32))
    } else if maplink == 4 {
        ((1, 0), (0, 0), (2, 32))
    } else if maplink == 5 {
        ((-1, -1), (30, 30), (2, 2))
    } else if maplink == 6 {
        ((0, -1), (0, 30), (32, 2))
    } else if maplink == 7 {
        ((1, -1), (0, 30), (2, 2))
    } else {
        ((-1, 1), (30, 0), (2, 2))
    }
}

/// The loaded maps, the position of the current one and which of them
/// changed.
pub struct EditorData {
    pub x: i32,
    pub y: i32,
    pub group: i32,
    pub current_index: String,
    pub maps: IndexMap<String, MapData>,
    pub did_map_change: IndexMap<String, bool>,
}

/// The editor after the tiles `tiles` are copied into the loaded map
/// kept under `old_map_key`, or the current key without one (see
/// `EditorData::save_map_data`); `should_write` tells whether the current
/// map must now be written to its file.
pub open spec fn map_saved(before: EditorData, after: EditorData, tiles: Seq<TileData>, old_map_key: Option<String>,
    should_write: bool) -> bool {
    let key = match old_map_key { Some(k) => k@, None => before.current_index@ };
    &&& should_write == (old_map_key is None && key_in(stored_maps(before.maps), key))
    &&& key_in(stored_maps(before.maps), key) ==> exists|m: MapData| #[trigger] stored_from(m, tiles)
        && stored_maps(after.maps) == inserted(stored_maps(before.maps), key, m)
    &&& !key_in(stored_maps(before.maps), key) ==> after.maps == before.maps
    &&& after.did_map_change == before.did_map_change
    &&& after.x == before.x
    &&& after.y == before.y
    &&& after.group == before.group
    &&& after.current_index == before.current_index
}

impl EditorData {
    /// Keys are unique in both maps and every loaded map has eight layers
    /// of 1024 tiles.
    pub open spec fn wf(&self) -> bool {
        &&& unique_keys(stored_maps(self.maps))
        &&& unique_keys(change_flags(self.did_map_change))
        &&& forall|i: int| 0 <= i < stored_maps(self.maps).len() ==> map_shaped(#[trigger] stored_maps(self.maps)[i].1)
    }

    /// The editor at map (0, 0) of group 0, with that map loaded and
    /// unchanged.
    pub fn new(first_map: MapData) -> (e: Self)
        requires
            map_shaped(first_map),
        ensures
            e.wf(),
            e.x == 0 && e.y == 0 && e.group == 0,
            e.current_index@ == triple_key(0, 0, 0),
            stored_maps(e.maps) == seq![(triple_key(0, 0, 0), first_map)],
            change_flags(e.did_map_change) == seq![(triple_key(0, 0, 0), false)],
    {
        let mut maps = new_stored();
        let mut did_map_change = new_flags();
        let current_index = map_key(0, 0, 0);
        stored_insert(&mut maps, map_key(0, 0, 0), first_map);
        flag_insert(&mut did_map_change, map_key(0, 0, 0), false);
        proof {
            assert(!key_in(Seq::<(Seq<char>, MapData)>::empty(), triple_key(0, 0, 0)));
            assert(!key_in(Seq::<(Seq<char>, bool)>::empty(), triple_key(0, 0, 0)));
            assert(stored_maps(maps) =~= seq![(triple_key(0, 0, 0), first_map)]);
            assert(change_flags(did_map_change) =~= seq![(triple_key(0, 0, 0), false)]);
        }
        EditorData { x: 0, y: 0, group: 0, current_index, maps, did_map_change }
    }

    /// Moves to the neighbouring map in `direction`. The map left behind
    /// is dropped from the loaded maps when it has no change, and its key
    /// is returned when it has one. The new current map may still need
    /// loading: see `has_current_map`.
    pub fn move_map(&mut self, direction: Direction) -> (r: Option<String>)
        requires
            old(self).wf(),
            i32::MIN < old(self).x < i32::MAX,
            i32::MIN < old(self).y < i32::MAX,
        ensures
            final(self).wf(),
            final(self).x == old(self).x + direction_step(direction).0,
            final(self).y == old(self).y + direction_step(direction).1,
            final(self).group == old(self).group,
            final(self).current_index@ == triple_key(final(self).x as int, final(self).y as int, final(self).group as int),
            ({
                let key = old(self).current_index@;
                let flags = change_flags(old(self).did_map_change);
                if key_in(flags, key) && !flags[key_place(flags, key)].1 {
                    &&& r is None
                    &&& stored_maps(final(self).maps) == swap_removed(stored_maps(old(self).maps), key)
                    &&& change_flags(final(self).did_map_change) == swap_removed(flags, key)
                } else {
                    &&& (r matches Some(k) ==> k@ == key)
                    &&& (r is Some <==> key_in(flags, key))
                    &&& final(self).maps == old(self).maps
                    &&& final(self).did_map_change == old(self).did_map_change
                }
            }),
    {
        match direction {
            Direction::East => { self.x = self.x + 1; },
            Direction::North => { self.y = self.y + 1; },
            Direction::South => { self.y = self.y - 1; },
            Direction::West => { self.x = self.x - 1; },
            Direction::NorthEast => { self.x = self.x + 1; self.y = self.y + 1; },
            Direction::NorthWest => { self.x = self.x - 1; self.y = self.y + 1; },
            Direction::SouthEast => { self.x = self.x + 1; self.y = self.y - 1; },
            Direction::SouthWest => { self.x = self.x - 1; self.y = self.y - 1; },
        }
        let mut temp_key: Option<String> = None;
        let ghost flags = change_flags(self.did_map_change);
        let ghost key = self.current_index@;
        match flag_get(&self.did_map_change, &self.current_index) {
            Some(change) => {
                proof {
                    let i = choose|i: int| 0 <= i < flags.len() && flags[i] == (key, change);
                    lemma_unique_value(flags, key, i);
                }
                if !change {
                    proof {
                        lemma_swap_removed_unique(stored_maps(self.maps), key);
                        lemma_swap_removed_unique(flags, key);
                        let old_maps = stored_maps(self.maps);
                        let new_maps = swap_removed(old_maps, key);
                        if key_in(old_maps, key) {
                            let p = key_place(old_maps, key);
                            assert(old_maps[old_maps.len() - 1] == old_maps.last());
                            assert forall|i: int| 0 <= i < new_maps.len() implies map_shaped(#[trigger] new_maps[i].1) by {
                                if i == p {
                                    assert(new_maps[i] == old_maps[old_maps.len() - 1]);
                                } else {
                                    assert(new_maps[i] == old_maps[i]);
                                }
                            }
                        }
                    }
                    flag_remove(&mut self.did_map_change, &self.current_index);
                    stored_remove(&mut self.maps, &self.current_index);
                } else {
                    temp_key = Some(self.current_index.clone());
                }
            },
            None => {},
        }
        self.current_index = map_key(self.x, self.y, self.group);
        temp_key
    }

    /// Whether the current map is loaded.
    pub fn has_current_map(&self) -> (b: bool)
        ensures
            b == key_in(stored_maps(self.maps), self.current_index@),
    {
        stored_contains(&self.maps, &self.current_index)
    }

    /// Whether the map kept under `key` is loaded.
    pub fn has_map(&self, key: &String) -> (b: bool)
        ensures
            b == key_in(stored_maps(self.maps), key@),
    {
        stored_contains(&self.maps, key)
    }

    /// Keeps a freshly loaded map under `key`, marked unchanged.
    pub fn add_map(&mut self, key: String, map: MapData)
        requires
            old(self).wf(),
            map_shaped(map),
        ensures
            final(self).wf(),
            stored_maps(final(self).maps) == inserted(stored_maps(old(self).maps), key@, map),
            change_flags(final(self).did_map_change) == inserted(change_flags(old(self).did_map_change), key@, false),
            final(self).x == old(self).x,
            final(self).y == old(self).y,
            final(self).group == old(self).group,
            final(self).current_index == old(self).current_index,
    {
        proof {
            let old_maps = stored_maps(self.maps);
            lemma_inserted_unique(old_maps, key@, map);
            lemma_inserted_unique(change_flags(self.did_map_change), key@, false);
            let new_maps = inserted(old_maps, key@, map);
            assert forall|i: int| 0 <= i < new_maps.len() implies map_shaped(#[trigger] new_maps[i].1) by {
                if i < old_maps.len() && new_maps[i] != (key@, map) {
                    assert(new_maps[i] == old_maps[i]);
                }
            }
        }
        let flag_key = key.clone();
        stored_insert(&mut self.maps, key, map);
        flag_insert(&mut self.did_map_change, flag_key, false);
    }

    /// Marks the current map as changed, when it is loaded.
    pub fn set_map_change(&mut self)
        requires
            old(self).wf(),
        ensures
            final(self).wf(),
            change_flags(final(self).did_map_change) == (
                if key_in(change_flags(old(self).did_map_change), old(self).current_index@) {
                    inserted(change_flags(old(self).did_map_change), old(self).current_index@, true)
                } else {
                    change_flags(old(self).did_map_change)
                }),
            final(self).maps == old(self).maps,
            final(self).x == old(self).x,
            final(self).y == old(self).y,
            final(self).group == old(self).group,
            final(self).current_index == old(self).current_index,
    {
        if flag_get(&self.did_map_change, &self.current_index).is_some() {
            proof {
                lemma_inserted_unique(change_flags(self.did_map_change), self.current_index@, true);
            }
            let key = self.current_index.clone();
            flag_insert(&mut self.did_map_change, key, true);
        }
    }

    /// Copies the tiles of `map` into the loaded map kept under
    /// `old_map_key`, or, without one, under the current key. Returns
    /// whether the current map must now be written to its file: only when
    /// no other key was given and the map is loaded. After writing it,
    /// call `mark_saved`.
    pub fn save_map_data(&mut self, map: &TileMap, old_map_key: Option<String>) -> (should_write: bool)
        requires
            old(self).wf(),
            map.wf(),
        ensures
            final(self).wf(),
            map_saved(*old(self), *final(self), map.tiles@, old_map_key, should_write),
    {
        let should_save = old_map_key.is_none();
        let find_key = match old_map_key {
            Some(k) => k,
            None => self.current_index.clone(),
        };
        if stored_contains(&self.maps, &find_key) {
            let data = MapData::from_tiles(map);
            proof {
                let old_maps = stored_maps(self.maps);
                lemma_inserted_unique(old_maps, find_key@, data);
                let new_maps = inserted(old_maps, find_key@, data);
                assert forall|i: int| 0 <= i < new_maps.len() implies map_shaped(#[trigger] new_maps[i].1) by {
                    if new_maps[i] != (find_key@, data) {
                        assert(new_maps[i] == old_maps[i]);
                    }
                }
            }
            let ghost old_maps = stored_maps(self.maps);
            let ghost k = find_key@;
            stored_insert(&mut self.maps, find_key, data);
            assert(stored_from(data, map.tiles@) && stored_maps(self.maps) == inserted(old_maps, k, data));
            should_save
        } else {
            false
        }
    }

    /// The keys of the loaded maps that changed since they were loaded
    /// or saved, in the order the maps were loaded: what the save dialog
    /// lists.
    pub fn unsaved_maps(&self) -> (keys: Vec<String>)
        ensures
            keys@.len() == flagged_keys(change_flags(self.did_map_change)).len(),
            forall|i: int| 0 <= i < keys@.len() ==> #[trigger] keys@[i]@ == flagged_keys(change_flags(self.did_map_change))[i],
    {
        flagged_list(&self.did_map_change)
    }

    /// Whether map (x, y, group) is loaded and changed since it was loaded
    /// or saved.
    pub fn did_change(&self, x: i32, y: i32, group: i32) -> (b: bool)
        requires
            self.wf(),
        ensures
            b == (key_in(change_flags(self.did_map_change), triple_key(x as int, y as int, group as int))
                && change_flags(self.did_map_change)[key_place(change_flags(self.did_map_change), triple_key(x as int, y as int, group as int))].1),
    {
        let key = map_key(x, y, group);
        match flag_get(&self.did_map_change, &key) {
            Some(v) => {
                proof {
                    let flags = change_flags(self.did_map_change);
                    let i = choose|i: int| 0 <= i < flags.len() && flags[i] == (key@, v);
                    lemma_unique_value(flags, key@, i);
                }
                v
            },
            None => false,
        }
    }

    /// Marks the current map as unchanged, after it was written to its
    /// file.
    pub fn mark_saved(&mut self)
        requires
            old(self).wf(),
        ensures
            final(self).wf(),
            change_flags(final(self).did_map_change) == (
                if key_in(change_flags(old(self).did_map_change), old(self).current_index@) {
                    inserted(change_flags(old(self).did_map_change), old(self).current_index@, false)
                } else {
                    change_flags(old(self).did_map_change)
                }),
            final(self).maps == old(self).maps,
            final(self).x == old(self).x,
            final(self).y == old(self).y,
            final(self).group == old(self).group,
            final(self).current_index == old(self).current_index,
    {
        if flag_get(&self.did_map_change, &self.current_index).is_some() {
            proof {
                lemma_inserted_unique(change_flags(self.did_map_change), self.current_index@, false);
            }
            let key = self.current_index.clone();
            flag_insert(&mut self.did_map_change, key, false);
        }
    }
}


/// Shows the strip of `size` at `start` of a stored map on map `index`
/// of the view, whose tiles are all default ones: position (x, y) of each
/// layer takes the stored id of (start.0 + x, start.1 + y) when it is
/// not zero.
fn show_stored(view: &mut MapView, index: usize, data: &MapData, start: (u32, u32), size: (u32, u32))
    requires
        old(view).wf(),
        index < 9,
        old(view).maps@[index as int].tiles@ == empty_tiles(),
        old(view).maps@[index as int].filled_bound(),
        map_shaped(*data),
        start.0 + size.0 <= 32,
        start.1 + size.1 <= 32,
    ensures
        final(view).wf(),
        shown_from(final(view).maps@[index as int].tiles@, *data, start, size),
        final(view).maps@[index as int].filled_bound(),
        final(view).maps@[index as int].tilesize == old(view).maps@[index as int].tilesize,
        final(view).maps@[index as int].can_render == old(view).maps@[index as int].can_render,
        forall|i: int| 0 <= i < 9 && i != index ==> #[trigger] final(view).maps@[i] == old(view).maps@[i],
        final(view).map_attributes == old(view).map_attributes,
        final(view).map_zone == old(view).map_zone,
        final(view).map_zone_loc == old(view).map_zone_loc,
        final(view).map_zone_setting == old(view).map_zone_setting,
        final(view).fixed_weather == old(view).fixed_weather,
        final(view).record == old(view).record,
{
    let ghost idx = index as int;
    let mut layer: u32 = 0;
    while layer < 8
        invariant
            view.wf(),
            index < 9,
            idx == index as int,
            layer <= 8,
            map_shaped(*data),
            start.0 + size.0 <= 32,
            start.1 + size.1 <= 32,
            view.maps@[idx].filled_bound(),
            view.maps@[idx].tilesize == old(view).maps@[idx].tilesize,
            view.maps@[idx].can_render == old(view).maps@[idx].can_render,
            forall|i: int| 0 <= i < 9 && i != index ==> #[trigger] view.maps@[i] == old(view).maps@[i],
            view.map_attributes == old(view).map_attributes,
            view.map_zone == old(view).map_zone,
            view.map_zone_loc == old(view).map_zone_loc,
            view.map_zone_setting == old(view).map_zone_setting,
            view.fixed_weather == old(view).fixed_weather,
            view.record == old(view).record,
            forall|z: int, p: (int, int)| 0 <= z < 8 && in_grid(p) ==> #[trigger] cell(view.maps@[idx].tiles@, z, p) == ({
                let id = data.tile@[z].id@[(start.0 + p.0) + (start.1 + p.1) * 32];
                if z < layer && p.0 < size.0 && p.1 < size.1 && id > 0 { stored_tile(id) } else { default_tile() }
            }),
        decreases 8 - layer,
    {
        let mut x: u32 = 0;
        while x < size.0
            invariant
                view.wf(),
                index < 9,
                idx == index as int,
                layer < 8,
                x <= size.0,
                map_shaped(*data),
                start.0 + size.0 <= 32,
                start.1 + size.1 <= 32,
                view.maps@[idx].filled_bound(),
                view.maps@[idx].tilesize == old(view).maps@[idx].tilesize,
                view.maps@[idx].can_render == old(view).maps@[idx].can_render,
                forall|i: int| 0 <= i < 9 && i != index ==> #[trigger] view.maps@[i] == old(view).maps@[i],
                view.map_attributes == old(view).map_attributes,
                view.map_zone == old(view).map_zone,
                view.map_zone_loc == old(view).map_zone_loc,
                view.map_zone_setting == old(view).map_zone_setting,
                view.fixed_weather == old(view).fixed_weather,
                view.record == old(view).record,
                forall|z: int, p: (int, int)| 0 <= z < 8 && in_grid(p) ==> #[trigger] cell(view.maps@[idx].tiles@, z, p) == ({
                    let id = data.tile@[z].id@[(start.0 + p.0) + (start.1 + p.1) * 32];
                    if (z < layer || (z == layer && p.0 < x)) && p.0 < size.0 && p.1 < size.1 && id > 0 {
                        stored_tile(id)
                    } else {
                        default_tile()
                    }
                }),
            decreases size.0 - x,
        {
            let mut y: u32 = 0;
            while y < size.1
                invariant
                    view.wf(),
                    index < 9,
                    idx == index as int,
                    layer < 8,
                    x < size.0,
                    y <= size.1,
                    map_shaped(*data),
                    start.0 + size.0 <= 32,
                    start.1 + size.1 <= 32,
                    view.maps@[idx].filled_bound(),
                    view.maps@[idx].tilesize == old(view).maps@[idx].tilesize,
                    view.maps@[idx].can_render == old(view).maps@[idx].can_render,
                    forall|i: int| 0 <= i < 9 && i != index ==> #[trigger] view.maps@[i] == old(view).maps@[i],
                    view.map_attributes == old(view).map_attributes,
                    view.map_zone == old(view).map_zone,
                    view.map_zone_loc == old(view).map_zone_loc,
                    view.map_zone_setting == old(view).map_zone_setting,
                    view.fixed_weather == old(view).fixed_weather,
                    view.record == old(view).record,
                    forall|z: int, p: (int, int)| 0 <= z < 8 && in_grid(p) ==> #[trigger] cell(view.maps@[idx].tiles@, z, p) == ({
                        let id = data.tile@[z].id@[(start.0 + p.0) + (start.1 + p.1) * 32];
                        if (z < layer || (z == layer && (p.0 < x || (p.0 == x && p.1 < y)))) && p.0 < size.0 && p.1 < size.1 && id > 0 {
                            stored_tile(id)
                        } else {
                            default_tile()
                        }
                    }),
                decreases size.1 - y,
            {
                let tile_num = ((start.0 + x) + (start.1 + y) * 32) as usize;
                let texture_id = data.tile[layer as usize].id[tile_num];
                if texture_id > 0 {
                    let ghost tiles0 = view.maps@[idx].tiles@;
                    view.maps[index].set_tile((x, y, layer), TileData {
                        texture_id,
                        texture_layer: 0,
                        color: Color::rgba(255, 255, 255, 255),
                    });
                    proof {
                        let q = (x as int, y as int);
                        assert forall|z: int, p: (int, int)| 0 <= z < 8 && in_grid(p) && (z != layer || p != q) implies
                            #[trigger] cell(view.maps@[idx].tiles@, z, p) == cell(tiles0, z, p) by {
                            assert(tile_index(p.0, p.1, z) != tile_index(q.0, q.1, layer as int));
                        }
                    }
                }
                y = y + 1;
            }
            x = x + 1;
        }
        layer = layer + 1;
    }
}

impl EditorData {
    /// Shows the current map on the main map of the view: the view's map
    /// is cleared, then each tile with a stored id takes it.
    #[verifier::rlimit(40)]
    pub fn load_map_data(&self, map: &mut MapView)
        requires
            self.wf(),
            old(map).wf(),
        ensures
            final(map).wf(),
            key_in(stored_maps(self.maps), self.current_index@) ==> exists|i: int|
                0 <= i < stored_maps(self.maps).len() && #[trigger] stored_maps(self.maps)[i].0 == self.current_index@
                    && shown_from(final(map).maps@[0].tiles@, stored_maps(self.maps)[i].1, (0, 0), (32, 32)),
            !key_in(stored_maps(self.maps), self.current_index@) ==> final(map).maps@[0].tiles@ == empty_tiles(),
            final(map).maps@[0].filled_bound(),
            forall|i: int| 1 <= i < 9 ==> #[trigger] final(map).maps@[i] == old(map).maps@[i],
            final(map).map_attributes == old(map).map_attributes,
            final(map).map_zone == old(map).map_zone,
            final(map).map_zone_loc == old(map).map_zone_loc,
            final(map).map_zone_setting == old(map).map_zone_setting,
            final(map).fixed_weather == old(map).fixed_weather,
            final(map).record == old(map).record,
    {
        map.clear_map(0);
        match stored_get(&self.maps, &self.current_index) {
            Some(mapdata) => {
                proof {
                    let i = choose|i: int| 0 <= i < stored_maps(self.maps).len() && stored_maps(self.maps)[i] == (self.current_index@, *mapdata);
                    assert(map_shaped(stored_maps(self.maps)[i].1));
                }
                show_stored(map, 0, mapdata, (0, 0), (32, 32));
                proof {
                    let i = choose|i: int| 0 <= i < stored_maps(self.maps).len() && stored_maps(self.maps)[i] == (self.current_index@, *mapdata);
                    assert(stored_maps(self.maps)[i].0 == self.current_index@);
                }
            },
            None => {},
        }
    }

    /// The key of the map linked at `maplink` when that map has to be
    /// read from disk: it exists there (`exists`) and is not loaded yet.
    pub fn link_to_read(&self, maplink: usize, exists: bool) -> (r: Option<String>)
        requires
            i32::MIN < self.x < i32::MAX,
            i32::MIN < self.y < i32::MAX,
        ensures
            ({
                let key = triple_key(self.x + link_source(maplink).0.0, self.y + link_source(maplink).0.1, self.group as int);
                &&& r is Some <==> exists && !key_in(stored_maps(self.maps), key)
                &&& r matches Some(k) ==> k@ == key
            }),
    {
        if !exists {
            return None;
        }
        let (x, y) = self.link_position(maplink);
        let key = map_key(x, y, self.group);
        if self.has_map(&key) {
            None
        } else {
            Some(key)
        }
    }

    /// The position of linked map number `maplink` (see `link_source`).
    pub fn link_position(&self, maplink: usize) -> (p: (i32, i32))
        requires
            i32::MIN < self.x < i32::MAX,
            i32::MIN < self.y < i32::MAX,
        ensures
            p.0 == self.x + link_source(maplink).0.0,
            p.1 == self.y + link_source(maplink).0.1,
    {
        match maplink {
            1 => (self.x, self.y + 1),
            2 => (self.x + 1, self.y + 1),
            3 => (self.x - 1, self.y),
            4 => (self.x + 1, self.y),
            5 => (self.x - 1, self.y - 1),
            6 => (self.x, self.y - 1),
            7 => (self.x + 1, self.y - 1),
            _ => (self.x - 1, self.y + 1),
        }
    }

    /// Shows the neighbours of the current map around it: each linked
    /// map of the view is cleared, then, when its map exists
    /// (`map_exists`, one flag per link) and is loaded, shows the strip of
    /// it that borders the current map.
    #[verifier::rlimit(40)]
    pub fn load_link_maps(&self, map: &mut MapView, map_exists: &[bool])
        requires
            self.wf(),
            old(map).wf(),
            map_exists@.len() == 8,
            i32::MIN < self.x < i32::MAX,
            i32::MIN < self.y < i32::MAX,
        ensures
            final(map).wf(),
            final(map).maps@[0] == old(map).maps@[0],
            links_shown(*self, final(map).maps@, map_exists@, 8),
            forall|i: int| 1 <= i < 9 ==> (#[trigger] final(map).maps@[i]).filled_bound(),
            final(map).map_attributes == old(map).map_attributes,
            final(map).map_zone == old(map).map_zone,
            final(map).map_zone_loc == old(map).map_zone_loc,
            final(map).map_zone_setting == old(map).map_zone_setting,
            final(map).fixed_weather == old(map).fixed_weather,
            final(map).record == old(map).record,
    {
        let mut maplink: usize = 0;
        while maplink < 8
            invariant
                self.wf(),
                map.wf(),
                map_exists@.len() == 8,
                maplink <= 8,
                i32::MIN < self.x < i32::MAX,
                i32::MIN < self.y < i32::MAX,
                map.maps@[0] == old(map).maps@[0],
                links_shown(*self, map.maps@, map_exists@, maplink as int),
                forall|i: int| 1 <= i <= maplink ==> (#[trigger] map.maps@[i]).filled_bound(),
                map.map_attributes == old(map).map_attributes,
                map.map_zone == old(map).map_zone,
                map.map_zone_loc == old(map).map_zone_loc,
                map.map_zone_setting == old(map).map_zone_setting,
                map.fixed_weather == old(map).fixed_weather,
                map.record == old(map).record,
            decreases 8 - maplink,
        {
            let ghost before = map.maps@;
            map.clear_map(maplink + 1);
            let (x, y) = self.link_position(maplink);
            let (start, size): ((u32, u32), (u32, u32)) = match maplink {
                1 => ((0, 0), (32, 2)),
                2 => ((0, 0), (2, 2)),
                3 => ((30, 0), (2, 32)),
                4 => ((0, 0), (2, 32)),
                5 => ((30, 30), (2, 2)),
                6 => ((0, 30), (32, 2)),
                7 => ((0, 30), (2, 2)),
                _ => ((30, 0), (2, 2)),
            };
            let key = map_key(x, y, self.group);
            assert(link_source(maplink).1 == start && link_source(maplink).2 == size);
            assert(key@ == link_key(*self, maplink as int));
            if map_exists[maplink] {
                match stored_get(&self.maps, &key) {
                    Some(mapdata) => {
                        proof {
                            let i = choose|i: int| 0 <= i < stored_maps(self.maps).len() && stored_maps(self.maps)[i] == (key@, *mapdata);
                            assert(map_shaped(stored_maps(self.maps)[i].1));
                        }
                        show_stored(map, maplink + 1, mapdata, start, size);
                        proof {
                            let i = choose|i: int| 0 <= i < stored_maps(self.maps).len() && stored_maps(self.maps)[i] == (key@, *mapdata);
                            assert(stored_maps(self.maps)[i].0 == key@);
                        }
                    },
                    None => {},
                }
            }
            proof {
                let l = maplink as int;
                assert(map_exists@[l] == map_exists[maplink as int]);
                assert(link_shown(*self, map.maps@[l + 1].tiles@, map_exists@[l], l));
                lemma_links_shown_step(*self, before, map.maps@, map_exists@, l);
            }
            maplink = maplink + 1;
        }
    }
}

/// The key of linked map number `l` of the current map.
pub open spec fn link_key(e: EditorData, l: int) -> Seq<char> {
    let d = link_source(l as usize).0;
    triple_key(e.x + d.0, e.y + d.1, e.group as int)
}

/// Line `c` lies in the strip of `size` lines starting at line `start`.
pub open spec fn in_strip(start: u32, size: u32, c: int) -> bool {
    start <= c < start + size
}

/// Linked map `l` lies one step in direction `direction_of_link(l)` from
/// the current map, and the strip it shows is the part of that map that
/// borders the current one: laid side by side with the current map
/// (whose tiles run from 0 to 31 on each axis), a column or row of the
/// linked map is shown exactly when it lies within two tiles of the
/// current map.
pub proof fn lemma_link_strip_borders(e: EditorData, l: usize)
    requires
        l < 8,
    ensures
        ({
            let (d, start, size) = link_source(l);
            let step = direction_step(direction_of_link(l));
            &&& d == step
            &&& link_key(e, l as int) == triple_key(e.x + step.0, e.y + step.1, e.group as int)
            &&& start.0 + size.0 <= 32
            &&& start.1 + size.1 <= 32
            &&& forall|c: int| 0 <= c < 32 ==> (#[trigger] in_strip(start.0, size.0, c) <==> -2 <= 32 * step.0 + c < 34)
            &&& forall|c: int| 0 <= c < 32 ==> (#[trigger] in_strip(start.1, size.1, c) <==> -2 <= 32 * step.1 + c < 34)
        }),
{
}

/// Linked map number `l` shows what it should: the bordering strip of
/// its map when that exists and is loaded, nothing otherwise.
pub open spec fn link_shown(e: EditorData, tiles: Seq<TileData>, exists: bool, l: int) -> bool {
    let (d, start, size) = link_source(l as usize);
    let key = link_key(e, l);
    if exists && key_in(stored_maps(e.maps), key) {
        exists|i: int| 0 <= i < stored_maps(e.maps).len() && #[trigger] stored_maps(e.maps)[i].0 == key
            && shown_from(tiles, stored_maps(e.maps)[i].1, start, size)
    } else {
        tiles == empty_tiles()
    }
}

/// The first n linked maps of the view show what they should.
pub open spec fn links_shown(e: EditorData, maps: Seq<TileMap>, exists: Seq<bool>, n: int) -> bool {
    forall|l: int| 0 <= l < n ==> #[trigger] link_shown(e, maps[l + 1].tiles@, exists[l], l)
}

proof fn lemma_links_shown_step(e: EditorData, maps0: Seq<TileMap>, maps1: Seq<TileMap>, exists: Seq<bool>, n: int)
    requires
        0 <= n < 8,
        links_shown(e, maps0, exists, n),
        forall|i: int| 0 <= i < 9 && i != n + 1 ==> #[trigger] maps1[i] == maps0[i],
        link_shown(e, maps1[n + 1].tiles@, exists[n], n),
    ensures
        links_shown(e, maps1, exists, n + 1),
{
    assert forall|l: int| 0 <= l < n + 1 implies #[trigger] link_shown(e, maps1[l + 1].tiles@, exists[l], l) by {
        if l < n {
            assert(maps1[l + 1] == maps0[l + 1]);
            assert(link_shown(e, maps0[l + 1].tiles@, exists[l], l));
        }
    }
}


/// The title shown for map (x, y, group): `Map [ X: x Y: y Group: group ]`,
/// followed by ` Unsaved` when it has unsaved changes.
pub open spec fn map_title(x: int, y: int, group: int, unsaved: bool) -> Seq<char> {
    "Map [ X: "@ + signed_decimal(x) + " Y: "@ + signed_decimal(y) + " Group: "@ + signed_decimal(group) + " ]"@
        + (if unsaved { " Unsaved"@ } else { Seq::empty() })
}

/// The title shown for map (x, y, group).
pub fn map_name_label(x: i32, y: i32, group: i32, unsaved: bool) -> (s: String)
    ensures
        s@ == map_title(x as int, y as int, group as int, unsaved),
{
    proof {
        reveal_strlit("Map [ X: ");
        reveal_strlit(" Y: ");
        reveal_strlit(" Group: ");
        reveal_strlit(" ]");
        reveal_strlit(" Unsaved");
    }
    let mut s = String::from_str("Map [ X: ");
    push_signed_decimal(&mut s, x as i64);
    s.append(" Y: ");
    push_signed_decimal(&mut s, y as i64);
    s.append(" Group: ");
    push_signed_decimal(&mut s, group as i64);
    s.append(" ]");
    if unsaved {
        s.append(" Unsaved");
    }
    assert(s@ =~= map_title(x as int, y as int, group as int, unsaved));
    s
}

/// What is saved is read back: once the current map's tiles `tiles`
/// are saved (`e1` keeps, under the current key, a stored form `m` of
/// them in place of what `e0` kept), loading the current map of `e1`
/// shows every tile with the texture id it had when saved.
pub proof fn lemma_save_then_load(e0: EditorData, e1: EditorData, tiles: Seq<TileData>, m: MapData, shown: Seq<TileData>)
    requires
        e0.wf(),
        tiles.len() == 8192,
        key_in(stored_maps(e0.maps), e0.current_index@),
        stored_from(m, tiles),
        stored_maps(e1.maps) == inserted(stored_maps(e0.maps), e0.current_index@, m),
        e1.current_index == e0.current_index,
        exists|i: int| 0 <= i < stored_maps(e1.maps).len() && #[trigger] stored_maps(e1.maps)[i].0 == e1.current_index@
            && shown_from(shown, stored_maps(e1.maps)[i].1, (0, 0), (32, 32)),
    ensures
        forall|z: int, p: (int, int)| 0 <= z < 8 && in_grid(p) ==> #[trigger] cell(shown, z, p).texture_id
            == cell(tiles, z, p).texture_id,
{
    let key = e0.current_index@;
    let before = stored_maps(e0.maps);
    let after = stored_maps(e1.maps);
    lemma_inserted_unique(before, key, m);
    let place = key_place(before, key);
    assert(after[place] == (key, m));
    let i = choose|i: int| 0 <= i < after.len() && #[trigger] after[i].0 == e1.current_index@
        && shown_from(shown, after[i].1, (0, 0), (32, 32));
    assert(i == place);
    assert forall|z: int, p: (int, int)| 0 <= z < 8 && in_grid(p) implies #[trigger] cell(shown, z, p).texture_id
        == cell(tiles, z, p).texture_id by {
        let k = p.0 + p.1 * 32;
        assert(0 <= k < 1024);
        assert(m.tile@[z].id@[k] == tiles[z * 1024 + k].texture_id);
        assert(tile_index(p.0, p.1, z) == z * 1024 + k);
    }
}

/// Moving to a neighbouring map and then back the opposite way returns
/// to the map one started from: `e1` is `e0` moved by `d` and `e2` is
/// `e1` moved back (as `move_map` leaves them).
pub proof fn lemma_move_and_back(e0: EditorData, e1: EditorData, e2: EditorData, d: Direction)
    requires
        e0.current_index@ == triple_key(e0.x as int, e0.y as int, e0.group as int),
        e1.x == e0.x + direction_step(d).0,
        e1.y == e0.y + direction_step(d).1,
        e1.group == e0.group,
        e2.x == e1.x + direction_step(opposite(d)).0,
        e2.y == e1.y + direction_step(opposite(d)).1,
        e2.group == e1.group,
        e2.current_index@ == triple_key(e2.x as int, e2.y as int, e2.group as int),
    ensures
        e2.x == e0.x,
        e2.y == e0.y,
        e2.current_index@ == e0.current_index@,
{
    crate::map_data::lemma_step_back(d);
}

} // verus!
