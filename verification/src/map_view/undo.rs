//! Undoing and redoing tile changes. A record holds, for each tile
//! position changed while it was open, the texture id the tile had
//! before; applying it puts those ids back and records, for the opposite
//! stack, the ids it overwrote.

use vstd::prelude::*;
use crate::color::Color;
use crate::recording::{Record, Records, TilePos, ChangeData, pos_key, has_key, offer_change, offered, MAX_CHANGE};
use crate::text::lemma_triple_key_injective;
use crate::tile_map::{TileData, tile_index};
use crate::map_view::MapView;

verus! {

/// A recorded position lies on a map: x and y below 32, layer below 8.
pub open spec fn on_map(pos: TilePos) -> bool {
    pos.x < 32 && pos.y < 32 && pos.z < 8
}

/// The index of a recorded position in a map's tiles.
pub open spec fn pos_index(pos: TilePos) -> int {
    tile_index(pos.x as int, pos.y as int, pos.z as int)
}

/// Every entry lies on a map and is kept under its position's key.
pub open spec fn entries_valid(entries: Seq<(Seq<char>, ChangeData)>) -> bool {
    forall|i: int| #![trigger entries[i]] 0 <= i < entries.len() ==>
        on_map(entries[i].1.pos) && entries[i].0 == pos_key(entries[i].1.pos)
}

/// Every record of a stack has valid entries.
pub open spec fn records_valid(records: Seq<Record>) -> bool {
    forall|j: int| 0 <= j < records.len() ==> entries_valid(#[trigger] records[j].entries())
}

/// Both stacks of records have valid entries.
pub open spec fn stacks_valid(r: Records) -> bool {
    records_valid(r.undo_stack()) && records_valid(r.redo_stack())
}

/// The tile that undo or redo writes for a recorded texture id: that
/// texture, in opaque white.
pub open spec fn restored_tile(id: i32) -> TileData {
    TileData { texture_id: id as u32, texture_layer: 0, color: Color { r: 255, g: 255, b: 255, alpha: 255 } }
}

/// The tiles after the entries are applied in their order, each writing
/// its restored tile at its position.
pub open spec fn apply_entries(tiles: Seq<TileData>, entries: Seq<(Seq<char>, ChangeData)>) -> Seq<TileData>
    decreases entries.len(),
{
    if entries.len() == 0 {
        tiles
    } else {
        apply_entries(tiles, entries.drop_last()).update(
            pos_index(entries.last().1.pos),
            restored_tile(entries.last().1.texture_id),
        )
    }
}

/// The entries restore the texture ids of `snap` over `tiles`: each
/// entry holds the id its position had in `snap`, and each position
/// whose id differs between the two has an entry.
pub open spec fn undo_covers(snap: Seq<TileData>, tiles: Seq<TileData>, entries: Seq<(Seq<char>, ChangeData)>) -> bool {
    &&& snap.len() == 8192
    &&& tiles.len() == 8192
    &&& entries_valid(entries)
    &&& forall|i: int| #![trigger entries[i]] 0 <= i < entries.len() ==>
        entries[i].1.texture_id == snap[pos_index(entries[i].1.pos)].texture_id as i32
    &&& forall|pos: TilePos| #![trigger tiles[pos_index(pos)]] on_map(pos)
        && tiles[pos_index(pos)].texture_id != snap[pos_index(pos)].texture_id
        ==> has_key(entries, pos_key(pos))
}

/// From tiles t0 with record entries e0 to tiles t1 with entries e1, the
/// record only grew, by entries holding the ids of t0 at positions it
/// had no entry for, and every position whose id changed has an entry.
pub open spec fn keeps_cover(
    t0: Seq<TileData>,
    e0: Seq<(Seq<char>, ChangeData)>,
    t1: Seq<TileData>,
    e1: Seq<(Seq<char>, ChangeData)>,
) -> bool {
    &&& t0.len() == 8192
    &&& t1.len() == 8192
    &&& e0.len() <= e1.len()
    &&& forall|i: int| 0 <= i < e0.len() ==> #[trigger] e1[i] == e0[i]
    &&& forall|i: int| #![trigger e1[i]] e0.len() <= i < e1.len() ==> {
        &&& on_map(e1[i].1.pos)
        &&& e1[i].0 == pos_key(e1[i].1.pos)
        &&& e1[i].1.texture_id == t0[pos_index(e1[i].1.pos)].texture_id as i32
        &&& !has_key(e0, e1[i].0)
    }
    &&& forall|pos: TilePos| #![trigger t1[pos_index(pos)]] on_map(pos)
        && t1[pos_index(pos)].texture_id != t0[pos_index(pos)].texture_id
        ==> has_key(e1, pos_key(pos))
}

/// How an edit of tiles t0 into t1 left the undo records: the record
/// state is kept, and while changes are recorded the targeted record
/// keeps covering the tiles; otherwise the undo stack is untouched.
pub open spec fn recorded_edit(r0: Records, r1: Records, t0: Seq<TileData>, t1: Seq<TileData>) -> bool {
    &&& r1.redo_stack() == r0.redo_stack()
    &&& undo_recorded(r0, r1, t0, t1)
}

/// The undo side of a recorded edit: whether a record is open and which
/// one is targeted stay, and the targeted record (when changes go into
/// one) keeps covering the tiles while the others stay; with no record
/// taking changes the undo stack stays. The redo stack is left free.
pub open spec fn undo_recorded(r0: Records, r1: Records, t0: Seq<TileData>, t1: Seq<TileData>) -> bool {
    &&& r1.is_recording() == r0.is_recording()
    &&& r1.target() == r0.target()
    &&& r1.undo_stack().len() == r0.undo_stack().len()
    &&& if r0.is_recording() && r0.undo_stack().len() < MAX_CHANGE && r0.target() is Some {
        let k = r0.target()->0 as int;
        &&& forall|j: int| 0 <= j < r0.undo_stack().len() && j != k ==> #[trigger] r1.undo_stack()[j] == r0.undo_stack()[j]
        &&& keeps_cover(t0, r0.undo_stack()[k].entries(), t1, r1.undo_stack()[k].entries())
    } else {
        r1.undo_stack() == r0.undo_stack()
    }
}

/// Different positions on a map have different keys and indices.
proof fn lemma_positions_distinct(a: TilePos, b: TilePos)
    requires
        on_map(a),
        on_map(b),
    ensures
        pos_key(a) == pos_key(b) ==> a == b,
        pos_index(a) == pos_index(b) ==> a == b,
        0 <= pos_index(a) < 8192,
{
    lemma_triple_key_injective(a.x as nat, a.y as nat, a.z as nat, b.x as nat, b.y as nat, b.z as nat);
}

/// Offering a position on a map to a record keeps its entries valid.
proof fn lemma_offer_valid(entries: Seq<(Seq<char>, ChangeData)>, pos: TilePos, id: i32)
    requires
        entries_valid(entries),
        on_map(pos),
    ensures
        entries_valid(offer_change(entries, pos, id)),
{
    let e1 = offer_change(entries, pos, id);
    assert forall|i: int| #![trigger e1[i]] 0 <= i < e1.len() implies
        on_map(e1[i].1.pos) && e1[i].0 == pos_key(e1[i].1.pos) by {
        if i < entries.len() {
            assert(e1[i] == entries[i]);
        }
    }
}

/// Offering a position on a map to the targeted record keeps every
/// record of the stack valid.
pub proof fn lemma_offered_valid(old_list: Seq<Record>, new_list: Seq<Record>, index: int, pos: TilePos, id: i32)
    requires
        records_valid(old_list),
        0 <= index < old_list.len(),
        offered(old_list, new_list, index, pos, id),
        on_map(pos),
    ensures
        records_valid(new_list),
{
    lemma_offer_valid(old_list[index].entries(), pos, id);
    assert forall|j: int| 0 <= j < new_list.len() implies entries_valid(#[trigger] new_list[j].entries()) by {
        if j != index {
            assert(new_list[j] == old_list[j]);
        }
    }
}

/// An edit that changes nothing keeps the cover.
pub proof fn lemma_keeps_cover_refl(t: Seq<TileData>, e: Seq<(Seq<char>, ChangeData)>)
    requires
        t.len() == 8192,
    ensures
        keeps_cover(t, e, t, e),
{
}

/// Recording a tile's id and then writing the tile keeps the cover.
pub proof fn lemma_keeps_cover_step(t0: Seq<TileData>, e0: Seq<(Seq<char>, ChangeData)>, pos: TilePos, n: TileData)
    requires
        t0.len() == 8192,
        entries_valid(e0),
        on_map(pos),
    ensures
        keeps_cover(
            t0,
            e0,
            t0.update(pos_index(pos), n),
            offer_change(e0, pos, t0[pos_index(pos)].texture_id as i32),
        ),
{
    let t1 = t0.update(pos_index(pos), n);
    let e1 = offer_change(e0, pos, t0[pos_index(pos)].texture_id as i32);
    lemma_positions_distinct(pos, pos);
    assert forall|q: TilePos| #![trigger t1[pos_index(q)]] on_map(q)
        && t1[pos_index(q)].texture_id != t0[pos_index(q)].texture_id
        implies has_key(e1, pos_key(q)) by {
        lemma_positions_distinct(q, pos);
        assert(q == pos);
        if !has_key(e0, pos_key(pos)) {
            assert(e1[e0.len() as int].0 == pos_key(pos));
        }
    }
    assert forall|i: int| 0 <= i < e0.len() implies #[trigger] e1[i] == e0[i] by {}
}

/// Two edits in a row keep the cover as one.
pub proof fn lemma_keeps_cover_trans(
    t0: Seq<TileData>,
    e0: Seq<(Seq<char>, ChangeData)>,
    t1: Seq<TileData>,
    e1: Seq<(Seq<char>, ChangeData)>,
    t2: Seq<TileData>,
    e2: Seq<(Seq<char>, ChangeData)>,
)
    requires
        keeps_cover(t0, e0, t1, e1),
        keeps_cover(t1, e1, t2, e2),
    ensures
        keeps_cover(t0, e0, t2, e2),
{
    assert forall|i: int| #![trigger e2[i]] e0.len() <= i < e2.len() implies {
        &&& on_map(e2[i].1.pos)
        &&& e2[i].0 == pos_key(e2[i].1.pos)
        &&& e2[i].1.texture_id == t0[pos_index(e2[i].1.pos)].texture_id as i32
        &&& !has_key(e0, e2[i].0)
    } by {
        if i < e1.len() {
            assert(e2[i] == e1[i]);
        } else {
            let p = e2[i].1.pos;
            if has_key(e0, e2[i].0) {
                let k = choose|k: int| 0 <= k < e0.len() && #[trigger] e0[k].0 == e2[i].0;
                assert(e1[k] == e0[k]);
                assert(has_key(e1, e2[i].0));
            }
            if t1[pos_index(p)].texture_id != t0[pos_index(p)].texture_id {
                assert(has_key(e1, pos_key(p)));
            }
        }
    }
    assert forall|pos: TilePos| #![trigger t2[pos_index(pos)]] on_map(pos)
        && t2[pos_index(pos)].texture_id != t0[pos_index(pos)].texture_id
        implies has_key(e2, pos_key(pos)) by {
        if t2[pos_index(pos)].texture_id == t1[pos_index(pos)].texture_id {
            assert(t1[pos_index(pos)].texture_id != t0[pos_index(pos)].texture_id);
            assert(has_key(e1, pos_key(pos)));
            let k = choose|k: int| 0 <= k < e1.len() && #[trigger] e1[k].0 == pos_key(pos);
            assert(e2[k] == e1[k]);
        }
    }
}

/// An edit that has not yet changed anything.
pub proof fn lemma_recorded_edit_start(r: Records, t: Seq<TileData>)
    requires
        t.len() == 8192,
    ensures
        recorded_edit(r, r, t, t),
{
    if r.is_recording() && r.undo_stack().len() < MAX_CHANGE && r.target() is Some {
        lemma_keeps_cover_refl(t, r.undo_stack()[r.target()->0 as int].entries());
    }
}

/// One more tile written after its id was offered to the undo record:
/// the edit so far stays recorded, and the stacks stay valid.
pub proof fn lemma_recorded_edit_step(
    r0: Records,
    ra: Records,
    rb: Records,
    t0: Seq<TileData>,
    ta: Seq<TileData>,
    tb: Seq<TileData>,
    pos: TilePos,
    n: TileData,
)
    requires
        recorded_edit(r0, ra, t0, ta),
        stacks_valid(ra),
        ra.is_recording() && ra.undo_stack().len() < MAX_CHANGE ==> ra.undo_target_ok(),
        on_map(pos),
        ta.len() == 8192,
        tb == ta.update(pos_index(pos), n),
        rb.is_recording() == ra.is_recording(),
        rb.target() == ra.target(),
        rb.redo_stack() == ra.redo_stack(),
        !ra.is_recording() || ra.undo_stack().len() >= MAX_CHANGE || ra.target() is None
            ==> rb.undo_stack() == ra.undo_stack(),
        ra.is_recording() && ra.undo_stack().len() < MAX_CHANGE && ra.target() is Some
            ==> offered(ra.undo_stack(), rb.undo_stack(), ra.target()->0 as int, pos, ta[pos_index(pos)].texture_id as i32),
    ensures
        recorded_edit(r0, rb, t0, tb),
        stacks_valid(rb),
{
    if ra.is_recording() && ra.undo_stack().len() < MAX_CHANGE && ra.target() is Some {
        let k = ra.target()->0 as int;
        let ea = ra.undo_stack()[k].entries();
        lemma_offered_valid(ra.undo_stack(), rb.undo_stack(), k, pos, ta[pos_index(pos)].texture_id as i32);
        assert(entries_valid(ea));
        lemma_keeps_cover_step(ta, ea, pos, n);
        lemma_keeps_cover_trans(t0, r0.undo_stack()[k].entries(), ta, ea, tb, rb.undo_stack()[k].entries());
        assert forall|j: int| 0 <= j < r0.undo_stack().len() && j != k implies
            #[trigger] rb.undo_stack()[j] == r0.undo_stack()[j] by {
            assert(rb.undo_stack()[j] == ra.undo_stack()[j]);
        }
    }
}

/// A record opened on tiles `snap` covers them: nothing has changed and
/// it holds nothing.
pub proof fn lemma_cover_open(snap: Seq<TileData>)
    requires
        snap.len() == 8192,
    ensures
        undo_covers(snap, snap, Seq::<(Seq<char>, ChangeData)>::empty()),
{
}

/// Edits that keep the cover leave a covering record covering.
pub proof fn lemma_cover_kept(
    snap: Seq<TileData>,
    t0: Seq<TileData>,
    e0: Seq<(Seq<char>, ChangeData)>,
    t1: Seq<TileData>,
    e1: Seq<(Seq<char>, ChangeData)>,
)
    requires
        undo_covers(snap, t0, e0),
        keeps_cover(t0, e0, t1, e1),
    ensures
        undo_covers(snap, t1, e1),
{
    assert forall|i: int| #![trigger e1[i]] 0 <= i < e1.len() implies
        on_map(e1[i].1.pos) && e1[i].0 == pos_key(e1[i].1.pos) by {
        if i < e0.len() {
            assert(e1[i] == e0[i]);
        }
    }
    assert forall|i: int| #![trigger e1[i]] 0 <= i < e1.len() implies
        e1[i].1.texture_id == snap[pos_index(e1[i].1.pos)].texture_id as i32 by {
        if i < e0.len() {
            assert(e1[i] == e0[i]);
        } else {
            let p = e1[i].1.pos;
            if t0[pos_index(p)].texture_id != snap[pos_index(p)].texture_id {
                assert(has_key(e0, pos_key(p)));
            }
        }
    }
    assert forall|pos: TilePos| #![trigger t1[pos_index(pos)]] on_map(pos)
        && t1[pos_index(pos)].texture_id != snap[pos_index(pos)].texture_id
        implies has_key(e1, pos_key(pos)) by {
        if t1[pos_index(pos)].texture_id == t0[pos_index(pos)].texture_id {
            assert(t0[pos_index(pos)].texture_id != snap[pos_index(pos)].texture_id);
            let k = choose|k: int| 0 <= k < e0.len() && #[trigger] e0[k].0 == pos_key(pos);
            assert(e1[k] == e0[k]);
        }
    }
}

/// Two recorded edits in a row are one recorded edit.
pub proof fn lemma_recorded_edit_trans(
    r0: Records,
    r1: Records,
    r2: Records,
    t0: Seq<TileData>,
    t1: Seq<TileData>,
    t2: Seq<TileData>,
)
    requires
        recorded_edit(r0, r1, t0, t1),
        recorded_edit(r1, r2, t1, t2),
    ensures
        recorded_edit(r0, r2, t0, t2),
{
    if r0.is_recording() && r0.undo_stack().len() < MAX_CHANGE && r0.target() is Some {
        let k = r0.target()->0 as int;
        lemma_keeps_cover_trans(
            t0, r0.undo_stack()[k].entries(),
            t1, r1.undo_stack()[k].entries(),
            t2, r2.undo_stack()[k].entries(),
        );
        assert forall|j: int| 0 <= j < r0.undo_stack().len() && j != k implies
            #[trigger] r2.undo_stack()[j] == r0.undo_stack()[j] by {
            assert(r2.undo_stack()[j] == r1.undo_stack()[j]);
        }
    }
}

/// Two edits in a row whose undo side is recorded are one such edit,
/// whatever happened to the redo stack: the clicks of a session chain.
pub proof fn lemma_undo_recorded_trans(
    r0: Records,
    r1: Records,
    r2: Records,
    t0: Seq<TileData>,
    t1: Seq<TileData>,
    t2: Seq<TileData>,
)
    requires
        undo_recorded(r0, r1, t0, t1),
        undo_recorded(r1, r2, t1, t2),
    ensures
        undo_recorded(r0, r2, t0, t2),
{
    if r0.is_recording() && r0.undo_stack().len() < MAX_CHANGE && r0.target() is Some {
        let k = r0.target()->0 as int;
        lemma_keeps_cover_trans(
            t0, r0.undo_stack()[k].entries(),
            t1, r1.undo_stack()[k].entries(),
            t2, r2.undo_stack()[k].entries(),
        );
        assert forall|j: int| 0 <= j < r0.undo_stack().len() && j != k implies
            #[trigger] r2.undo_stack()[j] == r0.undo_stack()[j] by {
            assert(r2.undo_stack()[j] == r1.undo_stack()[j]);
        }
    }
}

/// Undo gives back what an editing session changed: when an empty undo
/// record was opened on the tiles `snap` and the edits since were
/// recorded in it, applying that record restores the texture id of
/// `snap` at every position.
pub proof fn lemma_session_undo(r0: Records, r1: Records, snap: Seq<TileData>, tiles: Seq<TileData>)
    requires
        snap.len() == 8192,
        r0.is_recording(),
        r0.undo_stack().len() < MAX_CHANGE,
        r0.undo_stack().len() > 0,
        r0.target() == Some((r0.undo_stack().len() - 1) as usize),
        r0.undo_stack().last().entries() == Seq::<(Seq<char>, ChangeData)>::empty(),
        undo_recorded(r0, r1, snap, tiles),
    ensures
        r1.undo_stack().len() == r0.undo_stack().len(),
        apply_entries(tiles, r1.undo_stack().last().entries()).len() == 8192,
        forall|pos: TilePos| on_map(pos) ==>
            #[trigger] apply_entries(tiles, r1.undo_stack().last().entries())[pos_index(pos)].texture_id
                == snap[pos_index(pos)].texture_id,
{
    let k = r0.undo_stack().len() - 1;
    assert(r0.undo_stack()[k] == r0.undo_stack().last());
    assert(r1.undo_stack()[k] == r1.undo_stack().last());
    lemma_cover_open(snap);
    lemma_cover_kept(snap, snap, r0.undo_stack()[k].entries(), tiles, r1.undo_stack()[k].entries());
    lemma_undo_restores(snap, tiles, r1.undo_stack().last().entries());
}

/// Where applying entries leaves a tile: at a position with an entry it
/// holds the id of the snapshot, elsewhere it is as before.
proof fn lemma_apply_at(snap: Seq<TileData>, tiles: Seq<TileData>, entries: Seq<(Seq<char>, ChangeData)>, pos: TilePos)
    requires
        snap.len() == 8192,
        tiles.len() == 8192,
        entries_valid(entries),
        forall|i: int| #![trigger entries[i]] 0 <= i < entries.len() ==>
            entries[i].1.texture_id == snap[pos_index(entries[i].1.pos)].texture_id as i32,
        on_map(pos),
    ensures
        apply_entries(tiles, entries).len() == 8192,
        (exists|i: int| 0 <= i < entries.len() && #[trigger] entries[i].1.pos == pos)
            ==> apply_entries(tiles, entries)[pos_index(pos)].texture_id == snap[pos_index(pos)].texture_id,
        !(exists|i: int| 0 <= i < entries.len() && #[trigger] entries[i].1.pos == pos)
            ==> apply_entries(tiles, entries)[pos_index(pos)] == tiles[pos_index(pos)],
    decreases entries.len(),
{
    lemma_positions_distinct(pos, pos);
    if entries.len() > 0 {
        let rest = entries.drop_last();
        assert forall|i: int| #![trigger rest[i]] 0 <= i < rest.len() implies
            on_map(rest[i].1.pos) && rest[i].0 == pos_key(rest[i].1.pos)
                && rest[i].1.texture_id == snap[pos_index(rest[i].1.pos)].texture_id as i32 by {
            assert(rest[i] == entries[i]);
        }
        lemma_apply_at(snap, tiles, rest, pos);
        let last = entries.last();
        assert(entries[entries.len() - 1] == last);
        lemma_positions_distinct(last.1.pos, pos);
        if last.1.pos == pos {
            let id = snap[pos_index(pos)].texture_id;
            assert(((id as i32) as u32) == id) by (bit_vector);
        } else {
            if exists|i: int| 0 <= i < entries.len() && #[trigger] entries[i].1.pos == pos {
                let i = choose|i: int| 0 <= i < entries.len() && #[trigger] entries[i].1.pos == pos;
                assert(i != entries.len() - 1);
                assert(rest[i] == entries[i]);
            }
            if exists|i: int| 0 <= i < rest.len() && #[trigger] rest[i].1.pos == pos {
                let i = choose|i: int| 0 <= i < rest.len() && #[trigger] rest[i].1.pos == pos;
                assert(rest[i] == entries[i]);
            }
        }
    }
}

/// Undo restores: applying a record that covers the tiles against a
/// snapshot gives back the snapshot's texture id at every position.
pub proof fn lemma_undo_restores(snap: Seq<TileData>, tiles: Seq<TileData>, entries: Seq<(Seq<char>, ChangeData)>)
    requires
        undo_covers(snap, tiles, entries),
    ensures
        apply_entries(tiles, entries).len() == 8192,
        forall|pos: TilePos| on_map(pos) ==>
            #[trigger] apply_entries(tiles, entries)[pos_index(pos)].texture_id == snap[pos_index(pos)].texture_id,
{
    assert forall|pos: TilePos| on_map(pos) implies
        #[trigger] apply_entries(tiles, entries)[pos_index(pos)].texture_id == snap[pos_index(pos)].texture_id by {
        lemma_apply_at(snap, tiles, entries, pos);
        if !(exists|i: int| 0 <= i < entries.len() && #[trigger] entries[i].1.pos == pos) {
            if tiles[pos_index(pos)].texture_id != snap[pos_index(pos)].texture_id {
                assert(has_key(entries, pos_key(pos)));
                let k = choose|k: int| 0 <= k < entries.len() && #[trigger] entries[k].0 == pos_key(pos);
                lemma_positions_distinct(entries[k].1.pos, pos);
                assert(entries[k].1.pos == pos);
            }
        }
    }
    lemma_apply_at(snap, tiles, entries, TilePos { x: 0, y: 0, z: 0 });
}


/// The stack that applying a record takes it from: undo records when
/// undoing, redo records when redoing.
pub open spec fn source_stack(r: Records, is_undo: bool) -> Seq<Record> {
    if is_undo { r.undo_stack() } else { r.redo_stack() }
}

/// The stack that applying a record records into: redo records when
/// undoing, undo records when redoing.
pub open spec fn target_stack(r: Records, is_undo: bool) -> Seq<Record> {
    if is_undo { r.redo_stack() } else { r.undo_stack() }
}

proof fn lemma_drop_last_valid(records: Seq<Record>)
    requires
        records_valid(records),
        records.len() > 0,
    ensures
        records_valid(records.drop_last()),
        entries_valid(records.last().entries()),
{
    assert(records[records.len() - 1] == records.last());
    assert forall|j: int| 0 <= j < records.drop_last().len() implies entries_valid(#[trigger] records.drop_last()[j].entries()) by {
        assert(records.drop_last()[j] == records[j]);
    }
}

proof fn lemma_push_empty_valid(old_list: Seq<Record>, new_list: Seq<Record>)
    requires
        records_valid(old_list),
        new_list.len() == old_list.len() + 1,
        new_list.take(old_list.len() as int) == old_list,
        new_list.last().entries() == Seq::<(Seq<char>, ChangeData)>::empty(),
    ensures
        records_valid(new_list),
{
    assert forall|j: int| 0 <= j < new_list.len() implies entries_valid(#[trigger] new_list[j].entries()) by {
        if j < old_list.len() {
            assert(new_list[j] == new_list.take(old_list.len() as int)[j]);
        } else {
            assert(new_list[j] == new_list.last());
        }
    }
}

/// The map view after the last change is undone, or redone when
/// `is_undo` is false (see `MapView::apply_change`).
pub open spec fn change_applied(before: MapView, after: MapView, is_undo: bool) -> bool {
    &&& forall|i: int| 1 <= i < 9 ==> #[trigger] after.maps@[i] == before.maps@[i]
    &&& after.maps@[0].tilesize == before.maps@[0].tilesize
    &&& after.maps@[0].can_render == before.maps@[0].can_render
    &&& after.map_attributes == before.map_attributes
    &&& after.map_zone == before.map_zone
    &&& after.map_zone_loc == before.map_zone_loc
    &&& after.map_zone_setting == before.map_zone_setting
    &&& after.fixed_weather == before.fixed_weather
    &&& source_stack(before.record, is_undo).len() == 0 ==> after == before
    &&& source_stack(before.record, is_undo).len() > 0 ==> {
        let entries = source_stack(before.record, is_undo).last().entries();
        let tiles0 = before.maps@[0].tiles@;
        let dst = target_stack(before.record, is_undo);
        &&& after.maps@[0].tiles@ == apply_entries(tiles0, entries)
        &&& source_stack(after.record, is_undo) == source_stack(before.record, is_undo).drop_last()
        &&& !after.record.is_recording()
        &&& after.record.target() is None
        &&& !before.record.is_recording() ==> {
            &&& target_stack(after.record, is_undo).len() == dst.len() + 1
            &&& target_stack(after.record, is_undo).take(dst.len() as int) == dst
            &&& dst.len() + 1 < MAX_CHANGE ==> undo_covers(
                tiles0,
                after.maps@[0].tiles@,
                target_stack(after.record, is_undo).last().entries(),
            )
        }
    }
}

impl MapView {
    /// Undoes (or, when `is_undo` is false, redoes) the last recorded
    /// change of the main map: the last record is taken off its stack and
    /// each of its entries, in order, writes its texture id back (in
    /// opaque white), after the id it overwrites is offered to a record
    /// of the opposite stack. Nothing happens when the stack is empty.
    #[verifier::rlimit(40)]
    pub fn apply_change(&mut self, is_undo: bool)
        requires
            old(self).wf(),
            old(self).record_ok(),
            old(self).record.is_recording() && target_stack(old(self).record, is_undo).len() < MAX_CHANGE ==> (
                if is_undo { old(self).record.redo_target_ok() } else { old(self).record.undo_target_ok() }),
        ensures
            final(self).wf(),
            final(self).record_ok(),
            change_applied(*old(self), *final(self), is_undo),
    {
        if self.record.stack_is_empty(is_undo) {
            return;
        }
        let ghost r_old = self.record;
        let data = if is_undo { self.record.get_last_undo() } else { self.record.get_last_redo() };
        match data {
            None => {},
            Some(data) => {
                let ghost before = self.maps@[0].tiles@;
                let ghost entries = data.entries();
                let ghost dst_len = target_stack(r_old, is_undo).len();
                let ghost src_after = source_stack(r_old, is_undo).drop_last();
                proof {
                    lemma_drop_last_valid(source_stack(r_old, is_undo));
                }
                if is_undo {
                    self.record.set_redo_record();
                } else {
                    self.record.set_undo_record();
                }
                proof {
                    if !r_old.is_recording() {
                        lemma_push_empty_valid(target_stack(r_old, is_undo), target_stack(self.record, is_undo));
                        lemma_cover_open(before);
                    }
                }
                let n = data.len();
                let mut i: usize = 0;
                while i < n
                    invariant
                        self.wf(),
                        n == entries.len(),
                        i <= n,
                        entries == data.entries(),
                        entries_valid(entries),
                        before == old(self).maps@[0].tiles@,
                        self.maps@[0].tiles@ == apply_entries(before, entries.take(i as int)),
                        forall|k: int| 1 <= k < 9 ==> #[trigger] self.maps@[k] == old(self).maps@[k],
                        self.maps@[0].tilesize == old(self).maps@[0].tilesize,
                        self.maps@[0].can_render == old(self).maps@[0].can_render,
                        self.map_attributes == old(self).map_attributes,
                        self.map_zone == old(self).map_zone,
                        self.map_zone_loc == old(self).map_zone_loc,
                        self.map_zone_setting == old(self).map_zone_setting,
                        self.fixed_weather == old(self).fixed_weather,
                        r_old == old(self).record,
                        src_after == source_stack(r_old, is_undo).drop_last(),
                        source_stack(self.record, is_undo) == src_after,
                        self.record.is_recording(),
                        target_stack(self.record, is_undo).len() < MAX_CHANGE ==> (
                            if is_undo { self.record.redo_target_ok() } else { self.record.undo_target_ok() }),
                        r_old.is_recording() ==> self.record.target() == r_old.target(),
                        dst_len == target_stack(r_old, is_undo).len(),
                        !r_old.is_recording() ==> {
                            &&& self.record.target() == Some(dst_len as usize)
                            &&& target_stack(self.record, is_undo).len() == dst_len + 1
                            &&& target_stack(self.record, is_undo).take(dst_len as int) == target_stack(r_old, is_undo)
                            &&& dst_len + 1 < MAX_CHANGE ==> undo_covers(
                                before,
                                self.maps@[0].tiles@,
                                target_stack(self.record, is_undo).last().entries(),
                            )
                        },
                    decreases n - i,
                {
                    let ghost tiles0 = self.maps@[0].tiles@;
                    let ghost r0 = self.record;
                    let (_key, change) = data.change(i);
                    let pos = change.pos;
                    proof {
                        assert(entries[i as int] == (_key@, change));
                        lemma_positions_distinct(pos, pos);
                    }
                    let last_texture = self.maps[0].get_tile((pos.x, pos.y, pos.z)).texture_id;
                    if is_undo {
                        self.record.push_redo(pos, #[verifier::truncate] (last_texture as i32));
                    } else {
                        self.record.push_undo(pos, #[verifier::truncate] (last_texture as i32));
                    }
                    let restored = TileData {
                        texture_id: #[verifier::truncate] (change.texture_id as u32),
                        texture_layer: 0,
                        color: Color::rgba(255, 255, 255, 255),
                    };
                    self.maps[0].set_tile((pos.x, pos.y, pos.z), restored);
                    proof {
                        let tiles1 = self.maps@[0].tiles@;
                        assert(restored == restored_tile(change.texture_id));
                        assert(entries.take(i as int + 1).drop_last() =~= entries.take(i as int));
                        assert(entries.take(i as int + 1).last() == entries[i as int]);
                        assert(tiles1 == apply_entries(before, entries.take(i as int + 1)));
                        let id = tiles0[pos_index(pos)].texture_id as i32;
                        let t0 = target_stack(r0, is_undo);
                        let t1 = target_stack(self.record, is_undo);
                        if t0.len() < MAX_CHANGE && r0.target() is Some {
                            let k = r0.target()->0 as int;
                            assert(offered(t0, t1, k, pos, id));
                            assert(records_valid(t0));
                            lemma_offered_valid(t0, t1, k, pos, id);
                            if !r_old.is_recording() && dst_len + 1 < MAX_CHANGE {
                                assert(k == t0.len() - 1);
                                assert(t0[k] == t0.last());
                                assert(t1[k] == t1.last());
                                lemma_keeps_cover_step(tiles0, t0.last().entries(), pos, restored);
                                lemma_cover_kept(before, tiles0, t0.last().entries(), tiles1, t1.last().entries());
                            }
                            if !r_old.is_recording() {
                                assert(t1.take(dst_len as int) =~= t0.take(dst_len as int));
                            }
                        }
                    }
                    i = i + 1;
                }
                self.record.stop_record();
                proof {
                    assert(entries.take(n as int) =~= entries);
                }
            },
        }
    }
}

} // verus!
