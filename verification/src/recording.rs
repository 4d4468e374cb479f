//! Undo and redo records of tile changes. A record collects, for each
//! tile position, the texture id that the tile had before the first
//! change made to it while the record was open.

use vstd::prelude::*;
use indexmap::IndexMap;
use crate::text::{format_triple, triple_key};

verus! {

/// Undo or redo records beyond this many take no further changes.
pub const MAX_CHANGE: usize = 500;

/// A tile position: x, y and layer (or zone).
#[derive(Clone, Copy, Debug, PartialEq, Eq, Structural)]
pub struct TilePos {
    pub x: u32,
    pub y: u32,
    pub z: u32,
}

/// The key `x_y_z` under which a position's change is kept.
pub open spec fn pos_key(pos: TilePos) -> Seq<char> {
    triple_key(pos.x as int, pos.y as int, pos.z as int)
}

/// A change of one tile: where, and the texture id to put back.
#[derive(Clone, Copy, Debug, PartialEq, Eq, Structural)]
pub struct ChangeData {
    pub pos: TilePos,
    pub texture_id: i32,
}

/// The changes of one record, keyed by position.
#[derive(Debug)]
pub struct Record {
    pub changes: IndexMap<String, ChangeData>,
}

#[verifier::external_type_specification]
#[verifier::external_body]
#[verifier::reject_recursive_types(K)]
#[verifier::reject_recursive_types(V)]
#[verifier::reject_recursive_types(S)]
pub struct ExIndexMap<K, V, S>(IndexMap<K, V, S>);

/// The entries of a record's change map in their order: each key's
/// characters with its change.
pub uninterp spec fn change_entries(m: IndexMap<String, ChangeData>) -> Seq<(Seq<char>, ChangeData)>;

/// Whether some entry has the key.
pub open spec fn has_key(entries: Seq<(Seq<char>, ChangeData)>, key: Seq<char>) -> bool {
    exists|i: int| 0 <= i < entries.len() && #[trigger] entries[i].0 == key
}

/// No two entries share a key.
pub open spec fn distinct_keys(entries: Seq<(Seq<char>, ChangeData)>) -> bool {
    forall|i: int, j: int|
        0 <= i < entries.len() && 0 <= j < entries.len() && i != j ==> #[trigger] entries[i].0 != #[trigger] entries[j].0
}

/// `IndexMap::new`: a map without entries.
#[verifier::external_body]
fn new_changes() -> (m: IndexMap<String, ChangeData>)
    ensures
        change_entries(m) == Seq::<(Seq<char>, ChangeData)>::empty(),
{
    IndexMap::new()
}

/// `IndexMap::contains_key`: whether an entry has a key equal to `key`.
#[verifier::external_body]
fn changes_contain(m: &IndexMap<String, ChangeData>, key: &String) -> (b: bool)
    ensures
        b == has_key(change_entries(*m), key@),
{
    m.contains_key(key)
}

/// `IndexMap::insert`: a new key goes last in the order; an existing
/// key keeps its place and takes the new value. Keys stay distinct.
#[verifier::external_body]
fn changes_insert(m: &mut IndexMap<String, ChangeData>, key: String, value: ChangeData)
    ensures
        !has_key(change_entries(*old(m)), key@) ==> change_entries(*final(m)) == change_entries(*old(m)).push((key@, value)),
        has_key(change_entries(*old(m)), key@) ==> exists|i: int|
            0 <= i < change_entries(*old(m)).len() && change_entries(*old(m))[i].0 == key@
                && change_entries(*final(m)) == change_entries(*old(m)).update(i, (key@, value)),
        distinct_keys(change_entries(*old(m))) ==> distinct_keys(change_entries(*final(m))),
{
    m.insert(key, value);
}

/// `IndexMap::len`: the number of entries.
#[verifier::external_body]
fn changes_len(m: &IndexMap<String, ChangeData>) -> (n: usize)
    ensures
        n == change_entries(*m).len(),
{
    m.len()
}

/// `IndexMap::get_index`: the entry at a place in the order, cloned.
#[verifier::external_body]
fn change_at(m: &IndexMap<String, ChangeData>, index: usize) -> (entry: (String, ChangeData))
    requires
        index < change_entries(*m).len(),
    ensures
        entry.0@ == change_entries(*m)[index as int].0,
        entry.1 == change_entries(*m)[index as int].1,
{
    let (k, v) = m.get_index(index).unwrap();
    (k.clone(), *v)
}

impl Record {
    /// The record's entries in their order.
    pub open spec fn entries(&self) -> Seq<(Seq<char>, ChangeData)> {
        change_entries(self.changes)
    }

    /// A record without changes.
    pub fn new() -> (r: Record)
        ensures
            r.entries() == Seq::<(Seq<char>, ChangeData)>::empty(),
    {
        Record { changes: new_changes() }
    }

    /// The number of changes.
    pub fn len(&self) -> (n: usize)
        ensures
            n == self.entries().len(),
    {
        changes_len(&self.changes)
    }

    /// The change at a place in the order, with its key.
    pub fn change(&self, index: usize) -> (entry: (String, ChangeData))
        requires
            index < self.entries().len(),
        ensures
            entry.0@ == self.entries()[index as int].0,
            entry.1 == self.entries()[index as int].1,
    {
        change_at(&self.changes, index)
    }
}

/// The entries of a record after a position's change is offered to it:
/// a position already present keeps its first change.
pub open spec fn offer_change(entries: Seq<(Seq<char>, ChangeData)>, pos: TilePos, texture_id: i32) -> Seq<(Seq<char>, ChangeData)> {
    if has_key(entries, pos_key(pos)) {
        entries
    } else {
        entries.push((pos_key(pos), ChangeData { pos, texture_id }))
    }
}

/// The undo and redo stacks. While a record is open, pushed changes go
/// into the record it targets.
pub struct Records {
    in_record: bool,
    pub undo: Vec<Record>,
    pub redo: Vec<Record>,
    last_index: Option<usize>,
}

/// `after` is `before` with an undo record opened: unless one is open
/// already, a fresh empty record is pushed on the undo stack and becomes
/// the target, the redo stack staying as it is.
pub open spec fn record_opened(before: Records, after: Records) -> bool {
    if before.is_recording() {
        after == before
    } else {
        &&& after.is_recording()
        &&& after.target() == Some(before.undo_stack().len() as usize)
        &&& after.undo_stack().len() == before.undo_stack().len() + 1
        &&& after.undo_stack().take(before.undo_stack().len() as int) == before.undo_stack()
        &&& after.undo_stack().last().entries() == Seq::<(Seq<char>, ChangeData)>::empty()
        &&& after.redo_stack() == before.redo_stack()
    }
}

/// Offering a change to a list of records: the targeted record takes
/// the change, the others stay.
pub open spec fn offered(old_list: Seq<Record>, new_list: Seq<Record>, index: int, pos: TilePos, texture_id: i32) -> bool {
    &&& new_list.len() == old_list.len()
    &&& forall|j: int| 0 <= j < old_list.len() && j != index ==> new_list[j] == old_list[j]
    &&& new_list[index].entries() == offer_change(old_list[index].entries(), pos, texture_id)
}

impl Records {
    /// The undo records, oldest first.
    pub closed spec fn undo_stack(&self) -> Seq<Record> {
        self.undo@
    }

    /// The redo records, oldest first.
    pub closed spec fn redo_stack(&self) -> Seq<Record> {
        self.redo@
    }

    /// Whether a record is open.
    pub closed spec fn is_recording(&self) -> bool {
        self.in_record
    }

    /// The index of the record that pushed changes go into.
    pub closed spec fn target(&self) -> Option<usize> {
        self.last_index
    }

    /// The targeted record, if any, lies in the undo stack.
    pub open spec fn undo_target_ok(&self) -> bool {
        self.target() matches Some(i) ==> i < self.undo_stack().len()
    }

    /// The targeted record, if any, lies in the redo stack.
    pub open spec fn redo_target_ok(&self) -> bool {
        self.target() matches Some(i) ==> i < self.redo_stack().len()
    }

    /// No record open, both stacks empty.
    pub fn new() -> (r: Self)
        ensures
            !r.is_recording(),
            r.target() is None,
            r.undo_stack().len() == 0,
            r.redo_stack().len() == 0,
    {
        Self {
            in_record: false,
            undo: Vec::new(),
            redo: Vec::new(),
            last_index: None,
        }
    }

    /// Opens a new empty undo record, unless a record is open already.
    pub fn set_undo_record(&mut self)
        ensures
            record_opened(*old(self), *final(self)),
    {
        if self.in_record {
            return;
        }

        self.in_record = true;
        let index = self.undo.len();
        self.last_index = Some(index);
        self.undo.push(Record::new());
        assert(self.undo_stack().take(index as int) =~= old(self).undo_stack());
    }

    /// Offers a change to the targeted undo record: nothing happens
    /// unless a record is open and the undo stack holds fewer than 500
    /// records; a position already in the record keeps its first change.
    pub fn push_undo(&mut self, pos: TilePos, texture_id: i32)
        requires
            old(self).is_recording() && old(self).undo_stack().len() < MAX_CHANGE ==> old(self).undo_target_ok(),
        ensures
            final(self).is_recording() == old(self).is_recording(),
            final(self).target() == old(self).target(),
            final(self).redo_stack() == old(self).redo_stack(),
            !old(self).is_recording() || old(self).undo_stack().len() >= MAX_CHANGE || old(self).target() is None
                ==> final(self).undo_stack() == old(self).undo_stack(),
            old(self).is_recording() && old(self).undo_stack().len() < MAX_CHANGE && old(self).target() is Some
                ==> offered(old(self).undo_stack(), final(self).undo_stack(), old(self).target()->0 as int, pos, texture_id),
    {
        if !self.in_record {
            return;
        }
        if self.undo.len() >= MAX_CHANGE {
            return;
        }

        if let Some(index) = self.last_index {
            let key_name = format_triple(pos.x as i64, pos.y as i64, pos.z as i64);
            if !changes_contain(&self.undo[index].changes, &key_name) {
                let mut record = Record::new();
                std::mem::swap(&mut record, &mut self.undo[index]);
                changes_insert(&mut record.changes, key_name, ChangeData { pos, texture_id });
                self.undo.set(index, record);
            }
        }
    }

    /// Whether the undo stack (or, when `is_undo` is false, the redo
    /// stack) holds no record.
    pub fn stack_is_empty(&self, is_undo: bool) -> (b: bool)
        ensures
            b == (if is_undo { self.undo_stack().len() == 0 } else { self.redo_stack().len() == 0 }),
    {
        if is_undo { self.undo.len() == 0 } else { self.redo.len() == 0 }
    }

    /// Takes the last undo record off the stack.
    pub fn get_last_undo(&mut self) -> (r: Option<Record>)
        ensures
            old(self).undo_stack().len() == 0 ==> r is None && final(self).undo_stack() == old(self).undo_stack(),
            old(self).undo_stack().len() > 0 ==> r == Some(old(self).undo_stack().last())
                && final(self).undo_stack() == old(self).undo_stack().drop_last(),
            final(self).redo_stack() == old(self).redo_stack(),
            final(self).is_recording() == old(self).is_recording(),
            final(self).target() == old(self).target(),
    {
        self.undo.pop()
    }

    /// Opens a new empty redo record, unless a record is open already.
    pub fn set_redo_record(&mut self)
        ensures
            old(self).is_recording() ==> *final(self) == *old(self),
            !old(self).is_recording() ==> {
                &&& final(self).is_recording()
                &&& final(self).target() == Some(old(self).redo_stack().len() as usize)
                &&& final(self).redo_stack().len() == old(self).redo_stack().len() + 1
                &&& final(self).redo_stack().take(old(self).redo_stack().len() as int) == old(self).redo_stack()
                &&& final(self).redo_stack().last().entries() == Seq::<(Seq<char>, ChangeData)>::empty()
                &&& final(self).undo_stack() == old(self).undo_stack()
            },
    {
        if self.in_record {
            return;
        }

        self.in_record = true;
        let index = self.redo.len();
        self.last_index = Some(index);
        self.redo.push(Record::new());
        assert(self.redo_stack().take(index as int) =~= old(self).redo_stack());
    }

    /// Offers a change to the targeted redo record, as `push_undo` does
    /// for undo records.
    pub fn push_redo(&mut self, pos: TilePos, texture_id: i32)
        requires
            old(self).is_recording() && old(self).redo_stack().len() < MAX_CHANGE ==> old(self).redo_target_ok(),
        ensures
            final(self).is_recording() == old(self).is_recording(),
            final(self).target() == old(self).target(),
            final(self).undo_stack() == old(self).undo_stack(),
            !old(self).is_recording() || old(self).redo_stack().len() >= MAX_CHANGE || old(self).target() is None
                ==> final(self).redo_stack() == old(self).redo_stack(),
            old(self).is_recording() && old(self).redo_stack().len() < MAX_CHANGE && old(self).target() is Some
                ==> offered(old(self).redo_stack(), final(self).redo_stack(), old(self).target()->0 as int, pos, texture_id),
    {
        if !self.in_record {
            return;
        }
        if self.redo.len() >= MAX_CHANGE {
            return;
        }

        if let Some(index) = self.last_index {
            let key_name = format_triple(pos.x as i64, pos.y as i64, pos.z as i64);
            if !changes_contain(&self.redo[index].changes, &key_name) {
                let mut record = Record::new();
                std::mem::swap(&mut record, &mut self.redo[index]);
                changes_insert(&mut record.changes, key_name, ChangeData { pos, texture_id });
                self.redo.set(index, record);
            }
        }
    }

    /// Takes the last redo record off the stack.
    pub fn get_last_redo(&mut self) -> (r: Option<Record>)
        ensures
            old(self).redo_stack().len() == 0 ==> r is None && final(self).redo_stack() == old(self).redo_stack(),
            old(self).redo_stack().len() > 0 ==> r == Some(old(self).redo_stack().last())
                && final(self).redo_stack() == old(self).redo_stack().drop_last(),
            final(self).undo_stack() == old(self).undo_stack(),
            final(self).is_recording() == old(self).is_recording(),
            final(self).target() == old(self).target(),
    {
        self.redo.pop()
    }

    /// Empties the redo stack.
    pub fn clear_redo(&mut self)
        ensures
            final(self).redo_stack().len() == 0,
            final(self).undo_stack() == old(self).undo_stack(),
            final(self).is_recording() == old(self).is_recording(),
            final(self).target() == old(self).target(),
    {
        if self.redo.len() > 0 {
            self.redo = Vec::new();
        }
    }

    /// Closes the open record, if any.
    pub fn stop_record(&mut self)
        ensures
            !final(self).is_recording(),
            old(self).is_recording() ==> final(self).target() is None,
            !old(self).is_recording() ==> final(self).target() == old(self).target(),
            final(self).undo_stack() == old(self).undo_stack(),
            final(self).redo_stack() == old(self).redo_stack(),
    {
        if !self.in_record {
            return;
        }
        self.in_record = false;
        self.last_index = None;
    }
}

} // verus!
