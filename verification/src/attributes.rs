//! Tile attributes of a map as the game stores them, and the loosely
//! typed values that editor forms hand over to build them.

use vstd::prelude::*;
use crate::color::Color;

verus! {

/// Number of attribute kinds that can be placed on a tile.
pub const MAX_ATTRIBUTE: usize = 5;

/// Destination of a warp tile.
#[derive(Clone, Debug, PartialEq, Eq)]
pub struct WarpData {
    pub map_x: i32,
    pub map_y: i32,
    pub map_group: u64,
    pub tile_x: u32,
    pub tile_y: u32,
}

impl Default for WarpData {
    fn default() -> (d: Self)
        ensures
            d == (WarpData { map_x: 0, map_y: 0, map_group: 0, tile_x: 0, tile_y: 0 }),
    {
        WarpData { map_x: 0, map_y: 0, map_group: 0, tile_x: 0, tile_y: 0 }
    }
}

/// Item that a tile spawns.
#[derive(Clone, Debug, PartialEq, Eq)]
pub struct ItemSpawnData {
    pub index: u32,
    pub amount: u16,
    pub timer: u64,
}

impl Default for ItemSpawnData {
    fn default() -> (d: Self)
        ensures
            d == (ItemSpawnData { index: 0, amount: 0, timer: 0 }),
    {
        ItemSpawnData { index: 0, amount: 0, timer: 0 }
    }
}

/// What a tile does.
#[derive(Clone, Debug, PartialEq, Eq)]
pub enum MapAttribute {
    Walkable,
    Blocked,
    Warp(WarpData),
    Sign(String),
    ItemSpawn(ItemSpawnData),
    Count,
}

/// A value typed into an editor form.
#[derive(Debug)]
pub enum InsertTypes {
    Int(i64),
    UInt(u64),
    Str(String),
    Bool(bool),
}

/// The signed value an insert holds, 0 for any other kind.
pub open spec fn spec_int(t: InsertTypes) -> i64 {
    match t {
        InsertTypes::Int(v) => v,
        _ => 0,
    }
}

/// The unsigned value an insert holds, 0 for any other kind.
pub open spec fn spec_uint(t: InsertTypes) -> u64 {
    match t {
        InsertTypes::UInt(v) => v,
        _ => 0,
    }
}

/// The text an insert holds, empty for any other kind.
pub open spec fn spec_text(t: InsertTypes) -> Seq<char> {
    match t {
        InsertTypes::Str(s) => s@,
        _ => Seq::empty(),
    }
}

impl InsertTypes {
    pub fn get_int(&self) -> (v: i64)
        ensures
            v == spec_int(*self),
    {
        match self {
            InsertTypes::Int(data) => *data,
            _ => 0,
        }
    }

    pub fn get_uint(&self) -> (v: u64)
        ensures
            v == spec_uint(*self),
    {
        match self {
            InsertTypes::UInt(data) => *data,
            _ => 0,
        }
    }

    pub fn get_string(&self) -> (s: String)
        ensures
            s@ == spec_text(*self),
    {
        match self {
            InsertTypes::Str(data) => data.clone(),
            _ => String::new(),
        }
    }
}

/// The name shown for an attribute number in the editor's list.
pub open spec fn attribute_name(attribute: u32) -> Seq<char> {
    if attribute == 0 { "Walkable"@ }
    else if attribute == 1 { "Blocked"@ }
    else if attribute == 2 { "Warp"@ }
    else if attribute == 3 { "Sign"@ }
    else if attribute == 4 { "Item"@ }
    else { ""@ }
}

/// The letter drawn on a tile that carries the attribute.
pub open spec fn attribute_letter(attribute: MapAttribute) -> Seq<char> {
    match attribute {
        MapAttribute::Blocked => "B"@,
        MapAttribute::Warp(_) => "W"@,
        MapAttribute::Sign(_) => "S"@,
        MapAttribute::ItemSpawn(_) => "I"@,
        _ => ""@,
    }
}

/// The overlay colour of a tile that carries the attribute.
pub open spec fn attribute_color(attribute: MapAttribute) -> Color {
    match attribute {
        MapAttribute::Blocked => Color { r: 200, g: 10, b: 10, alpha: 100 },
        MapAttribute::Warp(_) => Color { r: 10, g: 10, b: 200, alpha: 100 },
        MapAttribute::Sign(_) => Color { r: 10, g: 200, b: 10, alpha: 100 },
        MapAttribute::ItemSpawn(_) => Color { r: 180, g: 180, b: 180, alpha: 100 },
        _ => Color { r: 0, g: 0, b: 0, alpha: 0 },
    }
}

/// The number of an attribute's kind.
pub open spec fn attribute_number(attribute: MapAttribute) -> u32 {
    match attribute {
        MapAttribute::Blocked => 1,
        MapAttribute::Warp(_) => 2,
        MapAttribute::Sign(_) => 3,
        MapAttribute::ItemSpawn(_) => 4,
        _ => 0,
    }
}

/// How many form values an attribute number reads.
pub open spec fn values_needed(attribute: u32) -> nat {
    if attribute == 2 { 5 }
    else if attribute == 3 { 1 }
    else if attribute == 4 { 2 }
    else { 0 }
}

/// The attribute that a kind number and form values describe. An item
/// spawn takes its timer from the second value, as its amount does.
pub open spec fn attribute_from_values(attribute: u32, data: Seq<InsertTypes>) -> MapAttribute {
    if attribute == 1 {
        MapAttribute::Blocked
    } else if attribute == 2 {
        MapAttribute::Warp(WarpData {
            map_x: spec_int(data[0]) as i32,
            map_y: spec_int(data[1]) as i32,
            map_group: spec_uint(data[2]),
            tile_x: spec_uint(data[3]) as u32,
            tile_y: spec_uint(data[4]) as u32,
        })
    } else if attribute == 4 {
        MapAttribute::ItemSpawn(ItemSpawnData {
            index: spec_uint(data[0]) as u32,
            amount: spec_uint(data[1]) as u16,
            timer: spec_uint(data[1]),
        })
    } else {
        MapAttribute::Walkable
    }
}

impl MapAttribute {
    pub fn as_str<'a>(attribute: u32) -> (s: &'a str)
        ensures
            s@ == attribute_name(attribute),
    {
        match attribute {
            0 => "Walkable",
            1 => "Blocked",
            2 => "Warp",
            3 => "Sign",
            4 => "Item",
            _ => "",
        }
    }

    pub fn as_map_str<'a>(attribute: &MapAttribute) -> (s: &'a str)
        ensures
            s@ == attribute_letter(*attribute),
    {
        match attribute {
            MapAttribute::Blocked => "B",
            MapAttribute::Warp(_) => "W",
            MapAttribute::Sign(_) => "S",
            MapAttribute::ItemSpawn(_) => "I",
            _ => "",
        }
    }

    pub fn get_color(attribute: &MapAttribute) -> (c: Color)
        ensures
            c == attribute_color(*attribute),
    {
        match attribute {
            MapAttribute::Blocked => Color::rgba(200, 10, 10, 100),
            MapAttribute::Warp(_) => Color::rgba(10, 10, 200, 100),
            MapAttribute::Sign(_) => Color::rgba(10, 200, 10, 100),
            MapAttribute::ItemSpawn(_) => Color::rgba(180, 180, 180, 100),
            _ => Color::rgba(0, 0, 0, 0),
        }
    }

    /// Builds an attribute of kind `attribute` from form values; a sign
    /// takes the text of the first value.
    pub fn convert_to_enum(attribute: u32, data: &[InsertTypes]) -> (a: Self)
        requires
            data@.len() >= values_needed(attribute),
        ensures
            attribute == 3 ==> (a matches MapAttribute::Sign(s) && s@ == spec_text(data@[0])),
            attribute != 3 ==> a == attribute_from_values(attribute, data@),
    {
        match attribute {
            1 => MapAttribute::Blocked,
            2 => MapAttribute::Warp(WarpData {
                map_x: data[0].get_int() as i32,
                map_y: data[1].get_int() as i32,
                map_group: data[2].get_uint(),
                tile_x: data[3].get_uint() as u32,
                tile_y: data[4].get_uint() as u32,
            }),
            3 => MapAttribute::Sign(data[0].get_string()),
            4 => MapAttribute::ItemSpawn(ItemSpawnData {
                index: data[0].get_uint() as u32,
                amount: data[1].get_uint() as u16,
                timer: data[1].get_uint(),
            }),
            _ => MapAttribute::Walkable,
        }
    }

    /// An attribute of kind `attribute` with empty data.
    pub fn convert_to_plain_enum(attribute: u32) -> (a: Self)
        ensures
            attribute == 3 ==> (a matches MapAttribute::Sign(s) && s@ == Seq::<char>::empty()),
            attribute != 3 ==> a == (if attribute == 1 {
                MapAttribute::Blocked
            } else if attribute == 2 {
                MapAttribute::Warp(WarpData { map_x: 0, map_y: 0, map_group: 0, tile_x: 0, tile_y: 0 })
            } else if attribute == 4 {
                MapAttribute::ItemSpawn(ItemSpawnData { index: 0, amount: 0, timer: 0 })
            } else {
                MapAttribute::Walkable
            }),
    {
        match attribute {
            1 => MapAttribute::Blocked,
            2 => MapAttribute::Warp(WarpData::default()),
            3 => MapAttribute::Sign(String::new()),
            4 => MapAttribute::ItemSpawn(ItemSpawnData::default()),
            _ => MapAttribute::Walkable,
        }
    }

    pub fn convert_to_num(attribute: &MapAttribute) -> (n: u32)
        ensures
            n == attribute_number(*attribute),
    {
        match attribute {
            MapAttribute::Blocked => 1,
            MapAttribute::Warp(_) => 2,
            MapAttribute::Sign(_) => 3,
            MapAttribute::ItemSpawn(_) => 4,
            _ => 0,
        }
    }
}

} // verus!
