//! Tile attributes as the map editor places and records them.

use vstd::prelude::*;
use crate::color::Color;
use crate::text::{field_value, parse_or_zero};

verus! {

/// Number of attribute kinds that the editor offers.
pub const MAX_ATTRIBUTE: usize = 4;

/// What a tile does. A warp holds map x, map y, map group, tile x and
/// tile y.
#[derive(Clone, Debug, PartialEq, Eq)]
pub enum MapAttribute {
    Walkable,
    Blocked,
    Warp(i32, i32, u64, u32, u32),
    Sign(String),
    Count,
}

/// A value typed into an editor form.
#[derive(Debug)]
pub enum InsertTypes {
    Int(i64),
    UInt(u64),
    Str(String),
    Bool(bool),
}

/// The signed value an insert holds, 0 for any other kind.
pub open spec fn spec_int(t: InsertTypes) -> i64 {
    match t {
        InsertTypes::Int(v) => v,
        _ => 0,
    }
}

/// The unsigned value an insert holds, 0 for any other kind.
pub open spec fn spec_uint(t: InsertTypes) -> u64 {
    match t {
        InsertTypes::UInt(v) => v,
        _ => 0,
    }
}

/// The text an insert holds, empty for any other kind.
pub open spec fn spec_text(t: InsertTypes) -> Seq<char> {
    match t {
        InsertTypes::Str(s) => s@,
        _ => Seq::empty(),
    }
}

impl InsertTypes {
    pub fn get_int(&self) -> (v: i64)
        ensures
            v == spec_int(*self),
    {
        match self {
            InsertTypes::Int(data) => *data,
            _ => 0,
        }
    }

    pub fn get_uint(&self) -> (v: u64)
        ensures
            v == spec_uint(*self),
    {
        match self {
            InsertTypes::UInt(data) => *data,
            _ => 0,
        }
    }

    pub fn get_string(&self) -> (s: String)
        ensures
            s@ == spec_text(*self),
    {
        match self {
            InsertTypes::Str(data) => data.clone(),
            _ => String::new(),
        }
    }
}

/// Two attributes hold the same kind and the same data (a sign's text
/// compared by its characters).
pub open spec fn same_attribute(a: MapAttribute, b: MapAttribute) -> bool {
    match (a, b) {
        (MapAttribute::Walkable, MapAttribute::Walkable) => true,
        (MapAttribute::Blocked, MapAttribute::Blocked) => true,
        (MapAttribute::Count, MapAttribute::Count) => true,
        (MapAttribute::Warp(a0, a1, a2, a3, a4), MapAttribute::Warp(b0, b1, b2, b3, b4)) =>
            a0 == b0 && a1 == b1 && a2 == b2 && a3 == b3 && a4 == b4,
        (MapAttribute::Sign(s), MapAttribute::Sign(t)) => s@ == t@,
        _ => false,
    }
}

/// What two attributes are compared by: the kind number, the warp's
/// fields and the sign's characters.
pub open spec fn attribute_key(a: MapAttribute) -> (u32, i32, i32, u64, u32, u32, Seq<char>) {
    match a {
        MapAttribute::Walkable => (0, 0, 0, 0, 0, 0, Seq::empty()),
        MapAttribute::Blocked => (1, 0, 0, 0, 0, 0, Seq::empty()),
        MapAttribute::Warp(a0, a1, a2, a3, a4) => (2, a0, a1, a2, a3, a4, Seq::empty()),
        MapAttribute::Sign(s) => (3, 0, 0, 0, 0, 0, s@),
        MapAttribute::Count => (4, 0, 0, 0, 0, 0, Seq::empty()),
    }
}

/// Two attributes are the same exactly when their keys are equal.
pub proof fn lemma_same_attribute_key(a: MapAttribute, b: MapAttribute)
    ensures
        same_attribute(a, b) <==> attribute_key(a) == attribute_key(b),
{
}

/// The name shown for an attribute number in the editor's list.
pub open spec fn attribute_name(attribute: u32) -> Seq<char> {
    if attribute == 0 { "Walkable"@ }
    else if attribute == 1 { "Blocked"@ }
    else if attribute == 2 { "Warp"@ }
    else if attribute == 3 { "Sign"@ }
    else { ""@ }
}

/// The letter drawn on a tile that carries the attribute.
pub open spec fn attribute_letter(attribute: MapAttribute) -> Seq<char> {
    match attribute {
        MapAttribute::Blocked => "B"@,
        MapAttribute::Warp(..) => "W"@,
        MapAttribute::Sign(_) => "S"@,
        _ => ""@,
    }
}

/// The overlay colour of a tile that carries the attribute.
pub open spec fn attribute_color(attribute: MapAttribute) -> Color {
    match attribute {
        MapAttribute::Blocked => Color { r: 200, g: 10, b: 10, alpha: 100 },
        MapAttribute::Warp(..) => Color { r: 10, g: 10, b: 200, alpha: 100 },
        MapAttribute::Sign(_) => Color { r: 10, g: 200, b: 10, alpha: 100 },
        _ => Color { r: 0, g: 0, b: 0, alpha: 0 },
    }
}

/// The number of an attribute's kind.
pub open spec fn attribute_number(attribute: MapAttribute) -> u32 {
    match attribute {
        MapAttribute::Blocked => 1,
        MapAttribute::Warp(..) => 2,
        MapAttribute::Sign(_) => 3,
        _ => 0,
    }
}

/// How many form values an attribute number reads.
pub open spec fn values_needed(attribute: u32) -> nat {
    if attribute == 2 { 5 } else if attribute == 3 { 1 } else { 0 }
}

/// The attribute that a kind number and form values describe, for
/// kinds other than a sign.
pub open spec fn attribute_from_values(attribute: u32, data: Seq<InsertTypes>) -> MapAttribute {
    if attribute == 1 {
        MapAttribute::Blocked
    } else if attribute == 2 {
        MapAttribute::Warp(
            spec_int(data[0]) as i32,
            spec_int(data[1]) as i32,
            spec_uint(data[2]),
            spec_uint(data[3]) as u32,
            spec_uint(data[4]) as u32,
        )
    } else {
        MapAttribute::Walkable
    }
}

/// The form values that describe an attribute's data: five numbers for
/// a warp, the text for a sign, none for the others.
pub open spec fn attribute_values(attribute: MapAttribute) -> Seq<InsertTypes> {
    match attribute {
        MapAttribute::Warp(mx, my, mg, tx, ty) => seq![
            InsertTypes::Int(mx as i64),
            InsertTypes::Int(my as i64),
            InsertTypes::UInt(mg),
            InsertTypes::UInt(tx as u64),
            InsertTypes::UInt(ty as u64),
        ],
        MapAttribute::Sign(text) => seq![InsertTypes::Str(text)],
        _ => Seq::empty(),
    }
}

impl MapAttribute {
    pub fn as_str<'a>(attribute: u32) -> (s: &'a str)
        ensures
            s@ == attribute_name(attribute),
    {
        match attribute {
            0 => "Walkable",
            1 => "Blocked",
            2 => "Warp",
            3 => "Sign",
            _ => "",
        }
    }

    pub fn as_map_str<'a>(attribute: &MapAttribute) -> (s: &'a str)
        ensures
            s@ == attribute_letter(*attribute),
    {
        match attribute {
            MapAttribute::Blocked => "B",
            MapAttribute::Warp(_data1, _data2, _data3, _data4, _data5) => "W",
            MapAttribute::Sign(_datastring) => "S",
            _ => "",
        }
    }

    pub fn get_color(attribute: &MapAttribute) -> (c: Color)
        ensures
            c == attribute_color(*attribute),
    {
        match attribute {
            MapAttribute::Blocked => Color::rgba(200, 10, 10, 100),
            MapAttribute::Warp(_data1, _data2, _data3, _data_4, _data5) => Color::rgba(10, 10, 200, 100),
            MapAttribute::Sign(_datastring) => Color::rgba(10, 200, 10, 100),
            _ => Color::rgba(0, 0, 0, 0),
        }
    }

    /// Builds an attribute of kind `attribute` from form values; a sign
    /// takes the text of the first value.
    pub fn convert_to_enum(attribute: u32, data: &[InsertTypes]) -> (a: Self)
        requires
            data@.len() >= values_needed(attribute),
        ensures
            attribute == 3 ==> (a matches MapAttribute::Sign(s) && s@ == spec_text(data@[0])),
            attribute != 3 ==> a == attribute_from_values(attribute, data@),
    {
        match attribute {
            1 => MapAttribute::Blocked,
            2 => MapAttribute::Warp(data[0].get_int() as i32,
                                    data[1].get_int() as i32,
                                    data[2].get_uint(),
                                    data[3].get_uint() as u32,
                                    data[4].get_uint() as u32),
            3 => MapAttribute::Sign(data[0].get_string()),
            _ => MapAttribute::Walkable,
        }
    }

    /// An attribute of kind `attribute` with empty data.
    pub fn convert_to_plain_enum(attribute: u32) -> (a: Self)
        ensures
            attribute == 3 ==> (a matches MapAttribute::Sign(s) && s@ == Seq::<char>::empty()),
            attribute != 3 ==> a == (if attribute == 1 {
                MapAttribute::Blocked
            } else if attribute == 2 {
                MapAttribute::Warp(0, 0, 0, 0, 0)
            } else {
                MapAttribute::Walkable
            }),
    {
        match attribute {
            1 => MapAttribute::Blocked,
            2 => MapAttribute::Warp(0, 0, 0, 0, 0),
            3 => MapAttribute::Sign(String::new()),
            _ => MapAttribute::Walkable,
        }
    }

    pub fn convert_to_num(attribute: &MapAttribute) -> (n: u32)
        ensures
            n == attribute_number(*attribute),
    {
        match attribute {
            MapAttribute::Blocked => { 1 },
            MapAttribute::Warp(_data1,
                                _data2,
                                _data3,
                                _data4,
                                _data5) => { 2 },
            MapAttribute::Sign(_datastring) => { 3 },
            _ => { 0 },
        }
    }

    /// The form values that describe this attribute's data, as the
    /// editor records them for undo.
    pub fn to_insert_values(&self) -> (data: Vec<InsertTypes>)
        ensures
            data@ == attribute_values(*self),
    {
        match self {
            MapAttribute::Warp(mx, my, mg, tx, ty) => {
                vec![InsertTypes::Int(*mx as i64),
                    InsertTypes::Int(*my as i64),
                    InsertTypes::UInt(*mg as u64),
                    InsertTypes::UInt(*tx as u64),
                    InsertTypes::UInt(*ty as u64)]
            },
            MapAttribute::Sign(text) => vec![InsertTypes::Str(text.clone())],
            _ => vec![],
        }
    }

    /// A copy of the attribute.
    pub fn duplicate(&self) -> (r: Self)
        ensures
            r == *self,
    {
        match self {
            MapAttribute::Walkable => MapAttribute::Walkable,
            MapAttribute::Blocked => MapAttribute::Blocked,
            MapAttribute::Count => MapAttribute::Count,
            MapAttribute::Warp(a0, a1, a2, a3, a4) => MapAttribute::Warp(*a0, *a1, *a2, *a3, *a4),
            MapAttribute::Sign(s) => MapAttribute::Sign(s.clone()),
        }
    }

    /// Whether two attributes hold the same kind and data.
    pub fn same_as(&self, other: &MapAttribute) -> (b: bool)
        ensures
            b == same_attribute(*self, *other),
    {
        match self {
            MapAttribute::Walkable => matches!(other, MapAttribute::Walkable),
            MapAttribute::Blocked => matches!(other, MapAttribute::Blocked),
            MapAttribute::Count => matches!(other, MapAttribute::Count),
            MapAttribute::Warp(a0, a1, a2, a3, a4) => match other {
                MapAttribute::Warp(b0, b1, b2, b3, b4) =>
                    *a0 == *b0 && *a1 == *b1 && *a2 == *b2 && *a3 == *b3 && *a4 == *b4,
                _ => false,
            },
            MapAttribute::Sign(s) => match other {
                MapAttribute::Sign(t) => *s == *t,
                _ => false,
            },
        }
    }
}

/// The kind number and form values of an attribute rebuild it: what the
/// editor records before changing a tile's attribute gives that
/// attribute back on undo. The placeholder kind `Count` has no number of
/// its own and is left out.
pub proof fn lemma_attribute_record_roundtrip(a: MapAttribute)
    requires
        !(a is Count),
    ensures
        values_needed(attribute_number(a)) <= attribute_values(a).len(),
        attribute_number(a) != 3 ==> attribute_from_values(attribute_number(a), attribute_values(a)) == a,
        attribute_number(a) == 3 ==> (a matches MapAttribute::Sign(s) && spec_text(attribute_values(a)[0]) == s@),
{
    match a {
        MapAttribute::Warp(mx, my, mg, tx, ty) => {
            assert((mx as i64) as i32 == mx);
            assert((my as i64) as i32 == my);
            assert((tx as u64) as u32 == tx);
            assert((ty as u64) as u32 == ty);
        },
        _ => {},
    }
}

/// Every kind number of the editor's list names the kind that the empty
/// attribute of that number has.
pub proof fn lemma_plain_kind_roundtrip(n: u32)
    requires
        n < MAX_ATTRIBUTE,
    ensures
        n == 3 || attribute_number(if n == 1 {
            MapAttribute::Blocked
        } else if n == 2 {
            MapAttribute::Warp(0, 0, 0, 0, 0)
        } else {
            MapAttribute::Walkable
        }) == n,
{
}


/// The value of field k of a form of `n` fields with texts `texts`, or
/// 0 when there is no such field.
pub open spec fn form_field(texts: Seq<String>, k: int) -> i64 {
    if 0 <= k < texts.len() { field_value(texts[k]@) } else { 0 }
}

/// The warp x of a warp form: fields past the fifth overwrite the first
/// one, so it is the last of those, or the first field.
pub open spec fn warp_map_x(texts: Seq<String>) -> i64 {
    if texts.len() > 5 { form_field(texts, texts.len() - 1) } else { form_field(texts, 0) }
}

/// The attribute that the attribute tab's form describes: the kind
/// chosen on the tab (`tab_data` + 1, walkable not being offered), with,
/// for a warp, its five numbers read from the fields (map x, map y, map
/// group, tile x, tile y; a field that is not a number reads 0), and for
/// a sign the text of the first field.
pub open spec fn form_attribute(tab_data: u32, texts: Seq<String>) -> MapAttribute {
    let kind = tab_data + 1;
    if kind == 1 {
        MapAttribute::Blocked
    } else if kind == 2 {
        MapAttribute::Warp(
            warp_map_x(texts) as i32,
            form_field(texts, 1) as i32,
            form_field(texts, 2) as u64,
            form_field(texts, 3) as u32,
            form_field(texts, 4) as u32,
        )
    } else if kind == 3 && texts.len() > 0 {
        MapAttribute::Sign(texts[0])
    } else {
        MapAttribute::Walkable
    }
}

/// The attribute that the attribute tab's form describes.
pub fn attribute_from_form(tab_data: u32, texts: &Vec<String>) -> (a: MapAttribute)
    requires
        tab_data < u32::MAX,
        tab_data + 1 == 3 ==> texts@.len() >= 1,
    ensures
        a == form_attribute(tab_data, texts@),
{
    let attribute = MapAttribute::convert_to_plain_enum(tab_data + 1);
    match attribute {
        MapAttribute::Warp(_, _, _, _, _) => {
            let mut mx: i32 = 0;
            let mut my: i32 = 0;
            let mut mg: u64 = 0;
            let mut tx: u32 = 0;
            let mut ty: u32 = 0;
            let mut index: usize = 0;
            while index < texts.len()
                invariant
                    index <= texts@.len(),
                    my == (if index > 1 { form_field(texts@, 1) as i32 } else { 0 }),
                    mg == (if index > 2 { form_field(texts@, 2) as u64 } else { 0 }),
                    tx == (if index > 3 { form_field(texts@, 3) as u32 } else { 0 }),
                    ty == (if index > 4 { form_field(texts@, 4) as u32 } else { 0 }),
                    mx == (if index > 5 { form_field(texts@, index - 1) as i32 }
                        else if index > 0 { form_field(texts@, 0) as i32 } else { 0 }),
                decreases texts@.len() - index,
            {
                let value = parse_or_zero(texts[index].as_str());
                match index {
                    1 => { my = #[verifier::truncate] (value as i32); },
                    2 => { mg = value as u64; },
                    3 => { tx = #[verifier::truncate] (value as u32); },
                    4 => { ty = #[verifier::truncate] (value as u32); },
                    _ => { mx = #[verifier::truncate] (value as i32); },
                }
                index = index + 1;
            }
            MapAttribute::Warp(mx, my, mg, tx, ty)
        },
        MapAttribute::Sign(_) => MapAttribute::Sign(texts[0].clone()),
        _ => attribute,
    }
}

} // verus!
