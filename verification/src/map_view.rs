//! The maps in view and what the editor lays over the main one: the
//! nine maps (the main one and its eight neighbours), the attribute of
//! each tile, the npc zones, and the undo and redo records.

pub mod tiles;
pub mod undo;
pub mod attribute_edit;
pub mod zone_edit;
pub mod tools;

use vstd::prelude::*;
use crate::color::Color;
use crate::editor_attributes::{MapAttribute, attribute_color, attribute_letter};
use crate::tile_map::{TileMap, empty_tiles};
use crate::recording::{Records, MAX_CHANGE};
use crate::map_view::undo::stacks_valid;
use crate::text::{field_value, parse_or_zero};

verus! {

/// The attribute shown on one tile of the main map: the attribute, the
/// colour of its overlay and the letter written on it.
pub struct MapAttributes {
    pub attribute: MapAttribute,
    pub color: Color,
    pub label: String,
}

/// The overlay shows the attribute it holds.
pub open spec fn shows_attribute(m: MapAttributes) -> bool {
    m.color == attribute_color(m.attribute) && m.label@ == attribute_letter(m.attribute)
}

impl MapAttributes {
    /// An overlay showing the given attribute.
    pub fn new(attribute: MapAttribute) -> (m: Self)
        ensures
            m.attribute == attribute,
            shows_attribute(m),
    {
        let color = MapAttribute::get_color(&attribute);
        let label = String::from_str(MapAttribute::as_map_str(&attribute));
        MapAttributes { attribute, color, label }
    }

    /// Puts an attribute on the tile, with its colour and letter.
    pub fn set_attribute(&mut self, attribute: MapAttribute)
        ensures
            final(self).attribute == attribute,
            shows_attribute(*final(self)),
    {
        self.color = MapAttribute::get_color(&attribute);
        self.label = String::from_str(MapAttribute::as_map_str(&attribute));
        self.attribute = attribute;
    }
}

/// The tile positions of one npc zone.
pub struct MapZone {
    pub pos: Vec<(u32, u32)>,
}

/// The npc settings of one zone: how many npcs at most and which ones.
#[derive(Clone, Copy)]
pub struct MapZoneSetting {
    pub max_npc: u64,
    pub npc_id: [Option<u64>; 5],
}

impl Default for MapZoneSetting {
    fn default() -> (s: Self)
        ensures
            s.max_npc == 0,
            forall|i: int| 0 <= i < 5 ==> (#[trigger] s.npc_id[i]) is None,
    {
        MapZoneSetting { max_npc: 0, npc_id: [None, None, None, None, None] }
    }
}

/// The overlay colour of npc zone number `zone_index`.
pub open spec fn zone_color(zone_index: usize) -> Color {
    if zone_index == 1 {
        Color { r: 200, g: 40, b: 40, alpha: 140 }
    } else if zone_index == 2 {
        Color { r: 40, g: 200, b: 40, alpha: 140 }
    } else if zone_index == 3 {
        Color { r: 150, g: 40, b: 150, alpha: 140 }
    } else if zone_index == 4 {
        Color { r: 40, g: 150, b: 150, alpha: 140 }
    } else {
        Color { r: 40, g: 40, b: 200, alpha: 140 }
    }
}

/// The overlay colour of npc zone number `zone_index`.
pub fn get_zone_color(zone_index: usize) -> (c: Color)
    ensures
        c == zone_color(zone_index),
{
    match zone_index {
        1 => Color::rgba(200, 40, 40, 140),
        2 => Color::rgba(40, 200, 40, 140),
        3 => Color::rgba(150, 40, 150, 140),
        4 => Color::rgba(40, 150, 150, 140),
        _ => Color::rgba(40, 40, 200, 140),
    }
}

/// The number of a tile of the main map: its x plus 32 times its y.
pub open spec fn tile_number(p: (u32, u32)) -> int {
    p.0 + p.1 * 32
}

/// The maps in view, the shade over each linked map, the selection
/// preview (the tile it starts on, the size of the selection, and how
/// many tiles of it lie on the map), the attribute and zone overlays of
/// the main map, the zones' npc settings, the weather and the undo
/// records.
pub struct MapView {
    pub maps: Vec<TileMap>,
    pub link_map_selection: Vec<Color>,
    pub preview_pos: (u32, u32),
    pub preview_size: (u32, u32),
    pub preview_extent: (u32, u32),
    pub map_attributes: Vec<MapAttributes>,
    pub map_zone: Vec<Color>,
    pub map_zone_loc: Vec<MapZone>,
    pub map_zone_setting: Vec<MapZoneSetting>,
    pub fixed_weather: u8,
    pub record: Records,
}

/// `after` keeps the linked maps' shades and the selection preview of
/// `before`.
pub open spec fn preview_kept(before: MapView, after: MapView) -> bool {
    &&& after.link_map_selection == before.link_map_selection
    &&& after.preview_pos == before.preview_pos
    &&& after.preview_size == before.preview_size
    &&& after.preview_extent == before.preview_extent
}

/// The shade over a linked map, under the pointer or not.
pub open spec fn link_shade(is_hover: bool) -> Color {
    if is_hover { Color { r: 0, g: 0, b: 0, alpha: 0 } } else { Color { r: 0, g: 0, b: 0, alpha: 130 } }
}

/// How many tiles of a selection of `size` tiles starting at tile `pos`
/// lie on the 32 tiles of a map's side.
pub open spec fn on_map_extent(pos: u32, size: u32) -> u32 {
    if pos + size > 32 { (32 - pos) as u32 } else { size }
}

impl MapView {
    /// Nine maps of eight layers of 1024 tiles, an attribute and a zone
    /// overlay for each of the 1024 tiles of the main map, five zones
    /// whose positions each number a tile, and five zone settings.
    pub open spec fn wf(&self) -> bool {
        &&& self.maps@.len() == 9
        &&& forall|i: int| 0 <= i < 9 ==> (#[trigger] self.maps@[i]).wf()
        &&& self.map_attributes@.len() == 1024
        &&& forall|i: int| 0 <= i < 1024 ==> shows_attribute(#[trigger] self.map_attributes@[i])
        &&& self.map_zone@.len() == 1024
        &&& self.map_zone_loc@.len() == 5
        &&& forall|z: int, k: int| 0 <= z < 5 && 0 <= k < self.map_zone_loc@[z].pos@.len()
            ==> tile_number(#[trigger] self.map_zone_loc@[z].pos@[k]) < 1024
        &&& self.map_zone_setting@.len() == 5
        &&& stacks_valid(self.record)
    }

    /// The undo record that changes go into, if one is open, lies in
    /// the undo stack.
    pub open spec fn record_ok(&self) -> bool {
        self.record.is_recording() && self.record.undo_stack().len() < MAX_CHANGE ==> self.record.undo_target_ok()
    }

    /// Nine empty maps shown on screen, every tile walkable with no zone,
    /// empty zones with default settings, no weather, no records.
    pub fn new(tilesize: u32) -> (v: Self)
        ensures
            v.wf(),
            v.record_ok(),
            forall|i: int| 0 <= i < 9 ==> {
                &&& (#[trigger] v.maps@[i]).tiles@ == empty_tiles()
                &&& v.maps@[i].filled_bound()
                &&& v.maps@[i].tilesize == tilesize
                &&& v.maps@[i].can_render
            },
            forall|i: int| 0 <= i < 1024 ==> (#[trigger] v.map_attributes@[i]).attribute == MapAttribute::Walkable,
            forall|i: int| 0 <= i < 1024 ==> #[trigger] v.map_zone@[i] == (Color { r: 0, g: 0, b: 0, alpha: 0 }),
            forall|z: int| 0 <= z < 5 ==> (#[trigger] v.map_zone_loc@[z]).pos@.len() == 0,
            forall|z: int| 0 <= z < 5 ==> (#[trigger] v.map_zone_setting@[z]).max_npc == 0,
            v.fixed_weather == 0,
            v.link_map_selection@.len() == 8,
            forall|i: int| 0 <= i < 8 ==> #[trigger] v.link_map_selection@[i] == link_shade(false),
            v.preview_pos == (0u32, 0u32),
            v.preview_size == (1u32, 1u32),
            v.preview_extent == (1u32, 1u32),
            !v.record.is_recording(),
            v.record.undo_stack().len() == 0,
            v.record.redo_stack().len() == 0,
    {
        let mut maps: Vec<TileMap> = Vec::new();
        let mut count: usize = 0;
        while count < 9
            invariant
                count <= 9,
                maps@.len() == count,
                forall|i: int| 0 <= i < count ==> {
                    &&& (#[trigger] maps@[i]).wf()
                    &&& maps@[i].tiles@ == empty_tiles()
                    &&& maps@[i].filled_bound()
                    &&& maps@[i].tilesize == tilesize
                    &&& maps@[i].can_render
                },
            decreases 9 - count,
        {
            let mut map = TileMap::new(tilesize);
            map.can_render = true;
            maps.push(map);
            count = count + 1;
        }

        let mut map_attributes: Vec<MapAttributes> = Vec::new();
        let mut map_zone: Vec<Color> = Vec::new();
        let mut i: usize = 0;
        while i < 1024
            invariant
                i <= 1024,
                map_attributes@.len() == i,
                map_zone@.len() == i,
                forall|j: int| 0 <= j < i ==> shows_attribute(#[trigger] map_attributes@[j])
                    && map_attributes@[j].attribute == MapAttribute::Walkable,
                forall|j: int| 0 <= j < i ==> #[trigger] map_zone@[j] == (Color { r: 0, g: 0, b: 0, alpha: 0 }),
            decreases 1024 - i,
        {
            map_attributes.push(MapAttributes::new(MapAttribute::Walkable));
            map_zone.push(Color::rgba(0, 0, 0, 0));
            i = i + 1;
        }

        let mut map_zone_loc: Vec<MapZone> = Vec::new();
        let mut map_zone_setting: Vec<MapZoneSetting> = Vec::new();
        let mut z: usize = 0;
        while z < 5
            invariant
                z <= 5,
                map_zone_loc@.len() == z,
                map_zone_setting@.len() == z,
                forall|j: int| 0 <= j < z ==> (#[trigger] map_zone_loc@[j]).pos@.len() == 0,
                forall|j: int| 0 <= j < z ==> (#[trigger] map_zone_setting@[j]).max_npc == 0,
            decreases 5 - z,
        {
            map_zone_loc.push(MapZone { pos: Vec::new() });
            map_zone_setting.push(MapZoneSetting::default());
            z = z + 1;
        }

        let mut link_map_selection: Vec<Color> = Vec::new();
        let mut k: usize = 0;
        while k < 8
            invariant
                k <= 8,
                link_map_selection@.len() == k,
                forall|j: int| 0 <= j < k ==> #[trigger] link_map_selection@[j] == link_shade(false),
            decreases 8 - k,
        {
            link_map_selection.push(Color::rgba(0, 0, 0, 130));
            k = k + 1;
        }

        MapView {
            maps,
            link_map_selection,
            preview_pos: (0, 0),
            preview_size: (1, 1),
            preview_extent: (1, 1),
            map_attributes,
            map_zone,
            map_zone_loc,
            map_zone_setting,
            fixed_weather: 0,
            record: Records::new(),
        }
    }
}


impl MapView {
    /// Takes what is typed in field `field` of the zone tab's form for
    /// zone `zone_index`: field 0 is the most npcs (a text that is not a
    /// number reads 0); field k above 0 is npc k's id, none when the field
    /// is empty.
    pub fn set_zone_setting(&mut self, zone_index: usize, field: usize, text: &str)
        requires
            old(self).wf(),
            zone_index < 5,
            field <= 5,
        ensures
            final(self).wf(),
            field == 0 ==> final(self).map_zone_setting@[zone_index as int]
                == (MapZoneSetting { max_npc: field_value(text@) as u64, ..old(self).map_zone_setting@[zone_index as int] }),
            field > 0 ==> final(self).map_zone_setting@[zone_index as int].max_npc
                == old(self).map_zone_setting@[zone_index as int].max_npc,
            field > 0 ==> final(self).map_zone_setting@[zone_index as int].npc_id@
                == old(self).map_zone_setting@[zone_index as int].npc_id@.update(field - 1,
                    if text@.len() > 0 { Some(field_value(text@) as u64) } else { None }),
            forall|z: int| 0 <= z < 5 && z != zone_index ==> #[trigger] final(self).map_zone_setting@[z] == old(self).map_zone_setting@[z],
            final(self).maps == old(self).maps,
            final(self).map_attributes == old(self).map_attributes,
            final(self).map_zone == old(self).map_zone,
            final(self).map_zone_loc == old(self).map_zone_loc,
            final(self).fixed_weather == old(self).fixed_weather,
            final(self).record == old(self).record,
    {
        let mut setting = self.map_zone_setting[zone_index];
        if field == 0 {
            setting.max_npc = parse_or_zero(text) as u64;
        } else if !text.is_empty() {
            setting.npc_id.set(field - 1, Some(parse_or_zero(text) as u64));
        } else {
            setting.npc_id.set(field - 1, None);
        }
        self.map_zone_setting.set(zone_index, setting);
    }
}

impl MapView {
    /// Shades every linked map but those under the pointer (`hits[i]` for
    /// linked map `i`), and returns the last one under it.
    pub fn hover_linked_selection(&mut self, hits: &Vec<bool>) -> (found: Option<usize>)
        requires
            hits@.len() == old(self).link_map_selection@.len(),
        ensures
            found == crate::interface::button::last_hit(hits@),
            final(self).link_map_selection@.len() == old(self).link_map_selection@.len(),
            forall|i: int| 0 <= i < hits@.len() ==> #[trigger] final(self).link_map_selection@[i] == link_shade(hits@[i]),
            *final(self) == (MapView { link_map_selection: final(self).link_map_selection, ..*old(self) }),
    {
        let n = self.link_map_selection.len();
        let mut i: usize = 0;
        while i < n
            invariant
                n == old(self).link_map_selection@.len(),
                hits@.len() == n,
                i <= n,
                self.link_map_selection@.len() == n,
                *self == (MapView { link_map_selection: self.link_map_selection, ..*old(self) }),
                forall|j: int| 0 <= j < i ==> #[trigger] self.link_map_selection@[j] == link_shade(hits@[j]),
            decreases n - i,
        {
            if hits[i] {
                self.link_map_selection.set(i, Color::rgba(0, 0, 0, 0));
            } else {
                self.link_map_selection.set(i, Color::rgba(0, 0, 0, 130));
            }
            i = i + 1;
        }
        crate::interface::button::find_last_hit(hits)
    }

    /// Fits the preview to the map: it covers the tiles of the selection
    /// that lie on the map.
    fn adjust_selection_preview(&mut self)
        requires
            old(self).preview_pos.0 < 32 && old(self).preview_pos.1 < 32,
        ensures
            final(self).preview_extent == (on_map_extent(old(self).preview_pos.0, old(self).preview_size.0),
                on_map_extent(old(self).preview_pos.1, old(self).preview_size.1)),
            *final(self) == (MapView { preview_extent: final(self).preview_extent, ..*old(self) }),
    {
        let w = if self.preview_size.0 > 32 - self.preview_pos.0 { 32 - self.preview_pos.0 } else { self.preview_size.0 };
        let h = if self.preview_size.1 > 32 - self.preview_pos.1 { 32 - self.preview_pos.1 } else { self.preview_size.1 };
        self.preview_extent = (w, h);
    }

    /// Moves the preview to tile `set_pos` when that is another tile of
    /// the map.
    pub fn hover_selection_preview(&mut self, set_pos: (u32, u32))
        requires
            old(self).preview_pos.0 < 32 && old(self).preview_pos.1 < 32,
        ensures
            final(self).preview_pos.0 < 32 && final(self).preview_pos.1 < 32,
            !((old(self).preview_pos.0 != set_pos.0 || old(self).preview_pos.1 != set_pos.1) && set_pos.0 < 32 && set_pos.1 < 32)
                ==> *final(self) == *old(self),
            (old(self).preview_pos.0 != set_pos.0 || old(self).preview_pos.1 != set_pos.1) && set_pos.0 < 32 && set_pos.1 < 32
                ==> *final(self) == (MapView {
                    preview_pos: set_pos,
                    preview_extent: (on_map_extent(set_pos.0, old(self).preview_size.0), on_map_extent(set_pos.1, old(self).preview_size.1)),
                    ..*old(self)
                }),
    {
        if (self.preview_pos.0 != set_pos.0 || self.preview_pos.1 != set_pos.1) && set_pos.0 < 32 && set_pos.1 < 32 {
            self.preview_pos = set_pos;
            self.adjust_selection_preview();
        }
    }

    /// Gives the preview the size of the selection, `size` tiles.
    pub fn change_selection_preview_size(&mut self, size: (u32, u32))
        requires
            old(self).preview_pos.0 < 32 && old(self).preview_pos.1 < 32,
        ensures
            *final(self) == (MapView {
                preview_size: size,
                preview_extent: (on_map_extent(old(self).preview_pos.0, size.0), on_map_extent(old(self).preview_pos.1, size.1)),
                ..*old(self)
            }),
    {
        self.preview_size = size;
        self.adjust_selection_preview();
    }
}

} // verus!
