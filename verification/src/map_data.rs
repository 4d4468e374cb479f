//! Map coordinates, the stored form of a map's tile layers, and the
//! names under which maps are kept.

use vstd::prelude::*;
use crate::text::{format_triple, triple_key};

verus! {

/// A step from one map to a neighbouring one.
#[derive(Debug, PartialEq, Eq, Structural)]
pub enum Direction {
    North,
    South,
    East,
    West,
    NorthEast,
    NorthWest,
    SouthEast,
    SouthWest,
}

/// The direction of a linked map from its index in the map view
/// (1 top, 2 top right, 3 left, 4 right, 5 bottom left, 6 bottom,
/// 7 bottom right, anything else top left).
pub open spec fn direction_of_link(dir: usize) -> Direction {
    if dir == 1 { Direction::North }
    else if dir == 2 { Direction::NorthEast }
    else if dir == 3 { Direction::West }
    else if dir == 4 { Direction::East }
    else if dir == 5 { Direction::SouthWest }
    else if dir == 6 { Direction::South }
    else if dir == 7 { Direction::SouthEast }
    else { Direction::NorthWest }
}

/// The change of map x and map y that a direction makes.
pub open spec fn direction_step(d: Direction) -> (int, int) {
    match d {
        Direction::East => (1, 0),
        Direction::North => (0, 1),
        Direction::South => (0, -1),
        Direction::West => (-1, 0),
        Direction::NorthEast => (1, 1),
        Direction::NorthWest => (-1, 1),
        Direction::SouthEast => (1, -1),
        Direction::SouthWest => (-1, -1),
    }
}

/// The direction that leads back.
pub open spec fn opposite(d: Direction) -> Direction {
    match d {
        Direction::East => Direction::West,
        Direction::North => Direction::South,
        Direction::South => Direction::North,
        Direction::West => Direction::East,
        Direction::NorthEast => Direction::SouthWest,
        Direction::NorthWest => Direction::SouthEast,
        Direction::SouthEast => Direction::NorthWest,
        Direction::SouthWest => Direction::NorthEast,
    }
}

/// A step and the step back cancel.
pub proof fn lemma_step_back(d: Direction)
    ensures
        direction_step(d).0 + direction_step(opposite(d)).0 == 0,
        direction_step(d).1 + direction_step(opposite(d)).1 == 0,
{
}

/// One layer of a stored map: the texture ids of its 32 by 32 tiles,
/// row by row.
#[derive(Clone, Debug)]
pub struct Tile {
    pub id: Vec<u32>,
}

/// A stored map: eight tile layers.
#[derive(Clone, Debug)]
pub struct MapData {
    pub tile: Vec<Tile>,
}

/// A map of eight layers of 1024 tiles, every one of them empty.
pub open spec fn is_empty_map(m: MapData) -> bool {
    &&& m.tile@.len() == 8
    &&& forall|l: int| 0 <= l < 8 ==> (#[trigger] m.tile@[l]).id@ == Seq::new(1024, |i: int| 0u32)
}

impl MapData {
    /// A map whose eight layers hold 1024 empty tiles each.
    pub fn default() -> (m: Self)
        ensures
            is_empty_map(m),
    {
        let mut tile: Vec<Tile> = Vec::new();
        let mut layer: usize = 0;
        while layer < 8
            invariant
                layer <= 8,
                tile@.len() == layer,
                forall|l: int| 0 <= l < layer ==> (#[trigger] tile@[l]).id@ == Seq::new(1024, |i: int| 0u32),
            decreases 8 - layer,
        {
            let mut id: Vec<u32> = Vec::new();
            let mut i: usize = 0;
            while i < 1024
                invariant
                    i <= 1024,
                    id@ == Seq::new(i as nat, |j: int| 0u32),
                decreases 1024 - i,
            {
                id.push(0);
                i = i + 1;
                assert(id@ =~= Seq::new(i as nat, |j: int| 0u32));
            }
            tile.push(Tile { id });
            layer = layer + 1;
        }
        MapData { tile }
    }
}

/// The index of tile (x, y) in a layer stored row by row, 32 tiles a row.
pub fn get_tile_pos(x: i32, y: i32) -> (p: usize)
    requires
        i32::MIN <= y * 32 <= i32::MAX,
        i32::MIN <= x + y * 32 <= i32::MAX,
    ensures
        p == #[verifier::truncate] ((x + y * 32) as usize),
{
    #[verifier::truncate] ((x + (y * 32 as i32)) as usize)
}

pub fn convert_to_dir(dir: usize) -> (d: Direction)
    ensures
        d == direction_of_link(dir),
{
    match dir {
        1 => { Direction::North },
        2 => { Direction::NorthEast },
        3 => { Direction::West },
        4 => { Direction::East },
        5 => { Direction::SouthWest },
        6 => { Direction::South },
        7 => { Direction::SouthEast },
        _ => { Direction::NorthWest },
    }
}

/// The key `x_y_group` under which a loaded map is kept.
pub fn map_key(x: i32, y: i32, group: i32) -> (k: String)
    ensures
        k@ == triple_key(x as int, y as int, group as int),
{
    format_triple(x as i64, y as i64, group as i64)
}

/// The path of a map's file: `./data/maps/` and its key, then `.json`.
pub open spec fn map_path(x: int, y: int, group: int) -> Seq<char> {
    "./data/maps/"@ + triple_key(x, y, group) + ".json"@
}

/// The path of the file that stores map (x, y, group).
pub fn map_file_name(x: i32, y: i32, group: i32) -> (name: String)
    ensures
        name@ == map_path(x as int, y as int, group as int),
{
    let key = map_key(x, y, group);
    let mut name = String::from_str("./data/maps/");
    name.append(key.as_str());
    name.append(".json");
    name
}

} // verus!
