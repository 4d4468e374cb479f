//! Editing logic of a tile map editor: map attributes, tile layers,
//! flood fills, undo records, key bindings and the state of the
//! interface widgets.

pub mod text;
pub mod color;
pub mod attributes;
pub mod editor_attributes;
pub mod map_data;
pub mod recording;
pub mod region;
pub mod tile_map;
pub mod map_view;
pub mod editor_data;
pub mod keys;
pub mod interface;
pub mod texture;
pub mod resource;
pub mod tileset;
pub mod input;
pub mod map_input;
pub mod interface_input;
