//! The state of the editor's interface widgets: which are hovered,
//! pressed or selected, and what each then shows.

pub mod tool_button;
pub mod button;
pub mod checkbox;
pub mod widgets;
pub mod dialog;
pub mod selection_box;
pub mod tabtext;
pub mod tileset_list;
pub mod scrollbar;
pub mod textbox;
pub mod panel;
pub mod tabs;
pub mod color_selection;
pub mod preference;
