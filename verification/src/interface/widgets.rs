//! Widgets shared by the editor's windows.

pub mod checkbox;
