//! A three-column, keyboard-driven file manager: the navigation model,
//! scrolling, command resolution, input editing, selection, transfers and tabs.
pub mod shift;
pub mod text;
pub mod path;
pub mod entry;
pub mod coloring;
pub mod input;
pub mod direntry;
pub mod right_column;
pub mod input_mode;
pub mod drawing;
pub mod context;
pub mod tab;
pub mod notification;
pub mod transfer;
pub mod spawn;
pub mod system;
