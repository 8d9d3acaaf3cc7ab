//! A directory listing library: field formatting, entry rendering and grid
//! layout, with the decisions of the directory walk.

pub mod text;
pub mod config;
pub mod style;
pub mod format;
pub mod entry;
pub mod layout;
pub mod utility;
