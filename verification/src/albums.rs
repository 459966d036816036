//! The album view: how tracks are grouped into albums, how albums are laid out
//! in rows of tiles, and what the view does on each event.

pub mod detail;
pub mod grid;
pub mod model;
pub mod regrouping;
pub mod tile;
pub mod view;
