//! Tile bookkeeping for the dashboard's slippy map: which map tiles are
//! shown, which are being fetched, where each one is drawn, and how a
//! fetched tile becomes pixels.
use vstd::prelude::*;

pub mod coords;
pub mod order;
pub mod player;
pub mod render;
pub mod tile_image;
pub mod timer;
pub mod ui;
pub mod url;
pub mod world;
pub mod zoom;

verus! {

} // verus!
