//! Drawing the map.
use vstd::prelude::*;

verus! {

/// The renderer that draws the map into a pixel buffer of the UI toolkit.
pub struct MapRenderer {}

} // verus!
