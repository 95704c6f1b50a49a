//! Tilesource trait API.

use crate::message::GetTileResult;
use crate::tileconnector::Tileconnector;
use vstd::prelude::*;

verus! {

/// Map tile source.
pub trait Tilesource: Tileconnector {
    /// Reads a tile from the data store. Parameters are in XYZ format.
    fn get_tile(&self, z: u8, x: u32, y: u32) -> GetTileResult;
}

} // verus!
