//! Tilesink trait API.

use crate::message::PutTileResult;
use vstd::prelude::*;

verus! {

/// Map tile destination.
pub trait Tilesink {
    /// Stores a tile into the data store. Parameters are in XYZ format.
    /// `data` must contain the compressed image.
    fn put_tile(&self, z: u8, x: u32, y: u32, data: Vec<u8>) -> PutTileResult;
}

} // verus!
