//! A noop sink.

use crate::message::PutTileResult;
use crate::tileconnector::Tileconnector;
use crate::tilesink::Tilesink;
use crate::uri::UriError;
use vstd::prelude::*;

verus! {

/// A sink that takes every tile and keeps none.
#[derive(Clone, Copy, Debug)]
pub struct NullSink {}

impl Tileconnector for NullSink {
    /// Whatever the URI, there is a sink.
    fn load(_uri: &str) -> (r: Result<Self, UriError>)
        ensures
            r is Ok,
    {
        Ok(NullSink {  })
    }
}

impl Tilesink for NullSink {
    /// Whatever the tile, it is taken.
    fn put_tile(&self, _z: u8, _x: u32, _y: u32, _data: Vec<u8>) -> (r: PutTileResult)
        ensures
            r is Ok,
    {
        Ok(())
    }
}

} // verus!
