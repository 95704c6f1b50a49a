//! Tile connector API.

use crate::uri::UriError;
use vstd::prelude::*;

verus! {

/// A tile store that is set up from a URI.
pub trait Tileconnector: Sized {
    /// Loads the Tileconnector object associated with the specified `uri`.
    fn load(uri: &str) -> Result<Self, UriError>;
}

} // verus!
