//! What an MBTiles store reads from its URI, and how it numbers its rows.

use crate::message::TileError;
use crate::uri::{
    pairs_view, query_value, uri_fits, uri_parses, uri_path, uri_query_pairs, Uri, UriError,
};
use vstd::arithmetic::power2::pow2;
use vstd::bits::{lemma_u32_pow2_no_overflow, lemma_u32_shl_is_mul};
use vstd::prelude::*;
use vstd::string::StringExecFns;

verus! {

/// How the database file is opened.
#[derive(PartialEq, Eq, Structural, Clone, Copy, Debug)]
pub enum OpenMode {
    /// `ro`: for reading.
    ReadOnly,
    /// `rw`: for reading and writing.
    ReadWrite,
    /// `rwc`: for reading and writing; the file is created if it is not
    /// there.
    ReadWriteCreate,
}

/// Why a URI names no MBTiles store.
#[derive(Debug)]
pub enum ConnectError {
    /// The text names no store.
    Uri(UriError),
    /// Only supports "ro", "rw", or "rwc" mode.
    Mode,
}

/// What an MBTiles store reads from its URI.
#[derive(Debug)]
pub struct MbtilesConfig {
    /// The database file.
    pub path: String,
    /// How to open it.
    pub mode: OpenMode,
}

/// The mode that a word names.
pub open spec fn open_mode_of(word: Seq<char>) -> Option<OpenMode> {
    if word == "ro"@ {
        Some(OpenMode::ReadOnly)
    } else if word == "rw"@ {
        Some(OpenMode::ReadWrite)
    } else if word == "rwc"@ {
        Some(OpenMode::ReadWriteCreate)
    } else {
        None
    }
}

/// The mode that a query asks for: the one that the value of `mode` names,
/// and `rwc` if the query gives `mode` no value.
pub open spec fn query_mode(query: Seq<(Seq<char>, Seq<char>)>) -> Option<OpenMode> {
    match query_value(query, "mode"@) {
        Some(word) => open_mode_of(word),
        None => Some(OpenMode::ReadWriteCreate),
    }
}

/// The mode that a word names, if it names one.
pub fn open_mode(word: &String) -> (mode: Option<OpenMode>)
    ensures
        mode == open_mode_of(word@),
{
    if *word == String::from_str("ro") {
        Some(OpenMode::ReadOnly)
    } else if *word == String::from_str("rw") {
        Some(OpenMode::ReadWrite)
    } else if *word == String::from_str("rwc") {
        Some(OpenMode::ReadWriteCreate)
    } else {
        None
    }
}

impl MbtilesConfig {
    /// Reads the database file and the mode from `uri`.
    pub fn new(uri: &str) -> (r: Result<MbtilesConfig, ConnectError>)
        ensures
            r is Ok == (uri_fits(uri@) && uri_parses(uri@) && query_mode(uri_query_pairs(uri@))
                is Some),
            r matches Ok(config) ==> config.path@ == uri_path(uri@) && Some(config.mode)
                == query_mode(uri_query_pairs(uri@)),
            r matches Err(e) ==> (e is Mode) == (uri_fits(uri@) && uri_parses(uri@)),
            r matches Err(ConnectError::Uri(e)) ==> (e is TooLong) == !uri_fits(uri@),
    {
        match Uri::parse(uri) {
            Ok(parts) => match MbtilesConfig::from_parts(&parts) {
                Some(config) => Ok(config),
                None => Err(ConnectError::Mode),
            },
            Err(e) => Err(ConnectError::Uri(e)),
        }
    }

    /// The database file and the mode that the parts of a URI name, unless
    /// the query asks for a mode that there is not.
    pub fn from_parts(uri: &Uri) -> (r: Option<MbtilesConfig>)
        ensures
            r is Some == query_mode(pairs_view(uri.query@)) is Some,
            r matches Some(config) ==> config.path@ == uri.path@ && Some(config.mode)
                == query_mode(pairs_view(uri.query@)),
    {
        let mode = match uri.param("mode") {
            Some(word) => open_mode(&word),
            None => Some(OpenMode::ReadWriteCreate),
        };
        match mode {
            Some(mode) => Some(MbtilesConfig { path: uri.path.clone(), mode }),
            None => None,
        }
    }
}

/// The row of the database that holds row `y` of the XYZ scheme at zoom
/// `z`: MBTiles files count rows from the other end. A level has `2^z`
/// rows; a row beyond them has no row in the database.
pub open spec fn tms_row_of(z: u8, y: u32) -> Option<u32> {
    if z < 32 && y < pow2(z as nat) {
        Some((pow2(z as nat) - 1 - y) as u32)
    } else {
        None
    }
}

/// Flips a Y coordinate, because MBTiles files are TMS. A row beyond the
/// level holds no tile: it is not found.
pub fn tms_row(z: u8, y: u32) -> (row: Result<u32, TileError>)
    ensures
        row is Ok == tms_row_of(z, y) is Some,
        row matches Ok(r) ==> Some(r) == tms_row_of(z, y),
        row matches Err(e) ==> e == TileError::NotFound,
{
    if z >= 32 {
        return Err(TileError::NotFound);
    }
    proof {
        lemma_u32_pow2_no_overflow(z as nat);
        lemma_u32_shl_is_mul(1, z as u32);
    }
    let rows: u32 = 1u32 << (z as u32);
    if y < rows {
        Ok(rows - 1 - y)
    } else {
        Err(TileError::NotFound)
    }
}

} // verus!
