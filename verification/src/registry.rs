//! TileInput/TileOutput registry.
//!
//! The scheme of a URI says which kind of tile store it names. A scheme
//! that names none stands for the kind that its role falls back to.

use crate::uri::{uri_fits, uri_parses, uri_scheme, Uri, UriError};
use vstd::prelude::*;
use vstd::string::StringExecFns;

verus! {

/// The kinds of tile source.
#[derive(PartialEq, Eq, Structural, Clone, Copy, Debug)]
pub enum SourceKind {
    /// Tiles in files below a directory.
    File,
    /// Tiles in an MBTiles database.
    Mbtiles,
}

/// The kinds of tile sink.
#[derive(PartialEq, Eq, Structural, Clone, Copy, Debug)]
pub enum SinkKind {
    /// Tiles in files below a directory.
    File,
    /// Tiles are taken and dropped.
    Null,
}

/// The kind of source that a scheme names: `mbtiles` the database, `file`
/// and every other scheme the files.
pub open spec fn source_kind_of(scheme: Seq<char>) -> SourceKind {
    if scheme == "mbtiles"@ {
        SourceKind::Mbtiles
    } else {
        SourceKind::File
    }
}

/// The kind of sink that a scheme names: `file` the files, `null` and every
/// other scheme the sink that drops what it gets.
pub open spec fn sink_kind_of(scheme: Seq<char>) -> SinkKind {
    if scheme == "file"@ {
        SinkKind::File
    } else {
        SinkKind::Null
    }
}

/// The kind of source that a scheme names.
pub fn source_kind(scheme: &String) -> (kind: SourceKind)
    ensures
        kind == source_kind_of(scheme@),
{
    let mbtiles = String::from_str("mbtiles");
    if *scheme == mbtiles {
        SourceKind::Mbtiles
    } else {
        SourceKind::File
    }
}

/// The kind of sink that a scheme names.
pub fn sink_kind(scheme: &String) -> (kind: SinkKind)
    ensures
        kind == sink_kind_of(scheme@),
{
    let file = String::from_str("file");
    if *scheme == file {
        SinkKind::File
    } else {
        SinkKind::Null
    }
}

/// A tile source, named by its URI.
#[derive(Debug)]
pub struct TileInput {
    uri: String,
}

/// A tile sink, named by its URI.
#[derive(Debug)]
pub struct TileOutput {
    uri: String,
}

impl View for TileInput {
    type V = Seq<char>;

    closed spec fn view(&self) -> Seq<char> {
        self.uri@
    }
}

impl View for TileOutput {
    type V = Seq<char>;

    closed spec fn view(&self) -> Seq<char> {
        self.uri@
    }
}

impl TileInput {
    pub fn from_uri(uri: String) -> (input: TileInput)
        ensures
            input@ == uri@,
    {
        TileInput { uri }
    }

    /// The URI.
    pub fn uri(&self) -> (uri: &String)
        ensures
            uri@ == self@,
    {
        &self.uri
    }

    /// The kind of source that the URI names, or why it names none.
    pub fn kind(&self) -> (r: Result<SourceKind, UriError>)
        ensures
            r is Ok == (uri_fits(self@) && uri_parses(self@)),
            r matches Ok(kind) ==> kind == source_kind_of(uri_scheme(self@)),
            r matches Err(e) ==> (e is TooLong) == !uri_fits(self@),
    {
        match Uri::parse(self.uri.as_str()) {
            Ok(uri) => Ok(source_kind(&uri.scheme)),
            Err(e) => Err(e),
        }
    }
}

impl TileOutput {
    pub fn from_uri(uri: String) -> (output: TileOutput)
        ensures
            output@ == uri@,
    {
        TileOutput { uri }
    }

    /// The URI.
    pub fn uri(&self) -> (uri: &String)
        ensures
            uri@ == self@,
    {
        &self.uri
    }

    /// The kind of sink that the URI names, or why it names none.
    pub fn kind(&self) -> (r: Result<SinkKind, UriError>)
        ensures
            r is Ok == (uri_fits(self@) && uri_parses(self@)),
            r matches Ok(kind) ==> kind == sink_kind_of(uri_scheme(self@)),
            r matches Err(e) ==> (e is TooLong) == !uri_fits(self@),
    {
        match Uri::parse(self.uri.as_str()) {
            Ok(uri) => Ok(sink_kind(&uri.scheme)),
            Err(e) => Err(e),
        }
    }
}

} // verus!
