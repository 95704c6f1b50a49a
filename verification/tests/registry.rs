use legeo::message::TileError;
use legeo::null::NullSink;
use legeo::registry::{sink_kind, source_kind, SinkKind, SourceKind, TileInput, TileOutput};
use legeo::tileconnector::Tileconnector;
use legeo::tilesink::Tilesink;
use legeo::uri::UriError;

#[test]
fn source_kinds_by_scheme() {
    assert_eq!(source_kind(&"file".to_string()), SourceKind::File);
    assert_eq!(source_kind(&"mbtiles".to_string()), SourceKind::Mbtiles);
    assert_eq!(source_kind(&"null".to_string()), SourceKind::File);
    assert_eq!(source_kind(&"http".to_string()), SourceKind::File);
    assert_eq!(source_kind(&"MBTILES".to_string()), SourceKind::File);
    assert_eq!(source_kind(&String::new()), SourceKind::File);
}

#[test]
fn sink_kinds_by_scheme() {
    assert_eq!(sink_kind(&"file".to_string()), SinkKind::File);
    assert_eq!(sink_kind(&"null".to_string()), SinkKind::Null);
    assert_eq!(sink_kind(&"mbtiles".to_string()), SinkKind::Null);
    assert_eq!(sink_kind(&"files".to_string()), SinkKind::Null);
    assert_eq!(sink_kind(&String::new()), SinkKind::Null);
}

#[test]
fn tile_input_from_uri() {
    let input = TileInput::from_uri("file:///tmp/legeo?filetype=pbf".to_string());
    assert_eq!(input.uri(), "file:///tmp/legeo?filetype=pbf");
    assert_eq!(input.kind(), Ok(SourceKind::File));
    let input = TileInput::from_uri("mbtiles:///tmp/world.mbtiles?mode=ro".to_string());
    assert_eq!(input.kind(), Ok(SourceKind::Mbtiles));
    // the scheme of a URL is in lower case, however it is written
    let input = TileInput::from_uri("MBTiles:///tmp/world.mbtiles".to_string());
    assert_eq!(input.kind(), Ok(SourceKind::Mbtiles));
    let input = TileInput::from_uri("s3://bucket/tiles".to_string());
    assert_eq!(input.kind(), Ok(SourceKind::File));
    let input = TileInput::from_uri("no uri".to_string());
    assert_eq!(input.kind(), Err(UriError::Invalid(url::ParseError::RelativeUrlWithoutBase)));
    let input = TileInput::from_uri(format!("mbtiles:///{}", "w".repeat(700)));
    assert_eq!(input.kind(), Err(UriError::TooLong));
}

#[test]
fn tile_output_from_uri() {
    let output = TileOutput::from_uri("file:///tmp/legeoout?filetype=pbf".to_string());
    assert_eq!(output.uri(), "file:///tmp/legeoout?filetype=pbf");
    assert_eq!(output.kind(), Ok(SinkKind::File));
    let output = TileOutput::from_uri("null:".to_string());
    assert_eq!(output.kind(), Ok(SinkKind::Null));
    let output = TileOutput::from_uri("mbtiles:///tmp/world.mbtiles".to_string());
    assert_eq!(output.kind(), Ok(SinkKind::Null));
    let output = TileOutput::from_uri(String::new());
    assert_eq!(output.kind(), Err(UriError::Invalid(url::ParseError::RelativeUrlWithoutBase)));
    let output = TileOutput::from_uri(format!("file:///{}", "w".repeat(700)));
    assert_eq!(output.kind(), Err(UriError::TooLong));
}

#[test]
fn null_sink_takes_everything() {
    let sink = NullSink::load("null:").unwrap();
    assert_eq!(sink.put_tile(0, 0, 0, Vec::new()), Ok::<(), TileError>(()));
    assert_eq!(sink.put_tile(22, u32::MAX, u32::MAX, vec![1, 2, 3]), Ok(()));
    assert!(NullSink::load("not even a uri").is_ok());
}

#[test]
fn a_store_without_uri_is_a_permanent_fault() {
    assert_eq!(UriError::TooLong.tile_error(), TileError::PermanentIO);
    assert_eq!(
        UriError::Invalid(url::ParseError::EmptyHost).tile_error(),
        TileError::PermanentIO
    );
}
