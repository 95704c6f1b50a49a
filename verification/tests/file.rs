use legeo::file::{to_decimal, to_decimal3, FileBackend};
use legeo::tileconnector::Tileconnector;
use legeo::uri::{fits, Uri, UriError};

#[test]
fn file_test_tile() {
    let backend = FileBackend::load("file:///tmp/legeo?filetype=txt").unwrap();
    let path = backend.get_path(3, 7, 7, backend.filetype());
    assert_eq!(path, "/tmp/legeo/3/7/7.txt");
    assert!(!backend.safe());
}

#[test]
fn file_test_tile_safe() {
    let backend = FileBackend::load("file:///tmp/legeo?safe=true&filetype=txt").unwrap();
    let path = backend.get_path(3, 7, 7, backend.filetype());
    assert_eq!(path, "/tmp/legeo/3/000/007/000/007.txt");
    assert!(backend.safe());
}

#[test]
fn file_backend_reads_its_uri() {
    let backend = FileBackend::new("file:///tmp/legeo?filetype=pbf").unwrap();
    assert_eq!(backend.basepath(), "/tmp/legeo");
    assert_eq!(backend.filetype(), "pbf");
    assert!(!backend.safe());
    let backend = FileBackend::new("file:///var/tiles/").unwrap();
    assert_eq!(backend.basepath(), "/var/tiles/");
    assert_eq!(backend.filetype(), "png");
    assert!(!backend.safe());
    let backend = FileBackend::new("file:///t?safe=false").unwrap();
    assert!(!backend.safe());
    let backend = FileBackend::new("file:///t?safe=TRUE").unwrap();
    assert!(!backend.safe());
    let backend = FileBackend::new("file:///t?safe=true").unwrap();
    assert!(backend.safe());
    assert_eq!(backend.filetype(), "png");
}

#[test]
fn file_backend_takes_the_last_value_of_a_key() {
    let backend =
        FileBackend::new("file:///t?filetype=png&safe=true&filetype=jpg&safe=no").unwrap();
    assert_eq!(backend.filetype(), "jpg");
    assert!(!backend.safe());
    let backend = FileBackend::new("file:///t?safe=no&safe=true&other=1").unwrap();
    assert!(backend.safe());
}

#[test]
fn file_backend_decodes_the_query() {
    let backend = FileBackend::new("file:///t?filetype=a%2Eb&saf%65=true").unwrap();
    assert_eq!(backend.filetype(), "a.b");
    assert!(backend.safe());
}

#[test]
fn file_backend_refuses_what_is_no_uri() {
    assert_eq!(
        FileBackend::new("/tmp/legeo").unwrap_err(),
        UriError::Invalid(url::ParseError::RelativeUrlWithoutBase)
    );
    assert_eq!(
        FileBackend::new("").unwrap_err(),
        UriError::Invalid(url::ParseError::RelativeUrlWithoutBase)
    );
    assert_eq!(
        FileBackend::load("http://[::1").unwrap_err(),
        UriError::Invalid(url::ParseError::InvalidIpv6Address)
    );
}

#[test]
fn file_backend_refuses_what_is_too_long() {
    let longest = format!("file:///{}", "a".repeat(634));
    assert!(fits(&longest));
    assert_eq!(FileBackend::new(&longest).unwrap().basepath().len(), 635);
    let longer = format!("file:///{}", "a".repeat(635));
    assert!(!fits(&longer));
    assert_eq!(FileBackend::new(&longer).unwrap_err(), UriError::TooLong);
    assert_eq!(FileBackend::load(&longer).unwrap_err(), UriError::TooLong);
    // refused unread: what is too long need not be a URI
    assert_eq!(FileBackend::new(&"a".repeat(5000)).unwrap_err(), UriError::TooLong);
}

#[test]
fn long_hosts_are_refused_unread() {
    // a host whose one label has 4000 characters, the last of them from
    // the highest plane
    let host = format!("file://{}\u{1062CD}/x", "a".repeat(3999));
    assert_eq!(Uri::parse(&host).unwrap_err(), UriError::TooLong);
    let host = format!("http://{}\u{1062CD}/x", "a".repeat(3999));
    assert_eq!(Uri::parse(&host).unwrap_err(), UriError::TooLong);
    // a host of few characters that are written out as many
    let host = format!("file://{}\u{1062CD}/x", "\u{FDFA}".repeat(222));
    assert_eq!(Uri::parse(&host).unwrap_err(), UriError::TooLong);
}

#[test]
fn texts_are_weighed() {
    assert!(fits(""));
    assert!(fits(&"a".repeat(642)));
    assert!(!fits(&"a".repeat(643)));
    assert!(fits(&"\u{e9}".repeat(71)));
    assert!(!fits(&"\u{e9}".repeat(72)));
    // 633 at 6 and one at 54 make 3852, one more at 6 makes 3858
    assert!(fits(&format!("{}\u{1F600}", "a".repeat(633))));
    assert!(!fits(&format!("{}\u{1F600}", "a".repeat(634))));
    assert!(fits(&format!("{}\u{7f}", "a".repeat(641))));
    assert!(!fits(&format!("{}\u{80}", "a".repeat(641))));
}

#[test]
fn uri_parse_reads_the_parts() {
    let uri = Uri::parse("MBTiles://localhost/tmp/w%20x.mbtiles?mode=ro&a=b+c#frag").unwrap();
    assert_eq!(uri.scheme, "mbtiles");
    assert_eq!(uri.path, "/tmp/w%20x.mbtiles");
    assert_eq!(
        uri.query,
        vec![("mode".to_string(), "ro".to_string()), ("a".to_string(), "b c".to_string())]
    );
    let uri = Uri::parse("file:///t\u{e9}").unwrap();
    assert_eq!(uri.path, "/t%C3%A9");
    assert!(uri.query.is_empty());
    assert_eq!(
        Uri::parse("//tmp").unwrap_err(),
        UriError::Invalid(url::ParseError::RelativeUrlWithoutBase)
    );
}

#[test]
fn file_backend_from_parts() {
    let uri = Uri {
        scheme: "file".to_string(),
        path: "/data".to_string(),
        query: vec![
            ("safe".to_string(), "true".to_string()),
            ("filetype".to_string(), "webp".to_string()),
        ],
    };
    let backend = FileBackend::from_parts(&uri);
    assert_eq!(backend.basepath(), "/data");
    assert_eq!(backend.filetype(), "webp");
    assert!(backend.safe());
    let bare = Uri { scheme: String::new(), path: String::new(), query: Vec::new() };
    let backend = FileBackend::from_parts(&bare);
    assert_eq!(backend.basepath(), "");
    assert_eq!(backend.filetype(), "png");
    assert!(!backend.safe());
}

#[test]
fn uri_param_is_the_last_of_its_key() {
    let uri = Uri {
        scheme: "x".to_string(),
        path: "/".to_string(),
        query: vec![
            ("a".to_string(), "1".to_string()),
            ("b".to_string(), "2".to_string()),
            ("a".to_string(), "3".to_string()),
            ("".to_string(), "4".to_string()),
        ],
    };
    assert_eq!(uri.param("a"), Some("3".to_string()));
    assert_eq!(uri.param("b"), Some("2".to_string()));
    assert_eq!(uri.param(""), Some("4".to_string()));
    assert_eq!(uri.param("c"), None);
    assert_eq!(uri.param("A"), None);
}

#[test]
fn paths_in_the_plain_layout() {
    let backend = FileBackend::new("file:///tmp/legeo?filetype=txt").unwrap();
    assert_eq!(backend.get_path(0, 0, 0, "png"), "/tmp/legeo/0/0/0.png");
    assert_eq!(backend.get_path(10, 486, 332, "pbf"), "/tmp/legeo/10/486/332.pbf");
    assert_eq!(
        backend.get_path(255, u32::MAX, u32::MAX, "x"),
        "/tmp/legeo/255/4294967295/4294967295.x"
    );
    assert_eq!(backend.get_path(3, 7, 7, ""), "/tmp/legeo/3/7/7");
    assert_eq!(backend.get_path(3, 1000, 100, "tar.gz"), "/tmp/legeo/3/1000/100.tar.gz");
}

#[test]
fn paths_in_the_safe_layout() {
    let backend = FileBackend::new("file:///tmp/legeo?safe=true").unwrap();
    assert_eq!(backend.get_path(0, 0, 0, "png"), "/tmp/legeo/0/000/000/000/000.png");
    assert_eq!(backend.get_path(12, 1234, 56, "png"), "/tmp/legeo/12/001/234/000/056.png");
    assert_eq!(
        backend.get_path(20, 999_999, 1_000_000, "png"),
        "/tmp/legeo/20/999/999/1000/000.png"
    );
    assert_eq!(
        backend.get_path(22, u32::MAX, 4_000_100, "png"),
        "/tmp/legeo/22/4294967/295/4000/100.png"
    );
    assert_eq!(backend.get_path(3, 7, 7, ""), "/tmp/legeo/3/000/007/000/007");
}

#[test]
fn paths_below_a_base_with_and_without_slash() {
    let slash = FileBackend::new("file:///tiles/").unwrap();
    assert_eq!(slash.get_path(1, 2, 3, "png"), "/tiles/1/2/3.png");
    let root = FileBackend::new("file:///").unwrap();
    assert_eq!(root.basepath(), "/");
    assert_eq!(root.get_path(1, 2, 3, "png"), "/1/2/3.png");
    let bare = FileBackend::from_parts(&Uri {
        scheme: "file".to_string(),
        path: String::new(),
        query: Vec::new(),
    });
    assert_eq!(bare.get_path(1, 2, 3, "png"), "1/2/3.png");
    let relative = FileBackend::new("file:tiles").unwrap();
    assert_eq!(relative.get_path(1, 2, 3, "png"), "/tiles/1/2/3.png");
}

#[test]
fn numbers_in_digits() {
    assert_eq!(to_decimal(0), "0");
    assert_eq!(to_decimal(7), "7");
    assert_eq!(to_decimal(10), "10");
    assert_eq!(to_decimal(1905), "1905");
    assert_eq!(to_decimal(u32::MAX), "4294967295");
    assert_eq!(to_decimal3(0), "000");
    assert_eq!(to_decimal3(7), "007");
    assert_eq!(to_decimal3(42), "042");
    assert_eq!(to_decimal3(99), "099");
    assert_eq!(to_decimal3(100), "100");
    assert_eq!(to_decimal3(999), "999");
    assert_eq!(to_decimal3(1000), "1000");
    for n in [0u32, 5, 9, 10, 11, 99, 100, 101, 999, 1000, 65_535, 1_000_000, u32::MAX - 1] {
        assert_eq!(to_decimal(n), n.to_string());
        assert_eq!(to_decimal3(n), format!("{:03}", n));
    }
}

#[test]
fn heavy_hosts_that_fit_are_read() {
    // hosts that are written out as long labels, and still fit
    let host = format!("http://{}\u{1062CD}/x", "\u{FDFA}".repeat(63));
    assert!(fits(&host));
    assert!(!matches!(Uri::parse(&host), Err(UriError::TooLong)));
    let host = format!("file://{}%F4%86%8B%8D/x", "%EF%B7%BA".repeat(69));
    assert!(fits(&host));
    assert!(!matches!(Uri::parse(&host), Err(UriError::TooLong)));
    let host = format!("http://{}\u{10FFFD}", "a".repeat(620));
    assert!(fits(&host));
    assert!(!matches!(Uri::parse(&host), Err(UriError::TooLong)));
    let host = format!("http://xn--{}/", "z".repeat(600));
    assert!(fits(&host));
    assert!(!matches!(Uri::parse(&host), Err(UriError::TooLong)));
}
