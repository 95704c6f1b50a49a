//! Where tiles lie in the filesystem.
//!
//! A file store keeps each tile in a file of its own below a base
//! directory: `z/x/y.ext`, or, in the safe layout, `z/xxx/xxx/yyy/yyy.ext`
//! with `x` and `y` split into thousands and units of three digits each, so
//! that no directory holds more than a thousand entries.

use crate::tileconnector::Tileconnector;
use crate::uri::{
    pairs_view, query_value, uri_fits, uri_parses, uri_path, uri_query_pairs, Uri, UriError,
};
use vstd::prelude::*;
use vstd::string::{StrSliceExecFns, StringExecFns};

verus! {

/// The digit for a number below ten.
pub open spec fn digit_char(d: nat) -> char {
    if d == 0 {
        '0'
    } else if d == 1 {
        '1'
    } else if d == 2 {
        '2'
    } else if d == 3 {
        '3'
    } else if d == 4 {
        '4'
    } else if d == 5 {
        '5'
    } else if d == 6 {
        '6'
    } else if d == 7 {
        '7'
    } else if d == 8 {
        '8'
    } else {
        '9'
    }
}

/// A number in decimal digits, without leading zeros.
pub open spec fn decimal(n: nat) -> Seq<char>
    decreases n,
{
    if n < 10 {
        seq![digit_char(n)]
    } else {
        decimal(n / 10).push(digit_char(n % 10))
    }
}

/// A number in decimal digits, with zeros in front up to three digits.
pub open spec fn decimal3(n: nat) -> Seq<char> {
    if n < 10 {
        seq!['0', '0'] + decimal(n)
    } else if n < 100 {
        seq!['0'] + decimal(n)
    } else {
        decimal(n)
    }
}

/// A path with one more segment: after a `/`, unless the path is empty or
/// ends in one.
pub open spec fn joined(base: Seq<char>, segment: Seq<char>) -> Seq<char> {
    if base.len() == 0 || base.last() == '/' {
        base + segment
    } else {
        base + seq!['/'] + segment
    }
}

/// The directories and the file name of a tile below `base`.
pub open spec fn tile_stem(base: Seq<char>, safe: bool, z: u8, x: u32, y: u32) -> Seq<char> {
    let dir = joined(base, decimal(z as nat));
    if safe {
        joined(
            joined(
                joined(joined(dir, decimal3((x / 1000) as nat)), decimal3((x % 1000) as nat)),
                decimal3((y / 1000) as nat),
            ),
            decimal3((y % 1000) as nat),
        )
    } else {
        joined(joined(dir, decimal(x as nat)), decimal(y as nat))
    }
}

/// The path of a tile's file: its stem, and after a `.` the extension if
/// there is one.
pub open spec fn tile_path(
    base: Seq<char>,
    safe: bool,
    z: u8,
    x: u32,
    y: u32,
    ext: Seq<char>,
) -> Seq<char> {
    let stem = tile_stem(base, safe, z, x, y);
    if ext.len() == 0 {
        stem
    } else {
        stem + seq!['.'] + ext
    }
}

/// A number in digits is not empty and does not end in `/`.
pub proof fn lemma_decimal_ends_in_digit(n: nat)
    ensures
        decimal(n).len() > 0,
        decimal(n).last() != '/',
        decimal3(n).len() >= 3,
        decimal3(n).last() == decimal(n).last(),
    decreases n,
{
    if n >= 10 {
        lemma_decimal_ends_in_digit(n / 10);
        if n < 100 {
            assert(decimal(n / 10) =~= seq![digit_char(n / 10)]);
        }
    }
}

fn digit(d: u32) -> (s: &'static str)
    requires
        d < 10,
    ensures
        s@ == seq![digit_char(d as nat)],
{
    proof {
        reveal_strlit("0");
        reveal_strlit("1");
        reveal_strlit("2");
        reveal_strlit("3");
        reveal_strlit("4");
        reveal_strlit("5");
        reveal_strlit("6");
        reveal_strlit("7");
        reveal_strlit("8");
        reveal_strlit("9");
    }
    let s = if d == 0 {
        "0"
    } else if d == 1 {
        "1"
    } else if d == 2 {
        "2"
    } else if d == 3 {
        "3"
    } else if d == 4 {
        "4"
    } else if d == 5 {
        "5"
    } else if d == 6 {
        "6"
    } else if d == 7 {
        "7"
    } else if d == 8 {
        "8"
    } else {
        "9"
    };
    assert(s@ =~= seq![digit_char(d as nat)]);
    s
}

/// Writes a number in decimal digits.
pub fn to_decimal(n: u32) -> (s: String)
    ensures
        s@ == decimal(n as nat),
{
    let mut rest: u32 = n / 10;
    let mut s = String::from_str(digit(n % 10));
    proof {
        if rest == 0 {
            assert(decimal(n as nat) =~= s@);
        } else {
            assert(decimal(n as nat) =~= decimal(rest as nat) + s@);
        }
    }
    while rest > 0
        invariant
            rest > 0 ==> decimal(n as nat) == decimal(rest as nat) + s@,
            rest == 0 ==> decimal(n as nat) == s@,
        decreases rest,
    {
        let d: u32 = rest % 10;
        let ghost before = s@;
        s = String::from_str(digit(d)).concat(s.as_str());
        proof {
            if rest < 10 {
                assert(decimal(rest as nat) + before =~= s@);
            } else {
                assert(decimal(rest as nat) + before =~= decimal((rest / 10) as nat) + s@);
            }
        }
        rest = rest / 10;
    }
    s
}

/// Writes a number in decimal digits, with zeros in front up to three
/// digits.
pub fn to_decimal3(n: u32) -> (s: String)
    ensures
        s@ == decimal3(n as nat),
{
    proof {
        reveal_strlit("00");
        reveal_strlit("0");
    }
    let digits = to_decimal(n);
    if n < 10 {
        let s = String::from_str("00").concat(digits.as_str());
        assert(s@ =~= seq!['0', '0'] + digits@);
        s
    } else if n < 100 {
        let s = String::from_str("0").concat(digits.as_str());
        assert(s@ =~= seq!['0'] + digits@);
        s
    } else {
        digits
    }
}

fn push_segment(path: &mut String, segment: &String, Ghost(n): Ghost<nat>)
    requires
        segment@ == decimal(n) || segment@ == decimal3(n),
        old(path)@.len() > 0,
        old(path)@.last() != '/',
    ensures
        final(path)@ == joined(old(path)@, segment@),
        final(path)@.len() > 0,
        final(path)@.last() != '/',
{
    proof {
        reveal_strlit("/");
        lemma_decimal_ends_in_digit(n);
    }
    path.append("/");
    path.append(segment.as_str());
    proof {
        assert(path@ =~= old(path)@ + seq!['/'] + segment@);
    }
}

/// A tile store in the filesystem.
#[derive(Debug)]
pub struct FileBackend {
    basepath: String,
    filetype: String,
    safe: bool,
}

/// A file store as a mathematical value.
pub struct FileBackendView {
    /// The directory below which the tiles lie.
    pub basepath: Seq<char>,
    /// The extension of the tiles' files.
    pub filetype: Seq<char>,
    /// Whether the tiles lie in the safe layout.
    pub safe: bool,
}

impl View for FileBackend {
    type V = FileBackendView;

    closed spec fn view(&self) -> FileBackendView {
        FileBackendView { basepath: self.basepath@, filetype: self.filetype@, safe: self.safe }
    }
}

/// The file store that a URI names: below the URI's path, with the file
/// type that the query gives to `filetype`, or `png` if it gives none, and
/// in the safe layout if the query gives `true` to `safe`.
pub open spec fn file_backend_of(
    path: Seq<char>,
    query: Seq<(Seq<char>, Seq<char>)>,
) -> FileBackendView {
    FileBackendView {
        basepath: path,
        filetype: match query_value(query, "filetype"@) {
            Some(t) => t,
            None => "png"@,
        },
        safe: query_value(query, "safe"@) == Some("true"@),
    }
}

impl FileBackend {
    /// Create FileBackend with base path and format information from `uri`.
    pub fn new(uri: &str) -> (r: Result<Self, UriError>)
        ensures
            r is Ok == (uri_fits(uri@) && uri_parses(uri@)),
            r matches Ok(backend) ==> backend@ == file_backend_of(
                uri_path(uri@),
                uri_query_pairs(uri@),
            ),
            r matches Err(e) ==> (e is TooLong) == !uri_fits(uri@),
    {
        match Uri::parse(uri) {
            Ok(parts) => Ok(FileBackend::from_parts(&parts)),
            Err(e) => Err(e),
        }
    }

    /// The file store that the parts of a URI name.
    pub fn from_parts(uri: &Uri) -> (backend: FileBackend)
        ensures
            backend@ == file_backend_of(uri.path@, pairs_view(uri.query@)),
    {
        let filetype = match uri.param("filetype") {
            Some(t) => t,
            None => String::from_str("png"),
        };
        let safe = match uri.param("safe") {
            Some(v) => v == String::from_str("true"),
            None => false,
        };
        FileBackend { basepath: uri.path.clone(), filetype, safe }
    }

    /// The directory below which the tiles lie.
    pub fn basepath(&self) -> (s: &String)
        ensures
            s@ == self@.basepath,
    {
        &self.basepath
    }

    /// The extension of the tiles' files.
    pub fn filetype(&self) -> (s: &String)
        ensures
            s@ == self@.filetype,
    {
        &self.filetype
    }

    /// Whether the tiles lie in the safe layout.
    pub fn safe(&self) -> (b: bool)
        ensures
            b == self@.safe,
    {
        self.safe
    }

    /// The path of the file that holds a tile, with `ext` for its
    /// extension.
    pub fn get_path(&self, z: u8, x: u32, y: u32, ext: &str) -> (path: String)
        ensures
            path@ == tile_path(self@.basepath, self@.safe, z, x, y, ext@),
    {
        let mut path = self.basepath.clone();
        let len: usize = self.basepath.as_str().unicode_len();
        let zs = to_decimal(z as u32);
        proof {
            reveal_strlit("/");
            reveal_strlit(".");
            lemma_decimal_ends_in_digit(z as nat);
        }
        if len > 0 && self.basepath.as_str().get_char(len - 1) != '/' {
            path.append("/");
        }
        path.append(zs.as_str());
        proof {
            assert(path@ =~= joined(self@.basepath, decimal(z as nat)));
        }
        if self.safe {
            push_segment(&mut path, &to_decimal3(x / 1000), Ghost((x / 1000) as nat));
            push_segment(&mut path, &to_decimal3(x % 1000), Ghost((x % 1000) as nat));
            push_segment(&mut path, &to_decimal3(y / 1000), Ghost((y / 1000) as nat));
            push_segment(&mut path, &to_decimal3(y % 1000), Ghost((y % 1000) as nat));
        } else {
            push_segment(&mut path, &to_decimal(x), Ghost(x as nat));
            push_segment(&mut path, &to_decimal(y), Ghost(y as nat));
        }
        if ext.unicode_len() > 0 {
            path.append(".");
            path.append(ext);
            proof {
                assert(path@ =~= tile_stem(self@.basepath, self@.safe, z, x, y) + seq!['.']
                    + ext@);
            }
        }
        path
    }
}

impl Tileconnector for FileBackend {
    /// Create FileBackend with base path and format information from `uri`.
    fn load(uri: &str) -> (r: Result<Self, UriError>)
        ensures
            r is Ok == (uri_fits(uri@) && uri_parses(uri@)),
            r matches Ok(backend) ==> backend@ == file_backend_of(
                uri_path(uri@),
                uri_query_pairs(uri@),
            ),
            r matches Err(e) ==> (e is TooLong) == !uri_fits(uri@),
    {
        FileBackend::new(uri)
    }
}

} // verus!
