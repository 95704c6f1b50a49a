//! URIs of tile stores.

use crate::message::TileError;
use vstd::prelude::*;
use vstd::string::{StrSliceExecFns, StringExecFns};

verus! {

/// `url::ParseError`: why a text is no URL. The library hands it on and
/// does not look inside.
#[verifier::external_type_specification]
#[verifier::external_body]
pub struct ExParseError(url::ParseError);

/// What a tile store reads from its URI.
#[derive(Debug)]
pub struct Uri {
    /// The scheme, without the `:` that ends it.
    pub scheme: String,
    /// The path.
    pub path: String,
    /// The pairs of key and value of the query, in the order in which they
    /// are written.
    pub query: Vec<(String, String)>,
}

/// Whether `url::Url::parse` accepts the text as an absolute URL.
pub uninterp spec fn uri_parses(uri: Seq<char>) -> bool;

/// What `url::Url::scheme` gives for the URL that the text is parsed to.
pub uninterp spec fn uri_scheme(uri: Seq<char>) -> Seq<char>;

/// What `url::Url::path` gives for the URL that the text is parsed to.
pub uninterp spec fn uri_path(uri: Seq<char>) -> Seq<char>;

/// What `url::Url::query_pairs` gives, pair after pair, for the URL that the
/// text is parsed to.
pub uninterp spec fn uri_query_pairs(uri: Seq<char>) -> Seq<(Seq<char>, Seq<char>)>;

/// The pairs of a query as mathematical values.
pub open spec fn pairs_view(pairs: Seq<(String, String)>) -> Seq<(Seq<char>, Seq<char>)> {
    pairs.map_values(|p: (String, String)| (p.0@, p.1@))
}

/// The most that a text may weigh to be parsed.
pub const MAX_URI_WEIGHT: u32 = 3855;

/// What a character of a URI weighs: the most characters that it can leave
/// in a label of the host.
///
/// A host is percent-decoded, mapped character by character and normalised
/// before it is written in punycode. A character that is not ASCII is
/// mapped to at most 18 characters, which normalising at most triples. An
/// ASCII character stays one character, or is a ninth of the escape of a
/// character that is mapped to 18.
pub open spec fn char_weight(c: char) -> nat {
    if (c as u32) < 128 {
        6
    } else {
        54
    }
}

/// What a text weighs: the sum of what its characters weigh.
pub open spec fn uri_weight(text: Seq<char>) -> nat
    decreases text.len(),
{
    if text.len() == 0 {
        0
    } else {
        uri_weight(text.drop_last()) + char_weight(text.last())
    }
}

/// True of the texts that are parsed: those that weigh no more than
/// `MAX_URI_WEIGHT`. Among them are the ASCII texts of up to 642 characters
/// and all texts of up to 71 characters.
pub open spec fn uri_fits(text: Seq<char>) -> bool {
    uri_weight(text) <= MAX_URI_WEIGHT
}

/// A text weighs at least six times and at most 54 times its length.
pub proof fn lemma_uri_weight_bounds(text: Seq<char>)
    ensures
        6 * text.len() <= uri_weight(text) <= 54 * text.len(),
    decreases text.len(),
{
    if text.len() > 0 {
        lemma_uri_weight_bounds(text.drop_last());
    }
}

/// Why a text names no tile store.
#[derive(Debug, PartialEq, Eq, Clone, Copy)]
pub enum UriError {
    /// The text weighs more than `MAX_URI_WEIGHT`.
    TooLong,
    /// The text is no URI.
    Invalid(url::ParseError),
}

impl UriError {
    /// What it means for a job that a store has no URI: a fault that will
    /// not pass.
    pub fn tile_error(&self) -> (e: TileError)
        ensures
            e == TileError::PermanentIO,
    {
        TileError::PermanentIO
    }
}

/// Parses the text with `url::Url::parse` and reads the URL that comes back
/// with `scheme`, `path` and `query_pairs`.
///
/// The text is accepted exactly if `url::Url::parse` accepts it; the error
/// is the one that it gives. The three parts are what the three methods
/// give, each pair of the query with key and value as owned strings.
///
/// Only texts that fit are handed over. `url::Url::parse` writes the labels
/// of a host in punycode, and the encoder of the `idna` crate counts in 32
/// bits: on a label of more than 3855 characters its count can pass the
/// largest number, at which a build that checks its arithmetic stops the
/// program. No label of a text that fits is that long.
#[verifier::external_body]
pub(crate) fn parse_uri(uri: &str) -> (r: Result<Uri, url::ParseError>)
    requires
        uri_fits(uri@),
    ensures
        r is Ok == uri_parses(uri@),
        r matches Ok(u) ==> u.scheme@ == uri_scheme(uri@),
        r matches Ok(u) ==> u.path@ == uri_path(uri@),
        r matches Ok(u) ==> pairs_view(u.query@) == uri_query_pairs(uri@),
{
    let url = url::Url::parse(uri)?;
    Ok(
        Uri {
            scheme: url.scheme().to_string(),
            path: url.path().to_string(),
            query: url.query_pairs().map(|(k, v)| (k.into_owned(), v.into_owned())).collect(),
        },
    )
}

/// True if the text weighs no more than `MAX_URI_WEIGHT`.
pub fn fits(text: &str) -> (r: bool)
    ensures
        r == uri_fits(text@),
{
    let n: usize = text.unicode_len();
    proof {
        lemma_uri_weight_bounds(text@);
    }
    if n > 642 {
        return false;
    }
    let mut weight: u32 = 0;
    let mut i: usize = 0;
    proof {
        assert(text@.take(0) =~= Seq::<char>::empty());
    }
    while i < n
        invariant
            n == text@.len(),
            n <= 642,
            i <= n,
            weight == uri_weight(text@.take(i as int)),
            weight <= 54 * i,
        decreases n - i,
    {
        let c: char = text.get_char(i);
        proof {
            assert(text@.take(i + 1).drop_last() =~= text@.take(i as int));
            assert(text@.take(i + 1).last() == text@[i as int]);
        }
        if (c as u32) < 128 {
            weight = weight + 6;
        } else {
            weight = weight + 54;
        }
        i = i + 1;
    }
    proof {
        assert(text@.take(n as int) =~= text@);
    }
    weight <= MAX_URI_WEIGHT
}

/// The value that a query gives to a key: that of the last pair with the
/// key, as a map filled pair by pair would hold it.
pub open spec fn query_value(
    pairs: Seq<(Seq<char>, Seq<char>)>,
    key: Seq<char>,
) -> Option<Seq<char>>
    decreases pairs.len(),
{
    if pairs.len() == 0 {
        None
    } else if pairs.last().0 == key {
        Some(pairs.last().1)
    } else {
        query_value(pairs.drop_last(), key)
    }
}

impl Uri {
    /// Reads the parts of a URI from a text.
    ///
    /// A text that does not fit is refused as too long, unread. A text that
    /// fits is parsed with `url::Url::parse`: it is refused if that refuses
    /// it, and else gives the scheme, the path and the pairs of the query of
    /// the URL that it is parsed to.
    pub fn parse(text: &str) -> (r: Result<Uri, UriError>)
        ensures
            r is Ok == (uri_fits(text@) && uri_parses(text@)),
            r matches Ok(u) ==> u.scheme@ == uri_scheme(text@) && u.path@ == uri_path(text@)
                && pairs_view(u.query@) == uri_query_pairs(text@),
            r matches Err(e) ==> (e is TooLong) == !uri_fits(text@),
    {
        if !fits(text) {
            return Err(UriError::TooLong);
        }
        match parse_uri(text) {
            Ok(uri) => Ok(uri),
            Err(e) => Err(UriError::Invalid(e)),
        }
    }

    /// The value that the query gives to `key`, if it gives one.
    pub fn param(&self, key: &str) -> (value: Option<String>)
        ensures
            value is Some == query_value(pairs_view(self.query@), key@) is Some,
            value matches Some(v) ==> Some(v@) == query_value(pairs_view(self.query@), key@),
    {
        let wanted = String::from_str(key);
        let mut value: Option<String> = None;
        let mut i: usize = 0;
        let ghost pairs = pairs_view(self.query@);
        proof {
            assert(pairs.take(0) =~= Seq::empty());
        }
        while i < self.query.len()
            invariant
                i <= self.query@.len(),
                pairs == pairs_view(self.query@),
                wanted@ == key@,
                value is Some == query_value(pairs.take(i as int), key@) is Some,
                value matches Some(v) ==> Some(v@) == query_value(pairs.take(i as int), key@),
            decreases self.query@.len() - i,
        {
            proof {
                assert(pairs.take(i + 1).drop_last() =~= pairs.take(i as int));
                assert(pairs.take(i + 1).last() == pairs[i as int]);
            }
            if self.query[i].0 == wanted {
                value = Some(self.query[i].1.clone());
            }
            i = i + 1;
        }
        proof {
            assert(pairs.take(i as int) =~= pairs);
        }
        value
    }
}

} // verus!
