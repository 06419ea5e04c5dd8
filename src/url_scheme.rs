//! Absolute URLs, held by their serialization, and the scheme check on seeds.

use vstd::prelude::*;
use crate::text::{has_prefix, starts_with};

verus! {

/// Why the url crate's parser refused an input.
#[derive(PartialEq, Eq, Structural, Debug, Clone, Copy)]
pub enum UrlError {
    /// The input is a relative reference and no base was given.
    RelativeUrlWithoutBase,
    /// Any other parse failure.
    Invalid,
}

/// What the url crate's parser makes of `input`: the serialization of the
/// absolute URL it reads, or why it failed.
pub uninterp spec fn url_parse_of(input: Seq<char>) -> Result<Seq<char>, UrlError>;

/// What the url crate makes of `href` joined onto the URL serialized as
/// `base`: the serialization of the result, if any.
pub uninterp spec fn url_join_of(base: Seq<char>, href: Seq<char>) -> Option<Seq<char>>;

/// Relies on `url::Url::parse`: it returns the parsed URL, which is kept by
/// its serialization, or a `ParseError` of which only the
/// `RelativeUrlWithoutBase` variant is told apart.
#[verifier::external_body]
fn parse_absolute(input: &str) -> (r: Result<String, UrlError>)
    ensures
        match r {
            Ok(s) => url_parse_of(input@) == Ok::<Seq<char>, UrlError>(s@),
            Err(e) => url_parse_of(input@) == Err::<Seq<char>, UrlError>(e),
        },
{
    match url::Url::parse(input) {
        Ok(url) => Ok(String::from(url)),
        Err(url::ParseError::RelativeUrlWithoutBase) => Err(UrlError::RelativeUrlWithoutBase),
        Err(_) => Err(UrlError::Invalid),
    }
}

/// Relies on `url::Url::join`: `href` resolved against the base URL (read
/// back from its serialization), kept by the serialization of the result.
#[verifier::external_body]
fn join_serialized(base: &str, href: &str) -> (r: Option<String>)
    ensures
        match r {
            Some(s) => url_join_of(base@, href@) == Some(s@),
            None => url_join_of(base@, href@) == None::<Seq<char>>,
        },
{
    match url::Url::parse(base) {
        Ok(base) => base.join(href).ok().map(String::from),
        Err(_) => None,
    }
}

/// An absolute URL, known by the serialization the url crate gives it.
/// Two URLs are the same URL exactly when their serializations are equal.
pub struct Url {
    serialization: String,
}

impl View for Url {
    type V = Seq<char>;

    closed spec fn view(&self) -> Seq<char> {
        self.serialization@
    }
}

/// The serializations of a sequence of URLs.
pub open spec fn url_views(urls: Seq<Url>) -> Seq<Seq<char>> {
    urls.map_values(|u: Url| u@)
}

impl Url {
    /// Parses an absolute URL.
    pub fn parse(input: &str) -> (r: Result<Url, UrlError>)
        ensures
            match r {
                Ok(u) => url_parse_of(input@) == Ok::<Seq<char>, UrlError>(u@),
                Err(e) => url_parse_of(input@) == Err::<Seq<char>, UrlError>(e),
            },
    {
        match parse_absolute(input) {
            Ok(s) => Ok(Url { serialization: s }),
            Err(e) => Err(e),
        }
    }

    /// Resolves `href` against this URL as a base.
    pub fn join(&self, href: &str) -> (r: Option<Url>)
        ensures
            match r {
                Some(u) => url_join_of(self@, href@) == Some(u@),
                None => url_join_of(self@, href@) == None::<Seq<char>>,
            },
    {
        match join_serialized(self.serialization.as_str(), href) {
            Some(s) => Some(Url { serialization: s }),
            None => None,
        }
    }

    /// The serialization of this URL.
    pub fn as_str(&self) -> (r: &str)
        ensures
            r@ == self@,
    {
        self.serialization.as_str()
    }

    /// A second value of the same URL.
    pub fn duplicate(&self) -> (r: Url)
        ensures
            r@ == self@,
    {
        Url { serialization: self.serialization.clone() }
    }

    /// Whether this is the same URL as `other`.
    pub fn same_as(&self, other: &Url) -> (r: bool)
        ensures
            r == (self@ == other@),
    {
        self.serialization == other.serialization
    }
}

/// The scheme of a serialized URL is everything before its first `:`, in
/// lower case, and a scheme never holds a `:`; so the scheme is `http` or
/// `https` exactly when the serialization starts with `http:` or `https:`.
pub open spec fn is_http_spec(url: Seq<char>) -> bool {
    has_prefix(url, seq!['h', 't', 't', 'p', ':']) || has_prefix(
        url,
        seq!['h', 't', 't', 'p', 's', ':'],
    )
}

/// Whether the URL's scheme is `http` or `https`.
pub fn is_http(url: &Url) -> (r: bool)
    ensures
        r == is_http_spec(url@),
{
    proof {
        reveal_strlit("http:");
        reveal_strlit("https:");
        assert("http:"@ =~= seq!['h', 't', 't', 'p', ':']);
        assert("https:"@ =~= seq!['h', 't', 't', 'p', 's', ':']);
    }
    starts_with(url.as_str(), "http:") || starts_with(url.as_str(), "https:")
}

} // verus!
