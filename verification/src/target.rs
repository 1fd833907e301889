use std::str::FromStr;
use url::ParseError;
use url::Position;
use url::Url;
use vstd::prelude::*;
use vstd::string::StringSliceAdditionalSpecFns;

verus! {

/// `Url` of the url crate, a parsed URL: carried as it is, nothing is
/// known of what it holds but through the functions below.
#[verifier::external_type_specification]
#[verifier::external_body]
pub struct ExUrl(Url);

/// `ParseError` of the url crate, the reason why a text is no URL: carried
/// as it is.
#[verifier::external_type_specification]
#[verifier::external_body]
pub struct ExParseError(ParseError);

/// What `Url::parse` makes of the text `input`.
pub uninterp spec fn url_parse(input: Seq<char>) -> Result<Url, ParseError>;

/// The host of `url` as `Url::host_str` gives it.
pub uninterp spec fn url_host(url: Url) -> Option<Seq<char>>;

/// What `url` holds from its path on: the path, the query and the fragment
/// with their delimiters.
pub uninterp spec fn url_from_path(url: Url) -> Seq<char>;

/// `Url::parse` of the url crate: the parsed URL or the error depends on
/// the text alone.
pub assume_specification[ Url::parse ](input: &str) -> (r: Result<Url, ParseError>)
    ensures
        r == url_parse(input@),
;

/// `Url::host_str` of the url crate: the host depends on the URL alone.
pub assume_specification<'a>[ Url::host_str ](url: &'a Url) -> (host: Option<&'a str>)
    ensures
        host matches Some(text) ==> url_host(*url) == Some(text@),
        host is None ==> url_host(*url) is None,
;

/// The slice of a `Url` from `Position::BeforePath` on, as the url crate
/// indexes it: it depends on the URL alone.
#[verifier::external_body]
pub(crate) fn from_path(url: &Url) -> (rest: &str)
    ensures
        rest@ == url_from_path(*url),
{
    &url[Position::BeforePath..]
}

/// The bytes of `http://`.
pub open spec fn http_scheme() -> Seq<u8> {
    seq![104u8, 116u8, 116u8, 112u8, 58u8, 47u8, 47u8]
}

/// The bytes of `https://`.
pub open spec fn https_scheme() -> Seq<u8> {
    seq![104u8, 116u8, 116u8, 112u8, 115u8, 58u8, 47u8, 47u8]
}

/// Whether the text begins with `http://` or with `https://`.
pub open spec fn has_scheme(s: &str) -> bool {
    http_scheme().is_prefix_of(s.spec_bytes()) || https_scheme().is_prefix_of(s.spec_bytes())
}

/// The text that is parsed for `s`: `s` itself where it names its scheme,
/// else `s` behind `http://`.
pub open spec fn lenient_text(s: &str) -> Seq<char> {
    if has_scheme(s) {
        s@
    } else {
        "http://"@ + s@
    }
}

/// Whether `bytes` begins with `prefix`.
fn starts_with(bytes: &[u8], prefix: &[u8]) -> (found: bool)
    ensures
        found == prefix@.is_prefix_of(bytes@),
{
    if bytes.len() < prefix.len() {
        return false;
    }
    let mut i: usize = 0;
    while i < prefix.len()
        invariant
            i <= prefix@.len() <= bytes@.len(),
            forall|j: int| 0 <= j < i ==> bytes@[j] == prefix@[j],
        decreases prefix@.len() - i,
    {
        if bytes[i] != prefix[i] {
            assert(bytes@.subrange(0, prefix@.len() as int)[i as int] != prefix@[i as int]);
            return false;
        }
        i += 1;
    }
    assert(bytes@.subrange(0, prefix@.len() as int) =~= prefix@);
    true
}

/// A target URL that may leave its scheme out.
#[derive(Debug)]
pub struct LenientUrl(pub Url);

impl LenientUrl {
    /// Parses `s` as a URL, as an `http` URL where it names no scheme.
    pub fn parse(s: &str) -> (r: Result<Self, String>)
        ensures
            match r {
                Ok(target) => url_parse(lenient_text(s)) == Ok::<Url, ParseError>(target.0),
                Err(message) => url_parse(lenient_text(s)) is Err && message@ == "invalid URL"@,
            },
    {
        let http: [u8; 7] = [104, 116, 116, 112, 58, 47, 47];
        let https: [u8; 8] = [104, 116, 116, 112, 115, 58, 47, 47];
        assert(http@ =~= http_scheme());
        assert(https@ =~= https_scheme());
        let bytes = s.as_bytes();
        let url: String = if !starts_with(bytes, http.as_slice()) && !starts_with(
            bytes,
            https.as_slice(),
        ) {
            let mut with_scheme = "http://".to_owned();
            with_scheme.append(s);
            with_scheme
        } else {
            s.to_owned()
        };
        match Url::parse(url.as_str()) {
            Ok(parsed) => Ok(LenientUrl(parsed)),
            Err(_) => Err("invalid URL".to_owned()),
        }
    }
}

impl FromStr for LenientUrl {
    type Err = String;

    /// See [`LenientUrl::parse`].
    fn from_str(s: &str) -> (r: Result<Self, Self::Err>)
        ensures
            match r {
                Ok(target) => url_parse(lenient_text(s)) == Ok::<Url, ParseError>(target.0),
                Err(message) => url_parse(lenient_text(s)) is Err && message@ == "invalid URL"@,
            },
    {
        LenientUrl::parse(s)
    }
}

} // verus!
