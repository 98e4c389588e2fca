//! What this library reads of a parsed URL, and the two operations that it
//! leaves to the `url` crate: parsing an absolute URL and resolving a
//! reference against a base.
//!
//! Nothing is proved here about how a URL is parsed. The results of the
//! outside parser are given names, and the rest of the library is verified
//! for whatever values those names have.

use vstd::prelude::*;
use url::Url;

verus! {

/// The parts of an absolute URL that scope decisions depend on.
#[derive(Debug, Clone, PartialEq, Eq)]
pub struct UrlParts {
    /// The host as it is written in the normalised URL, if it has one.
    pub host: Option<String>,
    /// The path split at each `/` after the leading one; `None` for a URL
    /// that cannot be a base, whose path does not begin with `/`.
    pub segments: Option<Vec<String>>,
}

/// The mathematical value of a [`UrlParts`].
pub struct UrlPartsModel {
    pub host: Option<Seq<char>>,
    pub segments: Option<Seq<Seq<char>>>,
}

impl View for UrlParts {
    type V = UrlPartsModel;

    open spec fn view(&self) -> UrlPartsModel {
        UrlPartsModel {
            host: match self.host {
                Some(h) => Some(h@),
                None => None,
            },
            segments: match self.segments {
                Some(s) => Some(s.deep_view()),
                None => None,
            },
        }
    }
}

/// The mathematical value of an optional [`UrlParts`].
pub open spec fn parts_model(parts: Option<UrlParts>) -> Option<UrlPartsModel> {
    match parts {
        Some(p) => Some(p@),
        None => None,
    }
}

/// The characters of an optional string.
pub open spec fn joined_model(url: Option<String>) -> Option<Seq<char>> {
    match url {
        Some(u) => Some(u@),
        None => None,
    }
}

/// The parts of `input` read as an absolute URL, or `None` where the parser
/// refuses it.
pub uninterp spec fn url_parts(input: Seq<char>) -> Option<UrlPartsModel>;

/// The normalised URL that `reference` resolves to against `base`, or
/// `None` where `base` is no absolute URL or the resolution fails.
pub uninterp spec fn url_join(base: Seq<char>, reference: Seq<char>) -> Option<Seq<char>>;

/// Calls `url::Url::parse` on `input` and copies the host (`Url::host_str`)
/// and the path segments (`Url::path_segments`) out of the result.
///
/// Trusted: the contract only names the outcome `url_parts(input)`. It
/// claims that parsing depends on the input text alone, and nothing about
/// which texts parse or what their parts are.
#[verifier::external_body]
pub(crate) fn parse_url(input: &str) -> (r: Option<UrlParts>)
    ensures
        parts_model(r) == url_parts(input@),
{
    match Url::parse(input) {
        Ok(parsed) => Some(
            UrlParts {
                host: parsed.host_str().map(String::from),
                segments: parsed.path_segments().map(|split| split.map(String::from).collect()),
            },
        ),
        Err(_) => None,
    }
}

/// Calls `url::Url::parse` on `base` and `Url::join` with `reference` on the
/// result, and returns the joined URL as a string.
///
/// Trusted: the contract only names the outcome `url_join(base, reference)`.
/// It claims that the resolution depends on the two texts alone, and
/// nothing about when it succeeds or what it yields.
#[verifier::external_body]
pub(crate) fn join_url(base: &str, reference: &str) -> (r: Option<String>)
    ensures
        joined_model(r) == url_join(base@, reference@),
{
    match Url::parse(base) {
        Ok(parsed) => match parsed.join(reference) {
            Ok(joined) => Some(String::from(joined)),
            Err(_) => None,
        },
        Err(_) => None,
    }
}

} // verus!
