//! Failed requests: how one is classified, and how it reads in the log.
//!
//! The transport itself is not part of this library. Its caller hands over
//! what it observed of a failure as plain values.

use vstd::prelude::*;
use vstd::string::*;

verus! {

/// The kinds of failure, in the order in which they are tested for.
#[derive(Debug, Clone, PartialEq, Eq)]
pub enum FetchErrorKind {
    /// The server answered with a status outside 2xx; holds the status as
    /// it is displayed, such as `404 Not Found`.
    HttpStatus(String),
    Timeout,
    Connect,
    Request,
    Unknown,
}

/// A failed request.
#[derive(Debug, Clone, PartialEq, Eq)]
pub struct FetchError {
    pub kind: FetchErrorKind,
    /// The URL that was asked for, where the transport knows it.
    pub url: Option<String>,
    /// The underlying cause, where there is one.
    pub cause: Option<String>,
}

/// The mathematical value of a [`FetchErrorKind`].
pub enum FetchErrorKindModel {
    HttpStatus(Seq<char>),
    Timeout,
    Connect,
    Request,
    Unknown,
}

/// The mathematical value of a [`FetchError`].
pub struct FetchErrorModel {
    pub kind: FetchErrorKindModel,
    pub url: Option<Seq<char>>,
    pub cause: Option<Seq<char>>,
}

/// The characters of an optional string.
pub open spec fn text_of(s: Option<String>) -> Option<Seq<char>> {
    match s {
        Some(t) => Some(t@),
        None => None,
    }
}

impl View for FetchErrorKind {
    type V = FetchErrorKindModel;

    open spec fn view(&self) -> FetchErrorKindModel {
        match *self {
            FetchErrorKind::HttpStatus(status) => FetchErrorKindModel::HttpStatus(status@),
            FetchErrorKind::Timeout => FetchErrorKindModel::Timeout,
            FetchErrorKind::Connect => FetchErrorKindModel::Connect,
            FetchErrorKind::Request => FetchErrorKindModel::Request,
            FetchErrorKind::Unknown => FetchErrorKindModel::Unknown,
        }
    }
}

impl View for FetchError {
    type V = FetchErrorModel;

    open spec fn view(&self) -> FetchErrorModel {
        FetchErrorModel { kind: self.kind@, url: text_of(self.url), cause: text_of(self.cause) }
    }
}

/// The kind of a failure of which the transport reports a status (or
/// none) and three flags. A status counts before a timeout, a timeout
/// before a connection failure, and that before a malformed request.
pub open spec fn kind_of(
    status: Option<Seq<char>>,
    timeout: bool,
    connect: bool,
    request: bool,
) -> FetchErrorKindModel {
    match status {
        Some(s) => FetchErrorKindModel::HttpStatus(s),
        None => if timeout {
            FetchErrorKindModel::Timeout
        } else if connect {
            FetchErrorKindModel::Connect
        } else if request {
            FetchErrorKindModel::Request
        } else {
            FetchErrorKindModel::Unknown
        },
    }
}

/// How a kind of failure reads.
pub open spec fn kind_text(kind: FetchErrorKindModel) -> Seq<char> {
    match kind {
        FetchErrorKindModel::HttpStatus(status) => "HTTP error: "@ + status,
        FetchErrorKindModel::Timeout => "Timeout error"@,
        FetchErrorKindModel::Connect => "Connection error"@,
        FetchErrorKindModel::Request => "Request error"@,
        FetchErrorKindModel::Unknown => "Unknown error"@,
    }
}

/// `label` followed by `part`, or nothing where there is no `part`.
pub open spec fn labelled(label: Seq<char>, part: Option<Seq<char>>) -> Seq<char> {
    match part {
        Some(p) => label + p,
        None => Seq::empty(),
    }
}

/// How a failure reads: its kind, then the URL and the cause where known.
pub open spec fn error_message(e: FetchErrorModel) -> Seq<char> {
    kind_text(e.kind) + labelled(" | URL: "@, e.url) + labelled(" | Caused by: "@, e.cause)
}

impl FetchError {
    /// Classifies a failure from what the transport reports of it.
    pub fn classify(
        status: Option<String>,
        timeout: bool,
        connect: bool,
        request: bool,
        url: Option<String>,
        cause: Option<String>,
    ) -> (e: FetchError)
        ensures
            e@.kind == kind_of(text_of(status), timeout, connect, request),
            e@.url == text_of(url),
            e@.cause == text_of(cause),
    {
        let kind = match status {
            Some(s) => FetchErrorKind::HttpStatus(s),
            None => if timeout {
                FetchErrorKind::Timeout
            } else if connect {
                FetchErrorKind::Connect
            } else if request {
                FetchErrorKind::Request
            } else {
                FetchErrorKind::Unknown
            },
        };
        FetchError { kind, url, cause }
    }
}

/// Appends `label` and `part` to `msg` where there is a `part`.
fn append_labelled(msg: &mut String, label: &str, part: &Option<String>)
    ensures
        final(msg)@ == old(msg)@ + labelled(label@, text_of(*part)),
{
    match part {
        Some(p) => {
            msg.append(label);
            msg.append(p.as_str());
        },
        None => {},
    }
}

/// Renders a failed request as one line for the log.
pub fn format_reqwest_error(e: &FetchError) -> (msg: String)
    ensures
        msg@ == error_message(e@),
{
    let mut msg = String::new();
    match &e.kind {
        FetchErrorKind::HttpStatus(status) => {
            msg.append("HTTP error: ");
            msg.append(status.as_str());
        },
        FetchErrorKind::Timeout => {
            msg.append("Timeout error");
        },
        FetchErrorKind::Connect => {
            msg.append("Connection error");
        },
        FetchErrorKind::Request => {
            msg.append("Request error");
        },
        FetchErrorKind::Unknown => {
            msg.append("Unknown error");
        },
    }
    append_labelled(&mut msg, " | URL: ", &e.url);
    append_labelled(&mut msg, " | Caused by: ", &e.cause);
    msg
}

} // verus!
