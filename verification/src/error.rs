use vstd::prelude::*;
use serde_json::Error as JsonError;
use std::string::FromUtf8Error;

verus! {

/// Errors surfaced by the SDK.
#[derive(Debug, Clone)]
pub enum Error {
    /// The raw reply could not be handled as a tool call or message.
    Parse(String),
    /// A model request failed at the transport layer or returned a non-2xx
    /// HTTP status. The payload holds the request URL and, for HTTP
    /// failures, `HTTP <status>`.
    Http(String),
    /// Dispatch received a tool call with no registered tool.
    UnknownTool(String),
    /// A tool call's arguments do not have the shape the tool reads.
    InvalidArguments(String),
    /// Anything else.
    Other(String),
}

/// The mathematical value of an [`Error`]: its variant and its text.
pub enum ErrorView {
    Parse(Seq<char>),
    Http(Seq<char>),
    UnknownTool(Seq<char>),
    InvalidArguments(Seq<char>),
    Other(Seq<char>),
}

impl View for Error {
    type V = ErrorView;

    open spec fn view(&self) -> ErrorView {
        match self {
            Error::Parse(s) => ErrorView::Parse(s@),
            Error::Http(s) => ErrorView::Http(s@),
            Error::UnknownTool(s) => ErrorView::UnknownTool(s@),
            Error::InvalidArguments(s) => ErrorView::InvalidArguments(s@),
            Error::Other(s) => ErrorView::Other(s@),
        }
    }
}

/// The human-readable rendering of an error: a fixed prefix per variant,
/// followed by the payload.
pub open spec fn error_text(e: ErrorView) -> Seq<char> {
    match e {
        ErrorView::Parse(s) => "unparseable model reply: "@ + s,
        ErrorView::Http(s) => "model request failed: "@ + s,
        ErrorView::UnknownTool(s) => "unknown tool: "@ + s,
        ErrorView::InvalidArguments(s) => "invalid tool arguments: "@ + s,
        ErrorView::Other(s) => s,
    }
}

impl Error {
    /// Renders the error as text (the message a user sees).
    pub fn message(&self) -> (r: String)
        ensures
            r@ == error_text(self@),
    {
        match self {
            Error::Parse(s) => {
                let p = "unparseable model reply: ";
                proof { reveal_strlit("unparseable model reply: "); }
                String::from_str(p).concat(s.as_str())
            },
            Error::Http(s) => {
                let p = "model request failed: ";
                proof { reveal_strlit("model request failed: "); }
                String::from_str(p).concat(s.as_str())
            },
            Error::UnknownTool(s) => {
                let p = "unknown tool: ";
                proof { reveal_strlit("unknown tool: "); }
                String::from_str(p).concat(s.as_str())
            },
            Error::InvalidArguments(s) => {
                let p = "invalid tool arguments: ";
                proof { reveal_strlit("invalid tool arguments: "); }
                String::from_str(p).concat(s.as_str())
            },
            Error::Other(s) => s.clone(),
        }
    }
}

/// An error reported by `serde_json`.
#[verifier::external_type_specification]
#[verifier::external_body]
pub struct ExJsonError(JsonError);

/// An error reported when bytes are not UTF-8.
#[verifier::external_type_specification]
#[verifier::external_body]
pub struct ExFromUtf8Error(FromUtf8Error);

impl From<JsonError> for Error {
    /// A JSON error is a parse error carrying the JSON error's text.
    fn from(e: JsonError) -> (r: Error)
        ensures
            r matches Error::Parse(s) && vstd::string::to_string_from_display_ensures::<JsonError>(&e, s),
    {
        Error::Parse(e.to_string())
    }
}

impl vstd::std_specs::convert::FromSpecImpl<JsonError> for Error {
    open spec fn obeys_from_spec() -> bool {
        false
    }

    open spec fn from_spec(v: JsonError) -> Error {
        vstd::pervasive::arbitrary()
    }
}

impl From<FromUtf8Error> for Error {
    /// A UTF-8 error becomes `Error::Other` carrying its text.
    fn from(e: FromUtf8Error) -> (r: Error)
        ensures
            r matches Error::Other(s) && vstd::string::to_string_from_display_ensures::<FromUtf8Error>(&e, s),
    {
        Error::Other(e.to_string())
    }
}

impl vstd::std_specs::convert::FromSpecImpl<FromUtf8Error> for Error {
    open spec fn obeys_from_spec() -> bool {
        false
    }

    open spec fn from_spec(v: FromUtf8Error) -> Error {
        vstd::pervasive::arbitrary()
    }
}

} // verus!
