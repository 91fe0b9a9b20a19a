//! The error taxonomy of the dispatch engine.
//!
//! `NotMatchError` is the chain-continuation signal: a handler that does
//! not recognise a command declines with it, and the registry walks on.
//! Every other kind is a genuine failure and stops the walk.

use vstd::prelude::*;
use vstd::string::StringExecFns;
use crate::text::dec_spec;
use crate::text::u64_to_string;

verus! {

#[derive(Debug, PartialEq, Eq)]
pub enum Error {
    /// The caller supplied input the handler cannot process.
    ParamError(String),
    /// A collaborator call failed at the transport level.
    HttpError { status: u16, url: String, response: String },
    /// A collaborator answered with a malformed or unexpected shape.
    JsonError(String),
    /// A collaborator answer lacked a field the handler needs.
    ResultError(String),
    /// The command does not belong to this handler; the chain walk goes on.
    NotMatchError,
}

impl Error {
    /// The diagnostic line for this error, as the logs show it.
    pub open spec fn render_spec(&self) -> Seq<char> {
        match self {
            Error::ParamError(s) => "Invalid parameters: "@ + s@,
            Error::HttpError { status, url, response: _ } => "HTTP error "@ + dec_spec(
                *status as int,
            ) + ": "@ + url@,
            Error::JsonError(s) => "JSON parse error: "@ + s@,
            Error::ResultError(s) => "get error: "@ + s@,
            Error::NotMatchError => "not match"@,
        }
    }

    /// Renders the diagnostic line; internal detail for the logs, never
    /// for the RPC caller.
    pub fn render(&self) -> (r: String)
        ensures
            r@ == self.render_spec(),
    {
        match self {
            Error::ParamError(s) => {
                let mut r = String::from_str("Invalid parameters: ");
                r.append(s.as_str());
                r
            },
            Error::HttpError { status, url, response: _ } => {
                let mut r = String::from_str("HTTP error ");
                let digits = u64_to_string(*status as u64);
                r.append(digits.as_str());
                r.append(": ");
                r.append(url.as_str());
                r
            },
            Error::JsonError(s) => {
                let mut r = String::from_str("JSON parse error: ");
                r.append(s.as_str());
                r
            },
            Error::ResultError(s) => {
                let mut r = String::from_str("get error: ");
                r.append(s.as_str());
                r
            },
            Error::NotMatchError => String::from_str("not match"),
        }
    }
}

} // verus!
