//! The boundary between verified decisions and the collaborator calls the
//! surrounding program performs.
//!
//! A handler that needs a collaborator answers with an `UpstreamRequest`;
//! the caller performs the call and feeds the outcome back as an
//! `UpstreamEvent`.  Both sides are plain values, so everything between
//! two calls is verified.

use vstd::prelude::*;

verus! {

/// One collaborator call, described as data.
#[derive(Debug, PartialEq, Eq)]
pub enum UpstreamRequest {
    /// A plain HTTP GET of the given URL.
    Get { url: String },
    /// An HTTP POST of a JSON body, with an authorization token.
    PostJson { url: String, token: String, body: String },
}

/// What came back from one collaborator call.
#[derive(Debug, PartialEq, Eq)]
pub enum UpstreamEvent {
    /// The response body, decoded as text.
    Body(String),
    /// The call failed at the transport level.
    Failure { status: u16, url: String, detail: String },
}

} // verus!
