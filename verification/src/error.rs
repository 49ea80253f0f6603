//! The one error type of the crate.
use vstd::prelude::*;

verus! {

/// Everything that can go wrong between a caller and a Warden service.
#[derive(Debug)]
pub enum WardenError {
    /// The proxy refused the call (403). The structured fields are those of the
    /// body where it has them; `raw` is the body word for word.
    Veto {
        intent_category: String,
        reasons: Vec<String>,
        review_reasons: Vec<String>,
        raw: String,
    },
    /// The service did not accept the caller's credentials (401).
    Unauthorized(String),
    /// The service did not understand the request (400).
    BadRequest(String),
    /// Any other status that is not a success, with the body.
    Server { status: u16, body: String },
    /// The client was set up with something that makes no URL.
    InvalidConfig(String),
    /// The request or the reply did not get through.
    Transport(reqwest::Error),
    /// The body of a successful reply is not the JSON that was expected.
    Decode(serde_json::Error),
}

impl From<reqwest::Error> for WardenError {
    /// A failure to get through is a transport error.
    fn from(e: reqwest::Error) -> (r: WardenError) {
        WardenError::Transport(e)
    }
}

impl vstd::std_specs::convert::FromSpecImpl<reqwest::Error> for WardenError {
    open spec fn obeys_from_spec() -> bool {
        true
    }

    open spec fn from_spec(e: reqwest::Error) -> WardenError {
        WardenError::Transport(e)
    }
}

} // verus!
