//! The failure taxonomy of the library, and the one-line message each
//! failure prints.

use vstd::prelude::*;
use vstd::string::*;
use crate::text::{push_dec, spec_dec};

verus! {

/// Every way an operation of this library can fail.
pub enum Error {
    /// No configuration file was found: the user never logged in.
    NotLoggedIn,
    /// A configuration file exists but cannot be decoded; the text says
    /// what was wrong with it.
    InvalidConfig(String),
    /// An input was rejected before any request was made.
    Validation(String),
    /// The server answered 404 for the named thing.
    NotFound(String),
    /// The server answered outside the 2xx range.
    ApiFailure { context: String, status: u16, body: String },
    /// A success response body was not in the expected shape.
    ResponseDecode,
}

/// The message `Error::message` renders.
pub open spec fn spec_message(e: Error) -> Seq<char> {
    match e {
        Error::NotLoggedIn => "Not logged in. Run `moyn login` first."@,
        Error::InvalidConfig(m) => "Invalid config: "@ + m@,
        Error::Validation(m) => m@,
        Error::NotFound(m) => m@,
        Error::ApiFailure { context, status, body } => context@ + ": "@ + spec_dec(
            status as nat,
        ) + " - "@ + body@,
        Error::ResponseDecode => "Could not parse response"@,
    }
}

impl Error {
    /// The one-line text of this failure.
    pub fn message(&self) -> (r: String)
        ensures
            r@ == spec_message(*self),
    {
        match self {
            Error::NotLoggedIn => {
                let s = "Not logged in. Run `moyn login` first.";
                s.to_owned()
            },
            Error::InvalidConfig(m) => {
                let mut r = String::new();
                r.append("Invalid config: ");
                r.append(m.as_str());
                proof {
                    assert(r@ =~= spec_message(*self));
                }
                r
            },
            Error::Validation(m) => m.clone(),
            Error::NotFound(m) => m.clone(),
            Error::ApiFailure { context, status, body } => {
                let mut r = context.clone();
                r.append(": ");
                push_dec(&mut r, *status as u64);
                r.append(" - ");
                r.append(body.as_str());
                proof {
                    assert(r@ =~= spec_message(*self));
                }
                r
            },
            Error::ResponseDecode => {
                let s = "Could not parse response";
                s.to_owned()
            },
        }
    }
}

} // verus!
