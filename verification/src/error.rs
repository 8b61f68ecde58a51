//! The error taxonomy: every request-processing failure falls into one of a
//! small set of kinds, and each kind translates to exactly one HTTP status
//! and client-facing description.

use vstd::prelude::*;
use vstd::string::StringExecFns;

verus! {

/// A request-processing failure, classified so that it can be converted to
/// an HTTP response at the boundary of the handler chain.
#[derive(Debug)]
pub enum Error {
    /// A requested resource was not found.
    NotFound,
    /// An error regarding a request's parameters.
    BadRequest,
    /// Response encoding failed; carries the encoder's own description,
    /// which is retained for the log and never sent to the client.
    SerializationFailure(String),
}

impl Error {
    /// The HTTP status this failure translates to.
    pub open spec fn spec_status(self) -> u16 {
        match self {
            Error::BadRequest => 400,
            Error::NotFound => 404,
            Error::SerializationFailure(_) => 500,
        }
    }

    pub fn status(&self) -> (s: u16)
        ensures
            s == self.spec_status(),
    {
        match self {
            Error::BadRequest => 400,
            Error::NotFound => 404,
            Error::SerializationFailure(_) => 500,
        }
    }

    /// The client-facing description. For an encoding failure only a generic
    /// phrase is disclosed; the internal cause stays server-side.
    pub open spec fn spec_description(self) -> Seq<char> {
        match self {
            Error::NotFound => "Resource not found"@,
            Error::BadRequest => "Bad request"@,
            Error::SerializationFailure(_) => "Serialization failure"@,
        }
    }

    pub fn description(&self) -> (d: String)
        ensures
            d@ == self.spec_description(),
    {
        match self {
            Error::NotFound => String::from_str("Resource not found"),
            Error::BadRequest => String::from_str("Bad request"),
            Error::SerializationFailure(_) => String::from_str("Serialization failure"),
        }
    }

    /// The label naming this failure in the log line; an encoding failure
    /// keeps the underlying encoder's description there.
    pub open spec fn spec_log_label(self) -> Seq<char> {
        match self {
            Error::NotFound => "NotFound"@,
            Error::BadRequest => "BadRequest"@,
            Error::SerializationFailure(d) => "SerializationFailure("@ + d@ + ")"@,
        }
    }

    pub fn log_label(&self) -> (l: String)
        ensures
            l@ == self.spec_log_label(),
    {
        match self {
            Error::NotFound => String::from_str("NotFound"),
            Error::BadRequest => String::from_str("BadRequest"),
            Error::SerializationFailure(d) => {
                let mut s = String::from_str("SerializationFailure(");
                s.append(d.as_str());
                s.append(")");
                s
            },
        }
    }
}

} // verus!
