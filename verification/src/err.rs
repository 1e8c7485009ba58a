//! The error taxonomy of the library. Every failure is returned as a typed
//! outcome to the immediate caller; none is swallowed. `NoSuchEntity` is the
//! only variant that stands for an expected business outcome (a well-formed
//! query with a legitimately empty result); all others report a systemic
//! fault.

use vstd::prelude::*;

use crate::json::Json;

verus! {

#[derive(Debug, PartialEq)]
pub enum Error {
    /// Transport-level failure; carries the transport's message.
    Connection(String),
    /// The handshake with the backing store was rejected; carries the raw
    /// diagnostic payload.
    DatabaseLogin(Json),
    /// The query endpoint answered with a non-success HTTP status code.
    BadHttpStatus(u16),
    /// A well-formed query found no matching record.
    NoSuchEntity,
    /// A malformed or failed query response; carries the diagnostic payload.
    BadQuery(Json),
    /// An expected field was absent from an otherwise well-formed response;
    /// carries the field name.
    MissingData(String),
    /// An attempt to create a record under an identifier that already exists.
    IDExists(String),
    /// The memory-hard key-derivation function reported a failure.
    HashFailure,
    /// An input failed the injection-safety gate; carries the offending input.
    BadString(String),
}

} // verus!
