use vstd::prelude::*;

verus! {

/// The error vocabulary of the whole pipeline. Every failure is terminal for
/// one invocation: no stage retries, each surfaces its error to the caller.
#[derive(Debug, Clone, Copy, PartialEq, Eq, Structural)]
pub enum Error {
    /// A query or backend returned no qualifying record.
    NotFound,
    /// The sprite field of a record was empty, or was JSON other than a string.
    InvalidSprite,
    /// The embedded sprite bundle has no entry for the normalized locator.
    MissingAsset,
    /// The sprite bytes did not decode as an image.
    DecodeError,
    /// Network or disk failure in a backend; raised by the callers that
    /// perform transport, never by the library itself.
    TransportError,
}

} // verus!
