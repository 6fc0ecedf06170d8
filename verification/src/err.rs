use vstd::prelude::*;

verus! {

/// The failure kinds this library surfaces. Every fallible operation
/// returns exactly one of these, and its contract says on which inputs.
#[derive(Clone, Copy, Debug, PartialEq, Eq, Structural)]
pub enum TydleError {
    /// Malformed video id, malformed URL, or missing required query keys.
    InvalidInput,
    /// Network or IO failure on an HTTP call.
    TransportError,
    /// JSON parse failure or unexpected shape.
    DecodeError,
    /// A required scraped blob is absent.
    DataMissing,
    /// No known pattern matched the player URL.
    PlayerIdentificationFailed,
    /// The solver returned a wrong shape or the embedded JS raised.
    DecipherFailed,
    /// The SAPISID authorization header could not be built.
    AuthError,
    /// Every client was tried and none yielded a player response.
    NoPlayerResponse,
}

pub open spec fn spec_describe(e: TydleError) -> Seq<char> {
    match e {
        TydleError::InvalidInput => "invalid input"@,
        TydleError::TransportError => "transport error"@,
        TydleError::DecodeError => "decode error"@,
        TydleError::DataMissing => "required data missing"@,
        TydleError::PlayerIdentificationFailed => "cannot identify player"@,
        TydleError::DecipherFailed => "signature deciphering failed"@,
        TydleError::AuthError => "authorization failed"@,
        TydleError::NoPlayerResponse => "failed to extract any player response"@,
    }
}

impl TydleError {
    /// A human-readable description of the failure.
    pub fn describe(&self) -> (r: &'static str)
        ensures
            r@ == spec_describe(*self),
    {
        match self {
            TydleError::InvalidInput => "invalid input",
            TydleError::TransportError => "transport error",
            TydleError::DecodeError => "decode error",
            TydleError::DataMissing => "required data missing",
            TydleError::PlayerIdentificationFailed => "cannot identify player",
            TydleError::DecipherFailed => "signature deciphering failed",
            TydleError::AuthError => "authorization failed",
            TydleError::NoPlayerResponse => "failed to extract any player response",
        }
    }
}

} // verus!
