//! The ways in which a connection can fail the relay's protocol.

use vstd::prelude::*;

verus! {

/// Why the relay gives up on one connection. Neither reason touches any other
/// connection or the relay itself.
#[derive(Debug, Clone, Copy, PartialEq, Eq, Structural)]
pub enum RelayError {
    /// The connection did not keep to the order of the protocol: its first
    /// frame was not a connect value, or a later frame was not a message.
    ProtocolViolation,
    /// The bytes of a frame are not an encoding of the expected shape.
    MalformedPayload,
}

impl RelayError {
    /// The error's name as a text.
    pub open spec fn word(self) -> Seq<char> {
        match self {
            RelayError::ProtocolViolation => "protocol violation"@,
            RelayError::MalformedPayload => "malformed payload"@,
        }
    }

    /// A short text that names the error, for a log line.
    pub fn to_string(&self) -> (text: String)
        ensures
            text@ == self.word(),
    {
        match self {
            RelayError::ProtocolViolation => "protocol violation".to_owned(),
            RelayError::MalformedPayload => "malformed payload".to_owned(),
        }
    }
}

} // verus!
