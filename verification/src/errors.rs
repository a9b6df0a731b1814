//! The framework's error kinds. Trust failures (signature, guarantee,
//! expiration), protocol failures (malformed frames, unknown opcodes or
//! flags) and remote application failures are distinct, so a caller can tell
//! who rejected what.

use vstd::prelude::*;

verus! {

#[derive(Debug)]
pub enum Error {
    /// Trust: the envelope's signature does not verify against its guarantor.
    BadSignature,
    /// Trust: the envelope names a different guarantee than expected.
    GuaranteeMismatch,
    /// Trust: the envelope's expiration lies before the current time.
    Expired,
    /// Protocol: a frame is malformed or truncated.
    Malformed,
    /// Protocol: the stream begins with an opcode no route is declared for.
    UnknownOpcode { opcode: u8 },
    /// Protocol: a response flag with the ACK bit set but neither OK nor ERR.
    UnknownAckFlag { flag: u8 },
    /// Protocol: a response flag without the ACK bit.
    BadResultFlag { flag: u8 },
    /// The peer handled the request and reported a failure; the UTF-8 text
    /// of its message is carried as bytes.
    Remote { message: Vec<u8> },
    /// No address is cached for the requested account.
    AddressNotFound,
}

impl Error {
    /// Whether this is one of the trust failures, rejected before any
    /// application handler runs.
    pub open spec fn is_trust(&self) -> bool {
        self is BadSignature || self is GuaranteeMismatch || self is Expired
    }
}

} // verus!
