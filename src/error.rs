use vstd::prelude::*;

verus! {

/// A frame-set whose layout is not the one of a message.
#[derive(Clone, Copy, Debug, PartialEq, Eq, Structural)]
pub enum ProtocolError {
    /// No frame equals the delimiter.
    MissingDelimiter,
    /// The frames after the delimiter are not one signature and four parts.
    InsufficientParts,
}

/// A frame-set whose signature does not authenticate its content.
#[derive(Clone, Copy, Debug, PartialEq, Eq, Structural)]
pub enum AuthError {
    /// The signature frame is not an even number of hexadecimal digits.
    MalformedSignature,
    /// The signature is not the digest of the content parts.
    SignatureMismatch,
}

/// One of the four content segments of a message.
#[derive(Clone, Copy, Debug, PartialEq, Eq, Structural)]
pub enum Segment {
    Header,
    ParentHeader,
    Metadata,
    Content,
}

/// A content segment that is not UTF-8 JSON text.
#[derive(Clone, Copy, Debug, PartialEq, Eq, Structural)]
pub enum ParseError {
    InvalidJson(Segment),
}

/// Why an inbound frame-set was not turned into a message.
#[derive(Clone, Copy, Debug, PartialEq, Eq, Structural)]
pub enum MessageError {
    Protocol(ProtocolError),
    Auth(AuthError),
    Parse(ParseError),
}

} // verus!
