//! Why a datagram was not decoded.

use vstd::prelude::*;

verus! {

/// The reasons for which decoding stops. Each is final: the same bytes fail
/// in the same way again.
#[derive(Clone, Copy, Debug, PartialEq, Eq)]
pub enum CodecError {
    /// The first byte is not the protocol's magic byte.
    InvalidMagic,
    /// The second byte names no known network.
    InvalidNetwork,
    /// The peer's range of versions and ours have no version in common.
    UnsupportedVersion,
    /// The message type is none that this codec knows.
    UnrecognizedMessageType,
    /// The message type belongs to the bootstrap family, which travels over a
    /// stream transport only.
    BootstrapOverUnsupportedTransport,
    /// The block type number is outside `2..=6`.
    UnrecognizedBlockType,
    /// A signature field does not have the form of a signature.
    MalformedSignature,
    /// A public key field does not have the form of a public key.
    MalformedPublicKey,
    /// The bytes end before the field that is due.
    UnexpectedEof,
}

impl CodecError {
    /// The error in words.
    pub open spec fn text(self) -> Seq<char> {
        match self {
            CodecError::InvalidMagic => "invalid magic number"@,
            CodecError::InvalidNetwork => "invalid network indicator"@,
            CodecError::UnsupportedVersion => "unsupported peer version"@,
            CodecError::UnrecognizedMessageType => "unrecognized message type"@,
            CodecError::BootstrapOverUnsupportedTransport => "bootstrap message sent over UDP"@,
            CodecError::UnrecognizedBlockType => "unrecognized block type"@,
            CodecError::MalformedSignature => "bad signature"@,
            CodecError::MalformedPublicKey => "bad pubkey"@,
            CodecError::UnexpectedEof => "failed to fill whole buffer"@,
        }
    }

    /// The error in words.
    pub fn message(&self) -> (text: &'static str)
        ensures
            text@ == self.text(),
    {
        match self {
            CodecError::InvalidMagic => "invalid magic number",
            CodecError::InvalidNetwork => "invalid network indicator",
            CodecError::UnsupportedVersion => "unsupported peer version",
            CodecError::UnrecognizedMessageType => "unrecognized message type",
            CodecError::BootstrapOverUnsupportedTransport => "bootstrap message sent over UDP",
            CodecError::UnrecognizedBlockType => "unrecognized block type",
            CodecError::MalformedSignature => "bad signature",
            CodecError::MalformedPublicKey => "bad pubkey",
            CodecError::UnexpectedEof => "failed to fill whole buffer",
        }
    }
}

} // verus!
