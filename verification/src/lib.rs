//! Wire codec of the Nano peer-to-peer datagram protocol: message headers,
//! blocks, votes and node-identity handshakes, to and from bytes.

pub mod buffer;
pub mod codec;
pub mod cursor;
pub mod endian;
pub mod error;
pub mod keys;
pub mod laws;
pub mod types;
pub mod wire;

pub use crate::codec::NanoCurrencyCodec;
pub use crate::cursor::ByteCursor;
pub use crate::error::CodecError;
pub use crate::keys::{PublicKey, Signature};
pub use crate::types::{
    Account, Block, BlockHash, BlockHeader, BlockInner, Message, MessageHeader, Network, PeerAddr,
    Vote,
};
