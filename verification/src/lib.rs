//! Frame codec of the WebSocket wire protocol (RFC 6455): opcodes, the
//! variable-length header, payload masking and whole frames, each with a
//! machine-checked contract over a byte-sequence model.

pub mod endian;
pub mod error;
pub mod frame;
pub mod handshake;
pub mod header;
pub mod length;
pub mod mask;
pub mod message;
pub mod opcode;
