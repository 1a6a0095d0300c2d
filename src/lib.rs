//! Decoding and encoding of SBUS frames.
//!
//! An SBUS frame is 25 bytes long:
//! - a header byte (`0x0F`),
//! - 22 bytes that carry 16 channels of 11 bits each, packed as one
//!   little-endian bitstream,
//! - a flag byte,
//! - a footer byte (`0x00`, or any byte whose low nibble is `0x04`).
use vstd::prelude::*;

pub mod codec;
pub mod error;
pub mod packet;
pub mod parser;
pub mod stream;

pub use codec::{channels_parsing, pack_channels};
pub use error::SbusError;
pub use packet::{Flags, SbusPacket};
pub use parser::{packet_from_read, Async, Blocking, Mode, Parser};
pub use stream::{SBusPacketParser, FLAG_MASK, MAX_PACKET_SIZE};

verus! {

/// The header byte that starts every frame.
pub const SBUS_HEADER: u8 = 0x0F;

/// The usual footer byte that ends a frame.
pub const SBUS_FOOTER: u8 = 0x00;

/// Low nibble of the alternate footer byte.
pub const SBUS_FOOTER_2: u8 = 0x04;

/// The length of a frame in bytes.
pub const SBUS_FRAME_LENGTH: usize = 25;

/// The number of channels in a frame.
pub const CHANNEL_COUNT: usize = 16;

/// The largest channel value: 11 bits.
pub const CHANNEL_MAX: u16 = 0x07FF;

} // verus!
