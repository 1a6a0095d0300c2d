//! Frame validation and the decoded packet.
use vstd::prelude::*;

use crate::codec::{channels_parsing, decode_channels, lemma_decode_packed, payload_holds};
use crate::error::SbusError;
use crate::{CHANNEL_COUNT, CHANNEL_MAX, SBUS_FOOTER, SBUS_FOOTER_2, SBUS_FRAME_LENGTH, SBUS_HEADER};

verus! {

/// Status flags contained in an SBUS frame
#[derive(Debug, Clone, Copy, PartialEq, Eq, Structural)]
pub struct Flags {
    pub d1: bool,
    pub d2: bool,
    pub failsafe: bool,
    pub frame_lost: bool,
}

/// The flags that a flag byte carries: bit 0 is `d1`, bit 1 `d2`, bit 2
/// `frame_lost` and bit 3 `failsafe`; bits 4 to 7 are not read.
pub open spec fn flags_of(b: u8) -> Flags {
    Flags {
        d1: b & 0x01 != 0,
        d2: b & 0x02 != 0,
        failsafe: b & 0x08 != 0,
        frame_lost: b & 0x04 != 0,
    }
}

/// The flag byte that carries `f`, with bits 4 to 7 clear.
pub open spec fn flag_byte_of(f: Flags) -> u8 {
    let d1: u8 = if f.d1 { 0x01 } else { 0 };
    let d2: u8 = if f.d2 { 0x02 } else { 0 };
    let frame_lost: u8 = if f.frame_lost { 0x04 } else { 0 };
    let failsafe: u8 = if f.failsafe { 0x08 } else { 0 };
    d1 | d2 | frame_lost | failsafe
}

/// Four distinct bits, each set or clear, are read back one by one.
proof fn lemma_flag_bits(d1: u8, d2: u8, frame_lost: u8, failsafe: u8)
    by (bit_vector)
    requires
        d1 == 0 || d1 == 0x01,
        d2 == 0 || d2 == 0x02,
        frame_lost == 0 || frame_lost == 0x04,
        failsafe == 0 || failsafe == 0x08,
    ensures
        (d1 | d2 | frame_lost | failsafe) & 0x01 != 0 <==> d1 == 0x01,
        (d1 | d2 | frame_lost | failsafe) & 0x02 != 0 <==> d2 == 0x02,
        (d1 | d2 | frame_lost | failsafe) & 0x04 != 0 <==> frame_lost == 0x04,
        (d1 | d2 | frame_lost | failsafe) & 0x08 != 0 <==> failsafe == 0x08,
{
}

impl Flags {
    /// Reads the four status flags out of a flag byte.
    pub fn from_byte(flag_byte: u8) -> (r: Self)
        ensures
            r == flags_of(flag_byte),
    {
        Flags::from(flag_byte)
    }
}

impl From<u8> for Flags {
    fn from(flag_byte: u8) -> (r: Self)
        ensures
            r == flags_of(flag_byte),
    {
        assert((1u8 << 0u8) == 0x01u8 && (1u8 << 1u8) == 0x02u8 && (1u8 << 2u8) == 0x04u8 && (1u8
            << 3u8) == 0x08u8) by (bit_vector);
        Self {
            d1: (flag_byte & (1 << 0)) != 0,
            d2: (flag_byte & (1 << 1)) != 0,
            frame_lost: (flag_byte & (1 << 2)) != 0,
            failsafe: (flag_byte & (1 << 3)) != 0,
        }
    }
}

impl vstd::std_specs::convert::FromSpecImpl<u8> for Flags {
    open spec fn obeys_from_spec() -> bool {
        true
    }

    open spec fn from_spec(v: u8) -> Self {
        flags_of(v)
    }
}

/// The footer rule: a frame ends in `SBUS_FOOTER`, or in a byte whose low
/// nibble is `SBUS_FOOTER_2` (the alternate frame subtype).
pub open spec fn footer_ok(b: u8) -> bool {
    b == SBUS_FOOTER || b & 0x0F == SBUS_FOOTER_2
}

/// The outcome of validating a 25-byte frame: the header is checked first,
/// then the footer; each error carries the offending byte.
pub open spec fn frame_check(frame: Seq<u8>) -> Result<(), SbusError> {
    if frame[0] != SBUS_HEADER {
        Err(SbusError::InvalidHeader(frame[0]))
    } else if !footer_ok(frame[24]) {
        Err(SbusError::InvalidFooter(frame[24]))
    } else {
        Ok(())
    }
}

/// Represents a complete SBUS packet with channel data and flags
#[derive(Debug, Clone, Copy, PartialEq, Eq)]
pub struct SbusPacket {
    pub channels: [u16; 16],
    pub flags: Flags,
}

/// `p` is the packet that the 25-byte `frame` carries.
pub open spec fn is_packet_of(p: SbusPacket, frame: Seq<u8>) -> bool {
    &&& p.channels@ == decode_channels(frame)
    &&& p.flags == flags_of(frame[23])
}

impl SbusPacket {
    /// Creates a new SbusPacket from a raw 25-byte SBUS frame
    ///
    /// Returns the packet when header and footer are valid, and the
    /// validation error otherwise.
    pub fn from_array(buffer: &[u8; SBUS_FRAME_LENGTH]) -> (r: Result<Self, SbusError>)
        ensures
            r is Ok <==> frame_check(buffer@) is Ok,
            r matches Ok(p) ==> is_packet_of(p, buffer@),
            r matches Err(e) ==> frame_check(buffer@) == Err::<(), SbusError>(e),
    {
        match SbusPacket::validate_frame(buffer) {
            Err(e) => Err(e),
            Ok(()) => {
                let channels = channels_parsing(buffer);
                let flags = Flags::from_byte(buffer[23]);
                Ok(Self { channels, flags })
            },
        }
    }

    /// Validates if header and footer are set correctly
    pub fn validate_frame(frame_buf: &[u8; SBUS_FRAME_LENGTH]) -> (r: Result<(), SbusError>)
        ensures
            r == frame_check(frame_buf@),
            frame_buf@[0] != SBUS_HEADER ==> r == Err::<(), SbusError>(
                SbusError::InvalidHeader(frame_buf@[0]),
            ),
            frame_buf@[0] == SBUS_HEADER && !footer_ok(frame_buf@[24]) ==> r == Err::<
                (),
                SbusError,
            >(SbusError::InvalidFooter(frame_buf@[24])),
            frame_buf@[0] == SBUS_HEADER && footer_ok(frame_buf@[24]) ==> r is Ok,
    {
        let header = frame_buf[0];
        let footer = frame_buf[SBUS_FRAME_LENGTH - 1];

        if header != SBUS_HEADER {
            Err(SbusError::InvalidHeader(header))
        } else if footer != SBUS_FOOTER && footer & 0x0F != SBUS_FOOTER_2 {
            Err(SbusError::InvalidFooter(footer))
        } else {
            Ok(())
        }
    }
}

/// `frame` is the frame that carries `channels` and `flags`: header and
/// footer sentinels, the channels packed into the payload, and the flag byte.
pub open spec fn frame_holds(frame: Seq<u8>, channels: Seq<u16>, flags: Flags) -> bool {
    &&& frame.len() == 25
    &&& frame[0] == SBUS_HEADER
    &&& frame[24] == SBUS_FOOTER
    &&& payload_holds(frame, channels)
    &&& frame[23] == flag_byte_of(flags)
}

/// Round trip: a frame that carries channels within `0..=CHANNEL_MAX` and any
/// of the sixteen flag combinations passes validation and decodes to exactly
/// those channels and flags.
pub proof fn lemma_round_trip(frame: Seq<u8>, channels: Seq<u16>, flags: Flags)
    requires
        channels.len() == CHANNEL_COUNT,
        forall|c: int| 0 <= c < 16 ==> channels[c] <= CHANNEL_MAX,
        frame_holds(frame, channels, flags),
    ensures
        frame_check(frame) == Ok::<(), SbusError>(()),
        decode_channels(frame) == channels,
        flags_of(frame[23]) == flags,
{
    lemma_decode_packed(frame, channels);
    lemma_flag_bits(
        if flags.d1 { 0x01 } else { 0 },
        if flags.d2 { 0x02 } else { 0 },
        if flags.frame_lost { 0x04 } else { 0 },
        if flags.failsafe { 0x08 } else { 0 },
    );
}

} // verus!
