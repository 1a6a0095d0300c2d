//! Packing of the sixteen 11-bit channels into the 22 payload bytes of a frame.
//!
//! The payload (frame bytes 1 to 22) is one 176-bit little-endian bitstream:
//! bit `k` of the stream is bit `k % 8` of payload byte `k / 8`, and channel
//! `c` is the 11-bit unsigned integer held in stream bits `11 * c` to
//! `11 * c + 10`, least significant bit first.
use vstd::prelude::*;

use crate::{CHANNEL_COUNT, CHANNEL_MAX, SBUS_FRAME_LENGTH};

verus! {

/// Byte `i` of the payload (frame byte `i + 1`); zero past the payload's end.
pub open spec fn payload_byte(frame: Seq<u8>, i: int) -> u8 {
    if 0 <= i < 22 {
        frame[i + 1]
    } else {
        0
    }
}

/// The 11 bits that start at bit `o` of the 24-bit little-endian word `lo`, `mid`, `hi`.
pub open spec fn window_bits(lo: u8, mid: u8, hi: u8, o: u32) -> u16 {
    ((((lo as u32) | ((mid as u32) << 8u32) | ((hi as u32) << 16u32)) >> o) & 0x7FFu32) as u16
}

/// Channel `c` of a frame: the 11 bits of the payload bitstream that start at bit `11 * c`.
pub open spec fn channel_value(frame: Seq<u8>, c: int) -> u16 {
    let i = (11 * c) / 8;
    window_bits(
        payload_byte(frame, i),
        payload_byte(frame, i + 1),
        payload_byte(frame, i + 2),
        ((11 * c) % 8) as u32,
    )
}

/// The sixteen channels of a frame, in order.
pub open spec fn decode_channels(frame: Seq<u8>) -> Seq<u16> {
    Seq::new(16, |c: int| channel_value(frame, c))
}

/// The payload of `frame` holds the low 11 bits of each of the sixteen `channels`.
pub open spec fn payload_holds(frame: Seq<u8>, channels: Seq<u16>) -> bool {
    forall|c: int| 0 <= c < 16 ==> channel_value(frame, c) == channels[c] & 0x7FF
}

/// A window of 11 bits holds at most `CHANNEL_MAX`.
proof fn lemma_window_bits_bound(lo: u8, mid: u8, hi: u8, o: u32)
    by (bit_vector)
    ensures
        window_bits(lo, mid, hi, o) <= 0x7FFu16,
{
}

/// Every channel value fits in 11 bits.
pub proof fn lemma_channel_value_bound(frame: Seq<u8>, c: int)
    ensures
        channel_value(frame, c) <= CHANNEL_MAX,
{
    let i = (11 * c) / 8;
    lemma_window_bits_bound(
        payload_byte(frame, i),
        payload_byte(frame, i + 1),
        payload_byte(frame, i + 2),
        ((11 * c) % 8) as u32,
    );
}

/// The shifts and masks that read eight consecutive channels out of eleven payload
/// bytes (`b11` is the byte after them) take the bits that `window_bits` describes.
proof fn lemma_read_eight(
    b0: u8, b1: u8, b2: u8, b3: u8, b4: u8, b5: u8,
    b6: u8, b7: u8, b8: u8, b9: u8, b10: u8, b11: u8,
)
    by (bit_vector)
    ensures
        ((b0 as u16) | ((b1 as u16) << 8u16)) & 0x7FFu16 == window_bits(b0, b1, b2, 0),
        (((b1 as u16) >> 3u16) | ((b2 as u16) << 5u16)) & 0x7FFu16 == window_bits(b1, b2, b3, 3),
        (((b2 as u16) >> 6u16) | ((b3 as u16) << 2u16) | ((b4 as u16) << 10u16)) & 0x7FFu16
            == window_bits(b2, b3, b4, 6),
        (((b4 as u16) >> 1u16) | ((b5 as u16) << 7u16)) & 0x7FFu16 == window_bits(b4, b5, b6, 1),
        (((b5 as u16) >> 4u16) | ((b6 as u16) << 4u16)) & 0x7FFu16 == window_bits(b5, b6, b7, 4),
        (((b6 as u16) >> 7u16) | ((b7 as u16) << 1u16) | ((b8 as u16) << 9u16)) & 0x7FFu16
            == window_bits(b6, b7, b8, 7),
        (((b8 as u16) >> 2u16) | ((b9 as u16) << 6u16)) & 0x7FFu16 == window_bits(b8, b9, b10, 2),
        (((b9 as u16) >> 5u16) | ((b10 as u16) << 3u16)) & 0x7FFu16 == window_bits(b9, b10, b11, 5),
{
}

/// Extracts the 16 channel values from the payload of a frame.
///
/// Each value is masked to 11 bits, so every byte value is a valid input.
pub fn channels_parsing(buffer: &[u8; SBUS_FRAME_LENGTH]) -> (r: [u16; CHANNEL_COUNT])
    ensures
        r@ == decode_channels(buffer@),
        forall|c: int| 0 <= c < 16 ==> r[c] <= CHANNEL_MAX,
{
    let r = [
        ((buffer[1] as u16) | ((buffer[2] as u16) << 8)) & CHANNEL_MAX,
        (((buffer[2] as u16) >> 3) | ((buffer[3] as u16) << 5)) & CHANNEL_MAX,
        (((buffer[3] as u16) >> 6) | ((buffer[4] as u16) << 2) | ((buffer[5] as u16) << 10))
            & CHANNEL_MAX,
        (((buffer[5] as u16) >> 1) | ((buffer[6] as u16) << 7)) & CHANNEL_MAX,
        (((buffer[6] as u16) >> 4) | ((buffer[7] as u16) << 4)) & CHANNEL_MAX,
        (((buffer[7] as u16) >> 7) | ((buffer[8] as u16) << 1) | ((buffer[9] as u16) << 9))
            & CHANNEL_MAX,
        (((buffer[9] as u16) >> 2) | ((buffer[10] as u16) << 6)) & CHANNEL_MAX,
        (((buffer[10] as u16) >> 5) | ((buffer[11] as u16) << 3)) & CHANNEL_MAX,
        ((buffer[12] as u16) | ((buffer[13] as u16) << 8)) & CHANNEL_MAX,
        (((buffer[13] as u16) >> 3) | ((buffer[14] as u16) << 5)) & CHANNEL_MAX,
        (((buffer[14] as u16) >> 6) | ((buffer[15] as u16) << 2) | ((buffer[16] as u16) << 10))
            & CHANNEL_MAX,
        (((buffer[16] as u16) >> 1) | ((buffer[17] as u16) << 7)) & CHANNEL_MAX,
        (((buffer[17] as u16) >> 4) | ((buffer[18] as u16) << 4)) & CHANNEL_MAX,
        (((buffer[18] as u16) >> 7) | ((buffer[19] as u16) << 1) | ((buffer[20] as u16) << 9))
            & CHANNEL_MAX,
        (((buffer[20] as u16) >> 2) | ((buffer[21] as u16) << 6)) & CHANNEL_MAX,
        (((buffer[21] as u16) >> 5) | ((buffer[22] as u16) << 3)) & CHANNEL_MAX,
    ];
    proof {
        let f = buffer@;
        lemma_read_eight(f[1], f[2], f[3], f[4], f[5], f[6], f[7], f[8], f[9], f[10], f[11], f[12]);
        lemma_read_eight(f[12], f[13], f[14], f[15], f[16], f[17], f[18], f[19], f[20], f[21], f[22], 0);
        assert(r@ =~= decode_channels(f));
        assert forall|c: int| 0 <= c < 16 implies r[c] <= CHANNEL_MAX by {
            lemma_channel_value_bound(f, c);
        }
    }
    r
}

/// The shifts and masks that pack eight consecutive channels into eleven payload bytes
/// put each channel's low 11 bits where `window_bits` reads them back (`b11` is the byte
/// after them).
proof fn lemma_write_eight(
    a0: u16, a1: u16, a2: u16, a3: u16, a4: u16, a5: u16, a6: u16, a7: u16,
    b0: u8, b1: u8, b2: u8, b3: u8, b4: u8, b5: u8,
    b6: u8, b7: u8, b8: u8, b9: u8, b10: u8, b11: u8,
)
    by (bit_vector)
    requires
        b0 == (a0 & 0xFFu16) as u8,
        b1 == (((a0 >> 8u16) & 0x07u16) as u8) | (((a1 & 0x1Fu16) << 3u16) as u8),
        b2 == (((a1 >> 5u16) & 0x3Fu16) as u8) | (((a2 & 0x03u16) << 6u16) as u8),
        b3 == ((a2 >> 2u16) & 0xFFu16) as u8,
        b4 == (((a2 >> 10u16) & 0x01u16) as u8) | (((a3 & 0x7Fu16) << 1u16) as u8),
        b5 == (((a3 >> 7u16) & 0x0Fu16) as u8) | (((a4 & 0x0Fu16) << 4u16) as u8),
        b6 == (((a4 >> 4u16) & 0x7Fu16) as u8) | (((a5 & 0x01u16) << 7u16) as u8),
        b7 == ((a5 >> 1u16) & 0xFFu16) as u8,
        b8 == (((a5 >> 9u16) & 0x03u16) as u8) | (((a6 & 0x3Fu16) << 2u16) as u8),
        b9 == (((a6 >> 6u16) & 0x1Fu16) as u8) | (((a7 & 0x07u16) << 5u16) as u8),
        b10 == ((a7 >> 3u16) & 0xFFu16) as u8,
    ensures
        window_bits(b0, b1, b2, 0) == a0 & 0x7FFu16,
        window_bits(b1, b2, b3, 3) == a1 & 0x7FFu16,
        window_bits(b2, b3, b4, 6) == a2 & 0x7FFu16,
        window_bits(b4, b5, b6, 1) == a3 & 0x7FFu16,
        window_bits(b5, b6, b7, 4) == a4 & 0x7FFu16,
        window_bits(b6, b7, b8, 7) == a5 & 0x7FFu16,
        window_bits(b8, b9, b10, 2) == a6 & 0x7FFu16,
        window_bits(b9, b10, b11, 5) == a7 & 0x7FFu16,
{
}

/// Packs the low 11 bits of each channel into the payload of `buffer`.
///
/// Payload and flag byte (bytes 1 to 23) are zeroed first; header and footer
/// are left as they are. A value above `CHANNEL_MAX` is truncated to its low
/// 11 bits, not saturated.
pub fn pack_channels(buffer: &mut [u8; SBUS_FRAME_LENGTH], channels: &[u16; CHANNEL_COUNT])
    ensures
        final(buffer)@[0] == old(buffer)@[0],
        final(buffer)@[24] == old(buffer)@[24],
        final(buffer)@[23] == 0,
        payload_holds(final(buffer)@, channels@),
{
    let mut i: usize = 1;
    while i < SBUS_FRAME_LENGTH - 1
        invariant
            1 <= i <= SBUS_FRAME_LENGTH - 1,
            buffer@[0] == old(buffer)@[0],
            buffer@[24] == old(buffer)@[24],
            forall|j: int| 1 <= j < i ==> buffer@[j] == 0,
        decreases SBUS_FRAME_LENGTH - 1 - i,
    {
        buffer[i] = 0;
        i += 1;
    }

    let ch = channels;

    // Channels 1 to 8: bytes 1 to 11
    buffer[1] = (ch[0] & 0xFF) as u8;
    buffer[2] = (((ch[0] >> 8) & 0x07) as u8) | (((ch[1] & 0x1F) << 3) as u8);
    buffer[3] = (((ch[1] >> 5) & 0x3F) as u8) | (((ch[2] & 0x03) << 6) as u8);
    buffer[4] = ((ch[2] >> 2) & 0xFF) as u8;
    buffer[5] = (((ch[2] >> 10) & 0x01) as u8) | (((ch[3] & 0x7F) << 1) as u8);
    buffer[6] = (((ch[3] >> 7) & 0x0F) as u8) | (((ch[4] & 0x0F) << 4) as u8);
    buffer[7] = (((ch[4] >> 4) & 0x7F) as u8) | (((ch[5] & 0x01) << 7) as u8);
    buffer[8] = ((ch[5] >> 1) & 0xFF) as u8;
    buffer[9] = (((ch[5] >> 9) & 0x03) as u8) | (((ch[6] & 0x3F) << 2) as u8);
    buffer[10] = (((ch[6] >> 6) & 0x1F) as u8) | (((ch[7] & 0x07) << 5) as u8);
    buffer[11] = ((ch[7] >> 3) & 0xFF) as u8;

    // Channels 9 to 16: bytes 12 to 22
    buffer[12] = (ch[8] & 0xFF) as u8;
    buffer[13] = (((ch[8] >> 8) & 0x07) as u8) | (((ch[9] & 0x1F) << 3) as u8);
    buffer[14] = (((ch[9] >> 5) & 0x3F) as u8) | (((ch[10] & 0x03) << 6) as u8);
    buffer[15] = ((ch[10] >> 2) & 0xFF) as u8;
    buffer[16] = (((ch[10] >> 10) & 0x01) as u8) | (((ch[11] & 0x7F) << 1) as u8);
    buffer[17] = (((ch[11] >> 7) & 0x0F) as u8) | (((ch[12] & 0x0F) << 4) as u8);
    buffer[18] = (((ch[12] >> 4) & 0x7F) as u8) | (((ch[13] & 0x01) << 7) as u8);
    buffer[19] = ((ch[13] >> 1) & 0xFF) as u8;
    buffer[20] = (((ch[13] >> 9) & 0x03) as u8) | (((ch[14] & 0x3F) << 2) as u8);
    buffer[21] = (((ch[14] >> 6) & 0x1F) as u8) | (((ch[15] & 0x07) << 5) as u8);
    buffer[22] = ((ch[15] >> 3) & 0xFF) as u8;

    proof {
        let f = buffer@;
        let c = channels@;
        lemma_write_eight(
            c[0], c[1], c[2], c[3], c[4], c[5], c[6], c[7],
            f[1], f[2], f[3], f[4], f[5], f[6], f[7], f[8], f[9], f[10], f[11], f[12],
        );
        lemma_write_eight(
            c[8], c[9], c[10], c[11], c[12], c[13], c[14], c[15],
            f[12], f[13], f[14], f[15], f[16], f[17], f[18], f[19], f[20], f[21], f[22], 0,
        );
        assert(channel_value(f, 0) == c[0] & 0x7FF);
        assert(channel_value(f, 1) == c[1] & 0x7FF);
        assert(channel_value(f, 2) == c[2] & 0x7FF);
        assert(channel_value(f, 3) == c[3] & 0x7FF);
        assert(channel_value(f, 4) == c[4] & 0x7FF);
        assert(channel_value(f, 5) == c[5] & 0x7FF);
        assert(channel_value(f, 6) == c[6] & 0x7FF);
        assert(channel_value(f, 7) == c[7] & 0x7FF);
        assert(channel_value(f, 8) == c[8] & 0x7FF);
        assert(channel_value(f, 9) == c[9] & 0x7FF);
        assert(channel_value(f, 10) == c[10] & 0x7FF);
        assert(channel_value(f, 11) == c[11] & 0x7FF);
        assert(channel_value(f, 12) == c[12] & 0x7FF);
        assert(channel_value(f, 13) == c[13] & 0x7FF);
        assert(channel_value(f, 14) == c[14] & 0x7FF);
        assert(channel_value(f, 15) == c[15] & 0x7FF);
    }
}

/// Masking to 11 bits keeps a value that already fits.
pub proof fn lemma_mask_keeps_channel(v: u16)
    by (bit_vector)
    requires
        v <= 0x7FFu16,
    ensures
        v & 0x7FFu16 == v,
{
}

/// The payload that carries channels within `0..=CHANNEL_MAX` decodes to exactly those channels.
pub proof fn lemma_decode_packed(frame: Seq<u8>, channels: Seq<u16>)
    requires
        channels.len() == CHANNEL_COUNT,
        forall|c: int| 0 <= c < 16 ==> channels[c] <= CHANNEL_MAX,
        payload_holds(frame, channels),
    ensures
        decode_channels(frame) == channels,
{
    assert forall|c: int| 0 <= c < 16 implies channel_value(frame, c) == channels[c] by {
        lemma_mask_keeps_channel(channels[c]);
    }
    assert(decode_channels(frame) =~= channels);
}

/// The channels with `CHANNEL_MAX` on each channel in `hot` and 0 elsewhere.
pub open spec fn max_on(hot: Set<int>) -> Seq<u16> {
    Seq::new(16, |c: int| if hot.contains(c) { CHANNEL_MAX } else { 0u16 })
}

/// Channel isolation: packing `CHANNEL_MAX` into one channel and 0 into all
/// others, then decoding, gives `CHANNEL_MAX` on that channel and 0 on every
/// other one.
pub proof fn lemma_single_channel_isolation(frame: Seq<u8>, k: int)
    requires
        0 <= k < 16,
        payload_holds(frame, max_on(set![k])),
    ensures
        decode_channels(frame)[k] == CHANNEL_MAX,
        forall|c: int| 0 <= c < 16 && c != k ==> decode_channels(frame)[c] == 0,
{
    lemma_decode_packed(frame, max_on(set![k]));
}

/// Adjacent-channel isolation: packing `CHANNEL_MAX` into two neighbouring
/// channels and 0 into all others, then decoding, gives `CHANNEL_MAX` on both
/// and 0 on every other channel.
pub proof fn lemma_adjacent_channel_isolation(frame: Seq<u8>, k: int)
    requires
        0 <= k < 15,
        payload_holds(frame, max_on(set![k, k + 1])),
    ensures
        decode_channels(frame)[k] == CHANNEL_MAX,
        decode_channels(frame)[k + 1] == CHANNEL_MAX,
        forall|c: int| 0 <= c < 16 && c != k && c != k + 1 ==> decode_channels(frame)[c] == 0,
{
    lemma_decode_packed(frame, max_on(set![k, k + 1]));
}

/// Eleven payload bytes are fixed by the eight channels that they carry.
proof fn lemma_eight_fix_bytes(
    x0: u8, x1: u8, x2: u8, x3: u8, x4: u8, x5: u8,
    x6: u8, x7: u8, x8: u8, x9: u8, x10: u8, x11: u8,
    y0: u8, y1: u8, y2: u8, y3: u8, y4: u8, y5: u8,
    y6: u8, y7: u8, y8: u8, y9: u8, y10: u8, y11: u8,
)
    by (bit_vector)
    requires
        window_bits(x0, x1, x2, 0) == window_bits(y0, y1, y2, 0),
        window_bits(x1, x2, x3, 3) == window_bits(y1, y2, y3, 3),
        window_bits(x2, x3, x4, 6) == window_bits(y2, y3, y4, 6),
        window_bits(x4, x5, x6, 1) == window_bits(y4, y5, y6, 1),
        window_bits(x5, x6, x7, 4) == window_bits(y5, y6, y7, 4),
        window_bits(x6, x7, x8, 7) == window_bits(y6, y7, y8, 7),
        window_bits(x8, x9, x10, 2) == window_bits(y8, y9, y10, 2),
        window_bits(x9, x10, x11, 5) == window_bits(y9, y10, y11, 5),
    ensures
        x0 == y0 && x1 == y1 && x2 == y2 && x3 == y3 && x4 == y4 && x5 == y5,
        x6 == y6 && x7 == y7 && x8 == y8 && x9 == y9 && x10 == y10,
{
}

/// Every payload bit belongs to exactly one channel, so two frames with the
/// same sixteen channels have the same payload: what `pack_channels` writes is
/// fixed by the channels it is given.
pub proof fn lemma_channels_fix_payload(a: Seq<u8>, b: Seq<u8>)
    requires
        a.len() == 25,
        b.len() == 25,
        decode_channels(a) == decode_channels(b),
    ensures
        a.subrange(1, 23) == b.subrange(1, 23),
{
    assert forall|c: int| 0 <= c < 16 implies channel_value(a, c) == channel_value(b, c) by {
        assert(decode_channels(a)[c] == channel_value(a, c));
        assert(decode_channels(b)[c] == channel_value(b, c));
    }
    assert(channel_value(a, 0) == channel_value(b, 0));
    assert(channel_value(a, 1) == channel_value(b, 1));
    assert(channel_value(a, 2) == channel_value(b, 2));
    assert(channel_value(a, 3) == channel_value(b, 3));
    assert(channel_value(a, 4) == channel_value(b, 4));
    assert(channel_value(a, 5) == channel_value(b, 5));
    assert(channel_value(a, 6) == channel_value(b, 6));
    assert(channel_value(a, 7) == channel_value(b, 7));
    assert(channel_value(a, 8) == channel_value(b, 8));
    assert(channel_value(a, 9) == channel_value(b, 9));
    assert(channel_value(a, 10) == channel_value(b, 10));
    assert(channel_value(a, 11) == channel_value(b, 11));
    assert(channel_value(a, 12) == channel_value(b, 12));
    assert(channel_value(a, 13) == channel_value(b, 13));
    assert(channel_value(a, 14) == channel_value(b, 14));
    assert(channel_value(a, 15) == channel_value(b, 15));
    lemma_eight_fix_bytes(
        a[1], a[2], a[3], a[4], a[5], a[6], a[7], a[8], a[9], a[10], a[11], a[12],
        b[1], b[2], b[3], b[4], b[5], b[6], b[7], b[8], b[9], b[10], b[11], b[12],
    );
    lemma_eight_fix_bytes(
        a[12], a[13], a[14], a[15], a[16], a[17], a[18], a[19], a[20], a[21], a[22], 0,
        b[12], b[13], b[14], b[15], b[16], b[17], b[18], b[19], b[20], b[21], b[22], 0,
    );
    assert(a.subrange(1, 23) =~= b.subrange(1, 23));
}

} // verus!
