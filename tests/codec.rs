use sbus_rs::{
    channels_parsing, pack_channels, SbusPacket, CHANNEL_COUNT, CHANNEL_MAX, SBUS_FOOTER,
    SBUS_FRAME_LENGTH, SBUS_HEADER,
};

fn empty_frame() -> [u8; SBUS_FRAME_LENGTH] {
    let mut buffer = [0u8; SBUS_FRAME_LENGTH];
    buffer[0] = SBUS_HEADER;
    buffer[SBUS_FRAME_LENGTH - 1] = SBUS_FOOTER;
    buffer
}

#[test]
fn test_individual_channel_isolation() {
    for channel in 0..CHANNEL_COUNT {
        let mut channels = [0u16; CHANNEL_COUNT];
        let test_value = CHANNEL_MAX;
        channels[channel] = test_value;

        let mut buffer = empty_frame();
        pack_channels(&mut buffer, &channels);
        let decoded = channels_parsing(&buffer);

        assert_eq!(
            decoded[channel], test_value,
            "Channel {} failed to preserve max value",
            channel
        );
        for (i, &value) in decoded.iter().enumerate() {
            if i != channel {
                assert_eq!(
                    value, 0,
                    "Channel {} was affected while packing channel {}",
                    i, channel
                );
            }
        }
    }
}

#[test]
fn test_parse_pack_inverse_property() {
    let mut alternating = [0u16; CHANNEL_COUNT];
    for (i, val) in alternating.iter_mut().enumerate() {
        *val = if i % 2 == 0 { 0 } else { CHANNEL_MAX };
    }
    let mut ascending = [0u16; CHANNEL_COUNT];
    for (i, val) in ascending.iter_mut().enumerate() {
        *val = ((i as u16 * CHANNEL_MAX) / 15).min(CHANNEL_MAX);
    }
    let test_patterns = [alternating, ascending];

    for pattern in &test_patterns {
        let mut buffer = empty_frame();
        pack_channels(&mut buffer, pattern);
        let decoded = channels_parsing(&buffer);
        assert_eq!(
            &decoded, pattern,
            "Pattern was not preserved through pack/parse cycle"
        );
    }
}

#[test]
fn test_adjacent_channel_isolation() {
    for i in 0..15 {
        let mut channels = [0u16; CHANNEL_COUNT];
        channels[i] = CHANNEL_MAX;
        channels[i + 1] = CHANNEL_MAX;

        let mut buffer = empty_frame();
        pack_channels(&mut buffer, &channels);
        let decoded = channels_parsing(&buffer);

        assert_eq!(
            decoded[i], CHANNEL_MAX,
            "Channel {} lost max value when adjacent to max value",
            i
        );
        assert_eq!(
            decoded[i + 1],
            CHANNEL_MAX,
            "Channel {} lost max value when adjacent to max value",
            i + 1
        );
        for (j, &val) in decoded.iter().enumerate() {
            if j != i && j != i + 1 {
                assert_eq!(
                    val,
                    0,
                    "Channel {} was affected while testing adjacent channels {},{}",
                    j,
                    i,
                    i + 1
                );
            }
        }
    }
}

#[test]
fn all_zero_payload_decodes_to_zero() {
    let buffer = empty_frame();
    assert_eq!(channels_parsing(&buffer), [0u16; CHANNEL_COUNT]);
}

#[test]
fn all_ones_payload_decodes_to_max() {
    let mut buffer = [0xFFu8; SBUS_FRAME_LENGTH];
    buffer[0] = SBUS_HEADER;
    buffer[24] = SBUS_FOOTER;
    assert_eq!(channels_parsing(&buffer), [CHANNEL_MAX; CHANNEL_COUNT]);
}

#[test]
fn first_channel_reads_low_bits_first() {
    let mut buffer = empty_frame();
    buffer[1] = 0x34;
    buffer[2] = 0x12;
    let decoded = channels_parsing(&buffer);
    // 0x1234 masked to 11 bits; bits 11 and 12 of the stream go to channel 2
    assert_eq!(decoded[0], 0x0234);
    assert_eq!(decoded[1], 0x0002);
    for &value in &decoded[2..] {
        assert_eq!(value, 0);
    }
}

#[test]
fn pack_writes_exact_bytes() {
    let mut channels = [0u16; CHANNEL_COUNT];
    channels[0] = 0x0123;
    channels[1] = 0x0456;
    channels[15] = 0x07FF;
    let mut buffer = empty_frame();
    pack_channels(&mut buffer, &channels);
    // channel 1: 0x123 in bits 0-10; channel 2: 0x456 in bits 11-21
    assert_eq!(buffer[1], 0x23);
    assert_eq!(buffer[2], 0x01 | ((0x456 & 0x1F) << 3) as u8);
    assert_eq!(buffer[3], ((0x456 >> 5) & 0x3F) as u8);
    assert_eq!(buffer[21], 0xE0);
    assert_eq!(buffer[22], 0xFF);
    for &b in &buffer[4..21] {
        assert_eq!(b, 0);
    }
}

#[test]
fn pack_truncates_values_above_eleven_bits() {
    let mut channels = [0u16; CHANNEL_COUNT];
    channels[3] = 0x0FFF;
    channels[4] = 0x8001;
    let mut buffer = empty_frame();
    pack_channels(&mut buffer, &channels);
    let decoded = channels_parsing(&buffer);
    assert_eq!(decoded[3], 0x07FF);
    assert_eq!(decoded[4], 0x0001);
    assert_eq!(decoded[2], 0);
    assert_eq!(decoded[5], 0);
}

#[test]
fn pack_keeps_header_and_footer_and_clears_flags() {
    let mut buffer = [0xAAu8; SBUS_FRAME_LENGTH];
    pack_channels(&mut buffer, &[0u16; CHANNEL_COUNT]);
    assert_eq!(buffer[0], 0xAA);
    assert_eq!(buffer[24], 0xAA);
    for &b in &buffer[1..24] {
        assert_eq!(b, 0);
    }
}

#[test]
fn round_trip_with_every_flag_combination() {
    let mut channels = [0u16; CHANNEL_COUNT];
    for (i, val) in channels.iter_mut().enumerate() {
        *val = (i as u16 * 131 + 7) % (CHANNEL_MAX + 1);
    }
    for flags in 0u8..16 {
        let mut buffer = empty_frame();
        pack_channels(&mut buffer, &channels);
        buffer[23] = flags;
        let packet = SbusPacket::from_array(&buffer).unwrap();
        assert_eq!(packet.channels, channels);
        assert_eq!(packet.flags.d1, flags & 0x01 != 0);
        assert_eq!(packet.flags.d2, flags & 0x02 != 0);
        assert_eq!(packet.flags.frame_lost, flags & 0x04 != 0);
        assert_eq!(packet.flags.failsafe, flags & 0x08 != 0);
    }
}
