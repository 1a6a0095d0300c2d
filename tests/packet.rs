use sbus_rs::{
    Flags, SbusError, SbusPacket, CHANNEL_MAX, SBUS_FOOTER, SBUS_FRAME_LENGTH, SBUS_HEADER,
};

fn zero_frame() -> [u8; SBUS_FRAME_LENGTH] {
    let mut frame = [0u8; SBUS_FRAME_LENGTH];
    frame[0] = SBUS_HEADER;
    frame[SBUS_FRAME_LENGTH - 1] = SBUS_FOOTER;
    frame
}

#[test]
fn zero_frame_decodes_to_zero_channels_and_no_flags() {
    let packet = SbusPacket::from_array(&zero_frame()).unwrap();
    assert_eq!(packet.channels, [0u16; 16]);
    assert!(!packet.flags.d1);
    assert!(!packet.flags.d2);
    assert!(!packet.flags.frame_lost);
    assert!(!packet.flags.failsafe);
}

#[test]
fn ff07_payload_decodes_by_bitstream() {
    let frame: [u8; SBUS_FRAME_LENGTH] = [
        0x0F, 0xFF, 0x07, 0xFF, 0x07, 0xFF, 0x07, 0xFF, 0x07, 0xFF, 0x07, 0xFF, 0x07, 0xFF, 0x07,
        0xFF, 0x07, 0xFF, 0x07, 0xFF, 0x07, 0xFF, 0x07, 0x07, 0x00,
    ];
    let packet = SbusPacket::from_array(&frame).unwrap();
    // The 11-bit channels of the little-endian payload bitstream: only the
    // first one lines up with a whole `FF 07` pair.
    assert_eq!(packet.channels[0], CHANNEL_MAX);
    assert_eq!(
        packet.channels,
        [
            2047, 2016, 1055, 1023, 2032, 1551, 511, 2040, 1799, 255, 2044, 1923, 127, 2046, 1985,
            63
        ]
    );
    assert!(packet.flags.d1);
    assert!(packet.flags.d2);
    assert!(packet.flags.frame_lost);
    assert!(!packet.flags.failsafe);
}

#[test]
fn all_ff_frame_has_invalid_header() {
    let frame = [0xFFu8; SBUS_FRAME_LENGTH];
    assert_eq!(SbusPacket::from_array(&frame), Err(SbusError::InvalidHeader(0xFF)));
    assert_eq!(SbusPacket::validate_frame(&frame), Err(SbusError::InvalidHeader(0xFF)));
}

#[test]
fn footer_ff_is_invalid_footer() {
    let mut frame = zero_frame();
    frame[24] = 0xFF;
    assert_eq!(SbusPacket::from_array(&frame), Err(SbusError::InvalidFooter(0xFF)));
}

#[test]
fn header_checked_before_footer() {
    let mut frame = zero_frame();
    frame[0] = 0x00;
    frame[24] = 0xFF;
    assert_eq!(SbusPacket::validate_frame(&frame), Err(SbusError::InvalidHeader(0x00)));
}

#[test]
fn every_wrong_header_is_rejected() {
    for header in 0u8..=255 {
        if header == SBUS_HEADER {
            continue;
        }
        let mut frame = [0x5Au8; SBUS_FRAME_LENGTH];
        frame[0] = header;
        assert_eq!(SbusPacket::validate_frame(&frame), Err(SbusError::InvalidHeader(header)));
    }
}

#[test]
fn footer_rule() {
    for footer in 0u8..=255 {
        let mut frame = zero_frame();
        frame[24] = footer;
        let accepted = footer == 0x00 || footer & 0x0F == 0x04;
        if accepted {
            assert_eq!(SbusPacket::validate_frame(&frame), Ok(()));
        } else {
            assert_eq!(SbusPacket::validate_frame(&frame), Err(SbusError::InvalidFooter(footer)));
        }
    }
}

#[test]
fn alternate_footer_is_accepted() {
    let mut frame = zero_frame();
    frame[24] = 0x14;
    assert!(SbusPacket::from_array(&frame).is_ok());
    frame[24] = 0x50;
    assert_eq!(SbusPacket::from_array(&frame), Err(SbusError::InvalidFooter(0x50)));
}

#[test]
fn flags_from_byte_reads_low_four_bits() {
    let f = Flags::from_byte(0b0000_0101);
    assert_eq!(
        f,
        Flags { d1: true, d2: false, failsafe: false, frame_lost: true }
    );
    let g = Flags::from_byte(0b1111_1000);
    assert_eq!(
        g,
        Flags { d1: false, d2: false, failsafe: true, frame_lost: false }
    );
    assert_eq!(Flags::from(0x02u8), Flags { d1: false, d2: true, failsafe: false, frame_lost: false });
}
