use mdc::proto::{Error, Packet};

#[test]
pub fn should_compute_valid_checksum() {
    assert_eq!(
        Packet { command: 0x11, display_id: 0xFE, data: vec![1] }.checksum(),
        0x11
    );

    assert_eq!(
        Packet { command: 0xB9, display_id: 0x00, data: vec![0x00] }.checksum(),
        0xBA
    );
}

#[test]
pub fn should_create_valid_packet_bytes() {
    assert_eq!(
        Packet { command: 0x4A, display_id: 0x00, data: vec![0x00] }.into_bytes(),
        vec![0xAA, 0x4A, 0x00, 0x01, 0x00, 0x4B]
    );
}

#[test]
pub fn should_parse_bytes() {
    assert_eq!(
        Packet::from_bytes(&mut vec![0xAA, 0x4A, 0x00, 0x01, 0x00, 0x4B])
            .unwrap()
            .0,
        Packet { command: 0x4A, display_id: 0x00, data: vec![0x00] }
    );
}

#[test]
pub fn should_parse_partial_bytes() {
    let mut input = vec![0xAA, 0x4A, 0x00, 0x01, 0x00, 0x4B, 0xAA, 0xFF];
    assert_eq!(
        Packet::from_bytes(&mut input).unwrap(),
        (Packet { command: 0x4A, display_id: 0x00, data: vec![0x00] }, 6)
    );

    assert_eq!(input, vec![0xAA, 0xFF])
}

#[test]
fn round_trip_restores_packet() {
    let original = Packet {
        command: 0x11,
        display_id: 0x07,
        data: vec![0x01, 0x02, 0x03],
    };
    let mut wire = Packet {
        command: 0x11,
        display_id: 0x07,
        data: vec![0x01, 0x02, 0x03],
    }
    .into_bytes();
    let (parsed, consumed) = Packet::from_bytes(&mut wire).unwrap();
    assert_eq!(parsed, original);
    assert_eq!(consumed, 4 + 3 + 1);
    assert_eq!(wire, Vec::<u8>::new());
}

#[test]
fn round_trip_empty_payload() {
    let mut wire = Packet { command: 0xF9, display_id: 0x00, data: vec![] }.into_bytes();
    assert_eq!(wire, vec![0xAA, 0xF9, 0x00, 0x00, 0xF9]);
    let (parsed, consumed) = Packet::from_bytes(&mut wire).unwrap();
    assert_eq!(parsed, Packet { command: 0xF9, display_id: 0x00, data: vec![] });
    assert_eq!(consumed, 5);
}

#[test]
fn round_trip_largest_payload() {
    let data: Vec<u8> = (0u16..255).map(|it| it as u8).collect();
    assert_eq!(data.len(), 255);
    let original = Packet { command: 0x20, display_id: 0x01, data: data.clone() };
    let mut wire = Packet { command: 0x20, display_id: 0x01, data }.into_bytes();
    assert_eq!(wire.len(), 4 + 255 + 1);
    let (parsed, consumed) = Packet::from_bytes(&mut wire).unwrap();
    assert_eq!(parsed, original);
    assert_eq!(consumed, 260);
    assert!(wire.is_empty());
}

#[test]
fn incomplete_input_leaves_buffer_untouched() {
    let mut empty: Vec<u8> = vec![];
    assert_eq!(Packet::from_bytes(&mut empty).unwrap_err(), Error::IncompleteInput);
    assert_eq!(empty, Vec::<u8>::new());

    let mut header_only = vec![0xAA];
    assert_eq!(
        Packet::from_bytes(&mut header_only).unwrap_err(),
        Error::IncompleteInput
    );
    assert_eq!(header_only, vec![0xAA]);

    let mut missing_checksum = vec![0xAA, 0x4A, 0x00, 0x01, 0x00];
    assert_eq!(
        Packet::from_bytes(&mut missing_checksum).unwrap_err(),
        Error::IncompleteInput
    );
    assert_eq!(missing_checksum, vec![0xAA, 0x4A, 0x00, 0x01, 0x00]);
}

#[test]
fn invalid_header_leaves_buffer_untouched() {
    let mut input = vec![0x55, 0x4A, 0x00, 0x01, 0x00, 0x4B];
    assert_eq!(Packet::from_bytes(&mut input).unwrap_err(), Error::InvalidHeader);
    assert_eq!(input, vec![0x55, 0x4A, 0x00, 0x01, 0x00, 0x4B]);
}

#[test]
fn invalid_checksum_leaves_buffer_untouched() {
    let mut input = vec![0xAA, 0x4A, 0x00, 0x01, 0x00, 0x4C];
    assert_eq!(Packet::from_bytes(&mut input).unwrap_err(), Error::InvalidChecksum);
    assert_eq!(input, vec![0xAA, 0x4A, 0x00, 0x01, 0x00, 0x4C]);
}

#[test]
fn checksum_wraps_to_low_eight_bits() {
    let packet = Packet { command: 0xFF, display_id: 0xFF, data: vec![0xFF, 0xFF] };
    // 0xFF + 0xFF + 2 + 0xFF + 0xFF = 0x3FE, whose low byte is 0xFE.
    assert_eq!(packet.checksum(), 0xFE);
}
