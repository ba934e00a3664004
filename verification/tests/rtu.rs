use modbus::rtu::{RtuAdu, crc16};
use modbus::error::{DecodeError, EncodeError};

#[test]
fn known_crc_vector() {
    // Address 1, FC 3, read 10 registers from address 0.
    let frame = RtuAdu::new(0x01, vec![0x03, 0x00, 0x00, 0x00, 0x0A]);
    let mut buf = [0u8; 8];
    let n = frame.encode(&mut buf).unwrap();
    assert_eq!(n, 8);
    assert_eq!(buf, [0x01, 0x03, 0x00, 0x00, 0x00, 0x0A, 0xC5, 0xCD]);

    let decoded = RtuAdu::decode(&buf).unwrap();
    assert_eq!(decoded, frame);
}

#[test]
fn crc_matches_expected_value() {
    // CRC for the known vector excluding the CRC field.
    let data = [0x01, 0x03, 0x00, 0x00, 0x00, 0x0A];
    assert_eq!(crc16(&data), 0xCDC5);
}

#[test]
fn broadcast_address_is_valid() {
    let frame = RtuAdu::new(
        RtuAdu::BROADCAST_ADDRESS,
        vec![0x0F, 0x00, 0x10, 0x00, 0x02],
    );
    assert!(frame.is_broadcast());

    let mut buf = [0u8; 8];
    let n = frame.encode(&mut buf).unwrap();
    assert_eq!(n, 8);

    let decoded = RtuAdu::decode(&buf).unwrap();
    assert!(decoded.is_broadcast());
    assert_eq!(decoded.pdu, frame.pdu);
}

#[test]
fn decode_rejects_bad_crc() {
    let mut buf = [0x01, 0x03, 0x00, 0x00, 0x00, 0x0A, 0xCD, 0xC5];
    buf[6] = 0x00;
    assert!(matches!(
        RtuAdu::decode(&buf),
        Err(DecodeError::InvalidValue)
    ));
}

#[test]
fn rtu_decode_rejects_truncated_frame() {
    let buf = [0x01, 0x03, 0xCD];
    assert!(matches!(
        RtuAdu::decode(&buf),
        Err(DecodeError::InvalidLength)
    ));
}

#[test]
fn rtu_encode_rejects_too_small_buffer() {
    let frame = RtuAdu::new(0x01, vec![0x03, 0x00, 0x00, 0x00, 0x0A]);
    let mut buf = [0u8; 4];
    assert!(matches!(
        frame.encode(&mut buf),
        Err(EncodeError::BufferTooSmall)
    ));
}
