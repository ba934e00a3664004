use modbus::ascii::{AsciiAdu, lrc8};
use modbus::error::{DecodeError, EncodeError};

#[test]
fn lrc_matches_expected_value() {
    let data = [0x01, 0x03, 0x00, 0x00, 0x00, 0x0A];
    assert_eq!(lrc8(&data), 0xF2);
}

#[test]
fn roundtrip() {
    let adu = AsciiAdu::new(0x01, vec![0x03, 0x00, 0x00, 0x00, 0x0A]);
    let mut buf = [0u8; 17];
    let n = adu.encode(&mut buf).unwrap();
    assert_eq!(n, 17);
    assert_eq!(
        &buf[..n],
        b":01030000000AF2\r\n"
    );

    let decoded = AsciiAdu::decode(&buf[..n]).unwrap();
    assert_eq!(decoded, adu);
}

#[test]
fn decode_rejects_missing_start() {
    let buf = b"01030000000AF2\r\n";
    assert!(matches!(AsciiAdu::decode(buf), Err(DecodeError::InvalidValue)));
}

#[test]
fn decode_rejects_missing_crlf() {
    let buf = b":01030000000AF2";
    assert!(matches!(AsciiAdu::decode(buf), Err(DecodeError::InvalidValue)));
}

#[test]
fn decode_rejects_bad_lrc() {
    let buf = b":01030000000AF3\r\n";
    assert!(matches!(AsciiAdu::decode(buf), Err(DecodeError::InvalidValue)));
}

#[test]
fn decode_rejects_invalid_hex() {
    let buf = b":01030000000AG2\r\n";
    assert!(matches!(AsciiAdu::decode(buf), Err(DecodeError::InvalidValue)));
}

#[test]
fn ascii_decode_rejects_truncated_frame() {
    let buf = b":01F2\r\n";
    assert!(matches!(AsciiAdu::decode(buf), Err(DecodeError::InvalidLength)));
}

#[test]
fn ascii_encode_rejects_too_small_buffer() {
    let adu = AsciiAdu::new(0x01, vec![0x03, 0x00, 0x00, 0x00, 0x0A]);
    let mut buf = [0u8; 8];
    assert!(matches!(adu.encode(&mut buf), Err(EncodeError::BufferTooSmall)));
}

#[test]
fn lrc_makes_frame_body_sum_to_zero() {
    for data in [
        vec![0x01, 0x03, 0x00, 0x00, 0x00, 0x0A],
        vec![],
        vec![0xFF, 0xFF, 0xFF],
        vec![0x80],
    ] {
        let lrc = lrc8(&data);
        let sum = data.iter().fold(lrc, |acc, &b| acc.wrapping_add(b));
        assert_eq!(sum, 0);
    }
    assert_eq!(lrc8(&[]), 0);
}

#[test]
fn ascii_roundtrip_single_byte_pdu_is_minimal_frame() {
    let adu = AsciiAdu::new(0xF7, vec![0x07]);
    let mut buf = [0u8; 9];
    let n = adu.encode(&mut buf).unwrap();
    assert_eq!(n, AsciiAdu::MIN_FRAME_SIZE);
    assert_eq!(&buf[..n], b":F70702\r\n");
    assert_eq!(AsciiAdu::decode(&buf[..n]).unwrap(), adu);
}

#[test]
fn ascii_decode_accepts_lower_case_hex() {
    let adu = AsciiAdu::decode(b":01030000000af2\r\n").unwrap();
    assert_eq!(adu.address, 0x01);
    assert_eq!(adu.pdu, vec![0x03, 0x00, 0x00, 0x00, 0x0A]);
}

#[test]
fn ascii_decode_rejects_odd_hex_count() {
    assert!(matches!(
        AsciiAdu::decode(b":01030000000AF2F\r\n"),
        Err(DecodeError::InvalidLength)
    ));
}

#[test]
fn ascii_frame_constants() {
    assert_eq!(AsciiAdu::START, b':');
    assert_eq!(AsciiAdu::END, *b"\r\n");
    let mut buf = [0u8; 4];
    assert!(matches!(
        AsciiAdu::new(0x01, vec![]).encode(&mut buf),
        Err(EncodeError::BufferTooSmall)
    ));
}

#[test]
fn ascii_broadcast_address() {
    assert!(AsciiAdu::new(0x00, vec![0x05]).is_broadcast());
    assert!(!AsciiAdu::new(0x01, vec![0x05]).is_broadcast());
}
