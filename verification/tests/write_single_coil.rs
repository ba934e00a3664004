use modbus::function_codes::write_single_coil::{WriteSingleCoilRequest, WriteSingleCoilResponse};
use modbus::error::{DecodeError, EncodeError};

#[test]
fn request_roundtrip_on() {
    let req = WriteSingleCoilRequest::new(0x00AC, WriteSingleCoilRequest::ON).unwrap();
    let mut buf = [0u8; 5];
    let n = req.encode(&mut buf).unwrap();
    assert_eq!(n, 5);
    assert_eq!(buf, [0x05, 0x00, 0xAC, 0xFF, 0x00]);

    let decoded = WriteSingleCoilRequest::decode(&buf).unwrap();
    assert_eq!(decoded, req);
}

#[test]
fn request_roundtrip_off() {
    let req = WriteSingleCoilRequest::new(0x00AC, WriteSingleCoilRequest::OFF).unwrap();
    let mut buf = [0u8; 5];
    let n = req.encode(&mut buf).unwrap();
    assert_eq!(n, 5);
    assert_eq!(buf, [0x05, 0x00, 0xAC, 0x00, 0x00]);

    let decoded = WriteSingleCoilRequest::decode(&buf).unwrap();
    assert_eq!(decoded, req);
}

#[test]
fn request_rejects_invalid_value() {
    assert!(WriteSingleCoilRequest::new(0, 0x1234).is_err());
    assert!(WriteSingleCoilRequest::new(0, 0xFF01).is_err());
}

#[test]
fn write_single_coil_request_decode_rejects_wrong_function_code() {
    let buf = [0x01, 0x00, 0xAC, 0xFF, 0x00];
    assert!(matches!(
        WriteSingleCoilRequest::decode(&buf),
        Err(DecodeError::UnknownFunctionCode)
    ));
}

#[test]
fn write_single_coil_response_roundtrip() {
    let resp = WriteSingleCoilResponse {
        output_address: 0x00AC,
        value: WriteSingleCoilRequest::ON,
    };
    let mut buf = [0u8; 5];
    let n = resp.encode(&mut buf).unwrap();
    assert_eq!(n, 5);
    assert_eq!(buf, [0x05, 0x00, 0xAC, 0xFF, 0x00]);

    let decoded = WriteSingleCoilResponse::decode(&buf).unwrap();
    assert_eq!(decoded, resp);
}

#[test]
fn write_single_coil_response_decode_rejects_wrong_function_code() {
    let buf = [0x01, 0x00, 0xAC, 0xFF, 0x00];
    assert!(matches!(
        WriteSingleCoilResponse::decode(&buf),
        Err(DecodeError::UnknownFunctionCode)
    ));
}

#[test]
fn write_single_coil_encode_rejects_too_small_buffer() {
    let req = WriteSingleCoilRequest::new(0, WriteSingleCoilRequest::ON).unwrap();
    let mut buf = [0u8; 4];
    assert!(matches!(
        req.encode(&mut buf),
        Err(EncodeError::BufferTooSmall)
    ));
}
