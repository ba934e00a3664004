use modbus::function_codes::write_single_register::{WriteSingleRegisterRequest, WriteSingleRegisterResponse};
use modbus::error::{DecodeError, EncodeError};

#[test]
fn write_single_register_request_roundtrip() {
    let req = WriteSingleRegisterRequest::new(0x0001, 0x0003);
    let mut buf = [0u8; 5];
    let n = req.encode(&mut buf).unwrap();
    assert_eq!(n, 5);
    assert_eq!(buf, [0x06, 0x00, 0x01, 0x00, 0x03]);

    let decoded = WriteSingleRegisterRequest::decode(&buf).unwrap();
    assert_eq!(decoded, req);
}

#[test]
fn write_single_register_request_decode_rejects_wrong_function_code() {
    let buf = [0x05, 0x00, 0x01, 0x00, 0x03];
    assert!(matches!(
        WriteSingleRegisterRequest::decode(&buf),
        Err(DecodeError::UnknownFunctionCode)
    ));
}

#[test]
fn write_single_register_response_roundtrip() {
    let resp = WriteSingleRegisterResponse {
        register_address: 0x0001,
        value: 0x0003,
    };
    let mut buf = [0u8; 5];
    let n = resp.encode(&mut buf).unwrap();
    assert_eq!(n, 5);
    assert_eq!(buf, [0x06, 0x00, 0x01, 0x00, 0x03]);

    let decoded = WriteSingleRegisterResponse::decode(&buf).unwrap();
    assert_eq!(decoded, resp);
}

#[test]
fn write_single_register_response_decode_rejects_wrong_function_code() {
    let buf = [0x05, 0x00, 0x01, 0x00, 0x03];
    assert!(matches!(
        WriteSingleRegisterResponse::decode(&buf),
        Err(DecodeError::UnknownFunctionCode)
    ));
}

#[test]
fn write_single_register_encode_rejects_too_small_buffer() {
    let req = WriteSingleRegisterRequest::new(0, 0);
    let mut buf = [0u8; 4];
    assert!(matches!(
        req.encode(&mut buf),
        Err(EncodeError::BufferTooSmall)
    ));
}
