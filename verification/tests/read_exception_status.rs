use modbus::function_codes::read_exception_status::{ReadExceptionStatusRequest, ReadExceptionStatusResponse};
use modbus::error::{DecodeError, EncodeError};

#[test]
fn read_exception_status_request_roundtrip() {
    let req = ReadExceptionStatusRequest;
    let mut buf = [0u8; 1];
    let n = req.encode(&mut buf).unwrap();
    assert_eq!(n, 1);
    assert_eq!(buf, [0x07]);

    let decoded = ReadExceptionStatusRequest::decode(&buf).unwrap();
    assert_eq!(decoded, req);
}

#[test]
fn read_exception_status_request_decode_rejects_wrong_function_code() {
    let buf = [0x06];
    assert!(matches!(
        ReadExceptionStatusRequest::decode(&buf),
        Err(DecodeError::UnknownFunctionCode)
    ));
}

#[test]
fn read_exception_status_response_roundtrip() {
    let resp = ReadExceptionStatusResponse { data: 0x6D };
    let mut buf = [0u8; 2];
    let n = resp.encode(&mut buf).unwrap();
    assert_eq!(n, 2);
    assert_eq!(buf, [0x07, 0x6D]);

    let decoded = ReadExceptionStatusResponse::decode(&buf).unwrap();
    assert_eq!(decoded, resp);
}

#[test]
fn read_exception_status_response_decode_rejects_wrong_function_code() {
    let buf = [0x06, 0x6D];
    assert!(matches!(
        ReadExceptionStatusResponse::decode(&buf),
        Err(DecodeError::UnknownFunctionCode)
    ));
}

#[test]
fn read_exception_status_encode_rejects_too_small_buffer() {
    let req = ReadExceptionStatusRequest;
    let mut buf = [0u8; 0];
    assert!(matches!(
        req.encode(&mut buf),
        Err(EncodeError::BufferTooSmall)
    ));
}
