use modbus::function_codes::read_coils::{ReadCoilsRequest, ReadCoilsResponse};
use modbus::error::{DecodeError, EncodeError};

#[test]
fn read_coils_request_roundtrip() {
    let req = ReadCoilsRequest::new(0x0013, 0x0013).unwrap();
    let mut buf = [0u8; 5];
    let n = req.encode(&mut buf).unwrap();
    assert_eq!(n, 5);
    assert_eq!(buf, [0x01, 0x00, 0x13, 0x00, 0x13]);

    let decoded = ReadCoilsRequest::decode(&buf).unwrap();
    assert_eq!(decoded, req);
}

#[test]
fn read_coils_request_quantity_bounds() {
    assert!(ReadCoilsRequest::new(0, 0).is_err());
    assert!(ReadCoilsRequest::new(0, 1).is_ok());
    assert!(ReadCoilsRequest::new(0, 2000).is_ok());
    assert!(ReadCoilsRequest::new(0, 2001).is_err());
}

#[test]
fn read_coils_response_roundtrip() {
    // Example from Modbus spec: outputs 27-20 = 0xCD, 35-28 = 0x6B, 38-36 = 0x05
    let resp = ReadCoilsResponse {
        coil_status: vec![0xCD, 0x6B, 0x05],
    };
    let mut buf = [0u8; 5];
    let n = resp.encode(&mut buf).unwrap();
    assert_eq!(n, 5);
    assert_eq!(buf, [0x01, 0x03, 0xCD, 0x6B, 0x05]);

    let decoded = ReadCoilsResponse::decode(&buf).unwrap();
    assert_eq!(decoded, resp);
}

#[test]
fn read_coils_response_decode_rejects_wrong_function_code() {
    let buf = [0x02, 0x01, 0x00];
    assert!(matches!(
        ReadCoilsResponse::decode(&buf),
        Err(DecodeError::UnknownFunctionCode)
    ));
}

#[test]
fn read_coils_encode_rejects_too_small_buffer() {
    let req = ReadCoilsRequest::new(0, 1).unwrap();
    let mut buf = [0u8; 4];
    assert!(matches!(
        req.encode(&mut buf),
        Err(EncodeError::BufferTooSmall)
    ));
}

#[test]
fn read_coils_request_decode_rejects_wrong_function_code() {
    let buf = [0x02, 0x00, 0x00, 0x00, 0x01];
    assert!(matches!(
        ReadCoilsRequest::decode(&buf),
        Err(DecodeError::UnknownFunctionCode)
    ));
    assert!(matches!(
        ReadCoilsRequest::decode(&buf[..4]),
        Err(DecodeError::InvalidLength)
    ));
}
