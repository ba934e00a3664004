use modbus::function_codes::write_multiple_registers::{WriteMultipleRegistersRequest, WriteMultipleRegistersResponse};
use modbus::error::{DecodeError, EncodeError};

#[test]
fn write_multiple_registers_request_roundtrip() {
    // Spec example: 2 registers starting at 1, values 0x000A, 0x0102
    let values = vec![0x00, 0x0A, 0x01, 0x02];
    let req = WriteMultipleRegistersRequest::new(0x0001, 2, values.clone()).unwrap();
    let mut buf = [0u8; 10];
    let n = req.encode(&mut buf).unwrap();
    assert_eq!(n, 10);
    assert_eq!(buf, [0x10, 0x00, 0x01, 0x00, 0x02, 0x04, 0x00, 0x0A, 0x01, 0x02]);

    let decoded = WriteMultipleRegistersRequest::decode(&buf).unwrap();
    assert_eq!(decoded, req);
}

#[test]
fn write_multiple_registers_request_quantity_bounds() {
    let two_bytes = vec![0x00, 0x00];
    assert!(WriteMultipleRegistersRequest::new(0, 0, two_bytes.clone()).is_err());
    assert!(WriteMultipleRegistersRequest::new(0, 1, two_bytes.clone()).is_ok());
    let max_bytes = vec![0u8; 246];
    assert!(WriteMultipleRegistersRequest::new(0, 123, max_bytes.clone()).is_ok());
    let too_many = vec![0u8; 248];
    assert!(WriteMultipleRegistersRequest::new(0, 124, too_many).is_err());
}

#[test]
fn request_rejects_mismatched_value_length() {
    // 2 registers need 4 bytes, not 2
    assert!(WriteMultipleRegistersRequest::new(0, 2, vec![0x00, 0x00]).is_err());
}

#[test]
fn write_multiple_registers_request_decode_rejects_wrong_function_code() {
    let buf = [0x06, 0x00, 0x01, 0x00, 0x02, 0x04, 0x00, 0x0A, 0x01, 0x02];
    assert!(matches!(
        WriteMultipleRegistersRequest::decode(&buf),
        Err(DecodeError::UnknownFunctionCode)
    ));
}

#[test]
fn write_multiple_registers_response_roundtrip() {
    let resp = WriteMultipleRegistersResponse {
        starting_address: 0x0001,
        quantity: 2,
    };
    let mut buf = [0u8; 5];
    let n = resp.encode(&mut buf).unwrap();
    assert_eq!(n, 5);
    assert_eq!(buf, [0x10, 0x00, 0x01, 0x00, 0x02]);

    let decoded = WriteMultipleRegistersResponse::decode(&buf).unwrap();
    assert_eq!(decoded, resp);
}

#[test]
fn write_multiple_registers_response_decode_rejects_wrong_function_code() {
    let buf = [0x06, 0x00, 0x01, 0x00, 0x02];
    assert!(matches!(
        WriteMultipleRegistersResponse::decode(&buf),
        Err(DecodeError::UnknownFunctionCode)
    ));
}

#[test]
fn write_multiple_registers_encode_rejects_too_small_buffer() {
    let req = WriteMultipleRegistersRequest::new(0, 1, vec![0x00, 0x00]).unwrap();
    let mut buf = [0u8; 5];
    assert!(matches!(
        req.encode(&mut buf),
        Err(EncodeError::BufferTooSmall)
    ));
}
