use modbus::function_codes::read_write_multiple_registers::{ReadWriteMultipleRegistersRequest, ReadWriteMultipleRegistersResponse};
use modbus::error::{DecodeError, EncodeError};

#[test]
fn read_write_multiple_registers_request_roundtrip() {
    let write_values = vec![0x00, 0x0A, 0x01, 0x02];
    let req = ReadWriteMultipleRegistersRequest::new(
        0x0003, // read start
        2,      // read qty
        0x000E, // write start
        2,      // write qty
        write_values.clone(),
    )
    .unwrap();
    let mut buf = [0u8; 14];
    let n = req.encode(&mut buf).unwrap();
    assert_eq!(n, 14);
    assert_eq!(
        buf,
        [0x17, 0x00, 0x03, 0x00, 0x02, 0x00, 0x0E, 0x00, 0x02, 0x04, 0x00, 0x0A, 0x01, 0x02]
    );

    let decoded = ReadWriteMultipleRegistersRequest::decode(&buf).unwrap();
    assert_eq!(decoded, req);
}

#[test]
fn read_write_multiple_registers_request_quantity_bounds() {
    let values = vec![0x00, 0x00];
    assert!(ReadWriteMultipleRegistersRequest::new(0, 0, 0, 1, values.clone()).is_err());
    assert!(ReadWriteMultipleRegistersRequest::new(0, 1, 0, 1, values.clone()).is_ok());
    assert!(ReadWriteMultipleRegistersRequest::new(0, 125, 0, 1, values.clone()).is_ok());
    assert!(ReadWriteMultipleRegistersRequest::new(0, 126, 0, 1, values.clone()).is_err());

    assert!(ReadWriteMultipleRegistersRequest::new(0, 1, 0, 0, values.clone()).is_err());
    assert!(ReadWriteMultipleRegistersRequest::new(0, 1, 0, 1, values.clone()).is_ok());
    assert!(ReadWriteMultipleRegistersRequest::new(0, 1, 0, 121, vec![0u8; 242]).is_ok());
    assert!(ReadWriteMultipleRegistersRequest::new(0, 1, 0, 122, vec![0u8; 244]).is_err());
}

#[test]
fn request_rejects_mismatched_write_value_length() {
    // 2 write registers need 4 bytes, not 2
    assert!(
        ReadWriteMultipleRegistersRequest::new(0, 1, 0, 2, vec![0x00, 0x00]).is_err()
    );
}

#[test]
fn read_write_multiple_registers_request_decode_rejects_wrong_function_code() {
    let buf = [0x06, 0x00, 0x03, 0x00, 0x02, 0x00, 0x0E, 0x00, 0x02, 0x04, 0x00, 0x0A, 0x01, 0x02];
    assert!(matches!(
        ReadWriteMultipleRegistersRequest::decode(&buf),
        Err(DecodeError::UnknownFunctionCode)
    ));
}

#[test]
fn read_write_multiple_registers_response_roundtrip() {
    let resp = ReadWriteMultipleRegistersResponse {
        register_values: vec![0x00, 0x0A, 0x01, 0x02],
    };
    let mut buf = [0u8; 6];
    let n = resp.encode(&mut buf).unwrap();
    assert_eq!(n, 6);
    assert_eq!(buf, [0x17, 0x04, 0x00, 0x0A, 0x01, 0x02]);

    let decoded = ReadWriteMultipleRegistersResponse::decode(&buf).unwrap();
    assert_eq!(decoded, resp);
}

#[test]
fn read_write_multiple_registers_response_rejects_odd_byte_count() {
    let resp = ReadWriteMultipleRegistersResponse {
        register_values: vec![0x00, 0x0A, 0x01],
    };
    let mut buf = [0u8; 8];
    assert!(matches!(
        resp.encode(&mut buf),
        Err(EncodeError::BufferTooSmall)
    ));

    let buf = [0x17, 0x03, 0x00, 0x0A, 0x01];
    assert!(matches!(
        ReadWriteMultipleRegistersResponse::decode(&buf),
        Err(DecodeError::InvalidLength)
    ));
}

#[test]
fn read_write_multiple_registers_response_decode_rejects_wrong_function_code() {
    let buf = [0x06, 0x02, 0x00, 0x00];
    assert!(matches!(
        ReadWriteMultipleRegistersResponse::decode(&buf),
        Err(DecodeError::UnknownFunctionCode)
    ));
}

#[test]
fn read_write_multiple_registers_encode_rejects_too_small_buffer() {
    let req = ReadWriteMultipleRegistersRequest::new(0, 1, 0, 1, vec![0x00, 0x00]).unwrap();
    let mut buf = [0u8; 9];
    assert!(matches!(
        req.encode(&mut buf),
        Err(EncodeError::BufferTooSmall)
    ));
}

#[test]
fn read_write_multiple_registers_encode_rejects_buffer_one_byte_short() {
    let req = ReadWriteMultipleRegistersRequest::new(0, 1, 0, 1, vec![0x00, 0x00]).unwrap();
    let mut buf = [0u8; 11];
    assert!(matches!(req.encode(&mut buf), Err(EncodeError::BufferTooSmall)));
    let mut buf = [0u8; 12];
    assert_eq!(req.encode(&mut buf).unwrap(), 12);
}
