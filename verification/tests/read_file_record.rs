use modbus::function_codes::read_file_record::{ReadFileRecordRequest, ReadFileRecordResponse, ReadFileRecordSubRequest, ReadFileRecordSubResponse};
use modbus::error::{DecodeError, EncodeError};

#[test]
fn read_file_record_request_roundtrip() {
    let req =
        ReadFileRecordRequest::new(vec![ReadFileRecordSubRequest::new(0x0004, 0x0001, 0x0002)]);
    let mut buf = [0u8; 9];
    let n = req.encode(&mut buf).unwrap();
    assert_eq!(n, 9);
    assert_eq!(buf, [0x14, 0x07, 0x06, 0x00, 0x04, 0x00, 0x01, 0x00, 0x02]);

    let decoded = ReadFileRecordRequest::decode(&buf).unwrap();
    assert_eq!(decoded, req);
}

#[test]
fn read_file_record_request_multiple_sub_requests() {
    let req = ReadFileRecordRequest::new(vec![
        ReadFileRecordSubRequest::new(0x0001, 0x0002, 0x0003),
        ReadFileRecordSubRequest::new(0x0004, 0x0005, 0x0006),
    ]);
    let mut buf = [0u8; 16];
    let n = req.encode(&mut buf).unwrap();
    assert_eq!(n, 16);

    let decoded = ReadFileRecordRequest::decode(&buf).unwrap();
    assert_eq!(decoded, req);
}

#[test]
fn read_file_record_request_decode_rejects_wrong_function_code() {
    let buf = [0x15, 0x07, 0x06, 0x00, 0x04, 0x00, 0x01, 0x00, 0x02];
    assert!(matches!(
        ReadFileRecordRequest::decode(&buf),
        Err(DecodeError::UnknownFunctionCode)
    ));
}

#[test]
fn read_file_record_response_roundtrip() {
    let resp = ReadFileRecordResponse::new(vec![ReadFileRecordSubResponse::new(vec![
        0x0D, 0xFE, 0x00, 0x20,
    ])]);
    let mut buf = [0u8; 8];
    let n = resp.encode(&mut buf).unwrap();
    assert_eq!(n, 8);
    assert_eq!(buf, [0x14, 0x06, 0x05, 0x06, 0x0D, 0xFE, 0x00, 0x20]);

    let decoded = ReadFileRecordResponse::decode(&buf).unwrap();
    assert_eq!(decoded, resp);
}

#[test]
fn read_file_record_response_multiple_sub_responses() {
    let resp = ReadFileRecordResponse::new(vec![
        ReadFileRecordSubResponse::new(vec![0x00, 0x01]),
        ReadFileRecordSubResponse::new(vec![0x00, 0x02, 0x00, 0x03]),
    ]);
    let mut buf = [0u8; 14];
    let n = resp.encode(&mut buf).unwrap();
    assert_eq!(n, 12);

    let decoded = ReadFileRecordResponse::decode(&buf).unwrap();
    assert_eq!(decoded, resp);
}

#[test]
fn read_file_record_response_decode_rejects_wrong_function_code() {
    let buf = [0x15, 0x06, 0x05, 0x06, 0x0D, 0xFE, 0x00, 0x20];
    assert!(matches!(
        ReadFileRecordResponse::decode(&buf),
        Err(DecodeError::UnknownFunctionCode)
    ));
}

#[test]
fn read_file_record_encode_rejects_too_small_buffer() {
    let req = ReadFileRecordRequest::new(vec![]);
    let mut buf = [0u8; 1];
    assert!(matches!(
        req.encode(&mut buf),
        Err(EncodeError::BufferTooSmall)
    ));
}
