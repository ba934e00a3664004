use modbus::function_codes::get_comm_event_counter::{GetCommEventCounterRequest, GetCommEventCounterResponse};
use modbus::error::{DecodeError, EncodeError};

#[test]
fn get_comm_event_counter_request_roundtrip() {
    let req = GetCommEventCounterRequest;
    let mut buf = [0u8; 1];
    let n = req.encode(&mut buf).unwrap();
    assert_eq!(n, 1);
    assert_eq!(buf, [0x0B]);

    let decoded = GetCommEventCounterRequest::decode(&buf).unwrap();
    assert_eq!(decoded, req);
}

#[test]
fn get_comm_event_counter_request_decode_rejects_wrong_function_code() {
    let buf = [0x0C];
    assert!(matches!(
        GetCommEventCounterRequest::decode(&buf),
        Err(DecodeError::UnknownFunctionCode)
    ));
}

#[test]
fn get_comm_event_counter_response_roundtrip() {
    let resp = GetCommEventCounterResponse {
        status: 0xFFFF,
        event_count: 0x1234,
    };
    let mut buf = [0u8; 5];
    let n = resp.encode(&mut buf).unwrap();
    assert_eq!(n, 5);
    assert_eq!(buf, [0x0B, 0xFF, 0xFF, 0x12, 0x34]);

    let decoded = GetCommEventCounterResponse::decode(&buf).unwrap();
    assert_eq!(decoded, resp);
}

#[test]
fn get_comm_event_counter_response_decode_rejects_wrong_function_code() {
    let buf = [0x0C, 0xFF, 0xFF, 0x12, 0x34];
    assert!(matches!(
        GetCommEventCounterResponse::decode(&buf),
        Err(DecodeError::UnknownFunctionCode)
    ));
}

#[test]
fn get_comm_event_counter_encode_rejects_too_small_buffer() {
    let req = GetCommEventCounterRequest;
    let mut buf = [0u8; 0];
    assert!(matches!(
        req.encode(&mut buf),
        Err(EncodeError::BufferTooSmall)
    ));
}
