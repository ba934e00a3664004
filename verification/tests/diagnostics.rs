use modbus::function_codes::diagnostics::{CHANGE_ASCII_INPUT_DELIMITER, CLEAR_COUNTERS_AND_DIAGNOSTIC_REGISTER, CLEAR_OVERRUN_COUNTER_AND_FLAG, DiagnosticsRequest, DiagnosticsResponse, FORCE_LISTEN_ONLY_MODE, RESTART_COMMUNICATIONS_OPTION, RETURN_BUS_CHARACTER_OVERRUN_COUNT, RETURN_BUS_COMMUNICATION_ERROR_COUNT, RETURN_BUS_EXCEPTION_ERROR_COUNT, RETURN_BUS_MESSAGE_COUNT, RETURN_DIAGNOSTIC_REGISTER, RETURN_QUERY_DATA, RETURN_SLAVE_BUSY_COUNT, RETURN_SLAVE_MESSAGE_COUNT, RETURN_SLAVE_NAK_COUNT, RETURN_SLAVE_NO_RESPONSE_COUNT};
use modbus::error::{DecodeError, EncodeError};

#[test]
fn diagnostics_request_roundtrip() {
    let req = DiagnosticsRequest::new(RETURN_QUERY_DATA, 0xA537);
    let mut buf = [0u8; 5];
    let n = req.encode(&mut buf).unwrap();
    assert_eq!(n, 5);
    assert_eq!(buf, [0x08, 0x00, 0x00, 0xA5, 0x37]);

    let decoded = DiagnosticsRequest::decode(&buf).unwrap();
    assert_eq!(decoded, req);
}

#[test]
fn diagnostics_request_decode_rejects_wrong_function_code() {
    let buf = [0x06, 0x00, 0x00, 0xA5, 0x37];
    assert!(matches!(
        DiagnosticsRequest::decode(&buf),
        Err(DecodeError::UnknownFunctionCode)
    ));
}

#[test]
fn diagnostics_response_roundtrip() {
    let resp = DiagnosticsResponse {
        sub_function: RETURN_BUS_MESSAGE_COUNT,
        data: 0x1234,
    };
    let mut buf = [0u8; 5];
    let n = resp.encode(&mut buf).unwrap();
    assert_eq!(n, 5);
    assert_eq!(buf, [0x08, 0x00, 0x0B, 0x12, 0x34]);

    let decoded = DiagnosticsResponse::decode(&buf).unwrap();
    assert_eq!(decoded, resp);
}

#[test]
fn diagnostics_response_decode_rejects_wrong_function_code() {
    let buf = [0x06, 0x00, 0x0B, 0x12, 0x34];
    assert!(matches!(
        DiagnosticsResponse::decode(&buf),
        Err(DecodeError::UnknownFunctionCode)
    ));
}

#[test]
fn diagnostics_encode_rejects_too_small_buffer() {
    let req = DiagnosticsRequest::new(RETURN_QUERY_DATA, 0);
    let mut buf = [0u8; 4];
    assert!(matches!(
        req.encode(&mut buf),
        Err(EncodeError::BufferTooSmall)
    ));
}
