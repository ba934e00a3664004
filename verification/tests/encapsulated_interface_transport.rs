use modbus::function_codes::encapsulated_interface_transport::{EncapsulatedInterfaceTransportRequest, EncapsulatedInterfaceTransportResponse, MEI_TYPE_CANOPEN_GENERAL_REFERENCE, MEI_TYPE_READ_DEVICE_IDENTIFICATION, READ_DEVICE_ID_CODE_BASIC, READ_DEVICE_ID_CODE_EXTENDED, READ_DEVICE_ID_CODE_REGULAR, READ_DEVICE_ID_CODE_SPECIFIC};
use modbus::error::{DecodeError, EncodeError};

#[test]
fn request_roundtrip_read_device_id() {
    let req = EncapsulatedInterfaceTransportRequest::new(
        MEI_TYPE_READ_DEVICE_IDENTIFICATION,
        vec![READ_DEVICE_ID_CODE_BASIC, 0x00],
    );
    let mut buf = [0u8; 4];
    let n = req.encode(&mut buf).unwrap();
    assert_eq!(n, 4);
    assert_eq!(buf, [0x2B, 0x0E, 0x01, 0x00]);

    let decoded = EncapsulatedInterfaceTransportRequest::decode(&buf).unwrap();
    assert_eq!(decoded, req);
}

#[test]
fn request_roundtrip_canopen() {
    let req = EncapsulatedInterfaceTransportRequest::new(
        MEI_TYPE_CANOPEN_GENERAL_REFERENCE,
        vec![0x00, 0x10, 0x20, 0x05, 0x02, 0xAA, 0xBB],
    );
    let mut buf = [0u8; 9];
    let n = req.encode(&mut buf).unwrap();
    assert_eq!(n, 9);

    let decoded = EncapsulatedInterfaceTransportRequest::decode(&buf).unwrap();
    assert_eq!(decoded, req);
}

#[test]
fn encapsulated_interface_transport_request_decode_rejects_wrong_function_code() {
    let buf = [0x2C, 0x0E, 0x01, 0x00];
    assert!(matches!(
        EncapsulatedInterfaceTransportRequest::decode(&buf),
        Err(DecodeError::UnknownFunctionCode)
    ));
}

#[test]
fn response_roundtrip_read_device_id() {
    let resp = EncapsulatedInterfaceTransportResponse::new(
        MEI_TYPE_READ_DEVICE_IDENTIFICATION,
        vec![
            READ_DEVICE_ID_CODE_BASIC,
            0x01, // conformity level
            0x00, // more follows
            0x00, // next object id
            0x01, // number of objects
            0x01, // object id
            0x02, // object length
            0x41, 0x42, // object value "AB"
        ],
    );
    let mut buf = [0u8; 11];
    let n = resp.encode(&mut buf).unwrap();
    assert_eq!(n, 11);

    let decoded = EncapsulatedInterfaceTransportResponse::decode(&buf).unwrap();
    assert_eq!(decoded, resp);
}

#[test]
fn response_roundtrip_canopen() {
    let resp = EncapsulatedInterfaceTransportResponse::new(
        MEI_TYPE_CANOPEN_GENERAL_REFERENCE,
        vec![0x00, 0x10, 0x20, 0x05, 0x02, 0xAA, 0xBB],
    );
    let mut buf = [0u8; 9];
    let n = resp.encode(&mut buf).unwrap();
    assert_eq!(n, 9);

    let decoded = EncapsulatedInterfaceTransportResponse::decode(&buf).unwrap();
    assert_eq!(decoded, resp);
}

#[test]
fn encapsulated_interface_transport_response_decode_rejects_wrong_function_code() {
    let buf = [0x2C, 0x0E, 0x01, 0x00];
    assert!(matches!(
        EncapsulatedInterfaceTransportResponse::decode(&buf),
        Err(DecodeError::UnknownFunctionCode)
    ));
}

#[test]
fn encapsulated_interface_transport_encode_rejects_too_small_buffer() {
    let req = EncapsulatedInterfaceTransportRequest::new(
        MEI_TYPE_READ_DEVICE_IDENTIFICATION,
        vec![READ_DEVICE_ID_CODE_BASIC, 0x00],
    );
    let mut buf = [0u8; 1];
    assert!(matches!(
        req.encode(&mut buf),
        Err(EncodeError::BufferTooSmall)
    ));
}
