use modbus::client::{AduAdapter, ClientConfig, ClientError};
use modbus::function_codes::read_coils::{ReadCoilsRequest, ReadCoilsResponse};
use modbus::metrics::Metrics;
use modbus::rtu::RtuAdu;
use modbus::rtu_adapter::{rtu_request_frame, rtu_response_pdu, Client, RtuAduAdapter};
use modbus::transport::{Transport, TransportError};
use modbus::error::{DecodeError, EncodeError};
use std::sync::Arc;
use std::time::Duration;

struct MockTransport {
    sent: Vec<Vec<u8>>,
    response: Option<Vec<u8>>,
}

impl MockTransport {
    fn new() -> Self {
        Self {
            sent: Vec::new(),
            response: None,
        }
    }
}

impl Transport for MockTransport {
    fn send(&mut self, data: &[u8]) -> Result<(), TransportError> {
        self.sent.push(data.to_vec());
        Ok(())
    }

    fn recv(&mut self, buf: &mut [u8], _timeout: Duration) -> Result<usize, TransportError> {
        let data = self.response.take().ok_or(TransportError::Disconnected)?;
        if buf.len() < data.len() {
            return Err(TransportError::Disconnected);
        }
        buf[..data.len()].copy_from_slice(&data);
        Ok(data.len())
    }
}

fn read_coils_pdu(address: u16, quantity: u16) -> Vec<u8> {
    let req = ReadCoilsRequest::new(address, quantity).unwrap();
    let mut buf = [0u8; 5];
    let n = req.encode(&mut buf).unwrap();
    buf[..n].to_vec()
}

fn rtu_frame(address: u8, pdu: Vec<u8>) -> Vec<u8> {
    let mut buf = [0u8; 512];
    let n = RtuAdu::new(address, pdu).encode(&mut buf).unwrap();
    buf[..n].to_vec()
}

#[test]
fn rtu_adapter_broadcast_skips_recv_and_returns_empty_pdu() {
    let request_pdu = {
        let req = ReadCoilsRequest::new(0, 8).unwrap();
        let mut buf = [0u8; 5];
        let n = req.encode(&mut buf).unwrap();
        buf[..n].to_vec()
    };

    let mut adapter = RtuAduAdapter::with_config(MockTransport::new(), ClientConfig::default());
    let response = adapter.send_receive(0, &request_pdu).unwrap();

    assert!(response.is_empty());
    assert_eq!(adapter.transport().sent.len(), 1);

    let sent = RtuAdu::decode(&adapter.transport().sent[0]).unwrap();
    assert_eq!(sent.address, 0);
    assert_eq!(sent.pdu, request_pdu);
}

#[test]
fn metrics_count_request_and_response() {
    let response_pdu = vec![0x01, 0x01, 0b00001101];
    let mut transport = MockTransport::new();
    let mut adu_buf = [0u8; 32];
    let n = RtuAdu::new(0x01, response_pdu.clone())
        .encode(&mut adu_buf)
        .unwrap();
    transport.response = Some(adu_buf[..n].to_vec());

    let metrics = Arc::new(Metrics::new());
    let mut adapter = RtuAduAdapter::with_config(transport, ClientConfig::default());
    adapter.set_metrics(Arc::clone(&metrics));

    let request_pdu = {
        let req = ReadCoilsRequest::new(0, 8).unwrap();
        let mut buf = [0u8; 5];
        let n = req.encode(&mut buf).unwrap();
        buf[..n].to_vec()
    };
    let response = adapter.send_receive(0x01, &request_pdu).unwrap();

    assert_eq!(response, response_pdu);
    assert_eq!(metrics.requests_sent(), 1);
    assert_eq!(metrics.responses_received(), 1);
}

#[test]
fn rtu_adapter_returns_response_pdu_of_addressed_unit() {
    let mut transport = MockTransport::new();
    transport.response = Some(rtu_frame(0x11, vec![0x01, 0x01, 0x05]));
    let mut adapter = RtuAduAdapter::new(transport);
    let pdu = adapter.send_receive(0x11, &read_coils_pdu(0, 3)).unwrap();
    assert_eq!(pdu, vec![0x01, 0x01, 0x05]);
    assert_eq!(
        adapter.transport().sent[0],
        rtu_frame(0x11, read_coils_pdu(0, 3))
    );
}

#[test]
fn rtu_adapter_rejects_response_from_other_unit() {
    let mut transport = MockTransport::new();
    transport.response = Some(rtu_frame(0x02, vec![0x01, 0x01, 0x05]));
    let mut adapter = RtuAduAdapter::new(transport);
    let err = adapter.send_receive(0x01, &read_coils_pdu(0, 3)).unwrap_err();
    assert!(matches!(err, ClientError::InvalidResponse));
}

#[test]
fn rtu_adapter_maps_missing_response_to_transport_error() {
    let mut adapter = RtuAduAdapter::new(MockTransport::new());
    let err = adapter.send_receive(0x01, &read_coils_pdu(0, 3)).unwrap_err();
    assert!(matches!(
        err,
        ClientError::Transport(TransportError::Disconnected)
    ));
}

#[test]
fn rtu_adapter_reports_bad_crc_as_decode_error() {
    let mut frame = rtu_frame(0x01, vec![0x01, 0x01, 0x05]);
    let last = frame.len() - 1;
    frame[last] ^= 0xFF;
    let mut transport = MockTransport::new();
    transport.response = Some(frame);
    let mut adapter = RtuAduAdapter::new(transport);
    let err = adapter.send_receive(0x01, &read_coils_pdu(0, 3)).unwrap_err();
    assert!(matches!(err, ClientError::Decode(DecodeError::InvalidValue)));
}

#[test]
fn rtu_request_frame_rejects_oversized_pdu() {
    let pdu = vec![0x10; 510];
    assert!(matches!(
        rtu_request_frame(0x01, &pdu),
        Err(ClientError::Encode(EncodeError::BufferTooSmall))
    ));
    let pdu = vec![0x10; 509];
    assert_eq!(rtu_request_frame(0x01, &pdu).unwrap().len(), 512);
}

#[test]
fn rtu_response_pdu_cases() {
    assert!(matches!(
        rtu_response_pdu(0x01, &[]),
        Err(ClientError::Transport(TransportError::Disconnected))
    ));
    assert!(matches!(
        rtu_response_pdu(0x01, &[0x01, 0x02]),
        Err(ClientError::Decode(DecodeError::InvalidLength))
    ));
    let frame = rtu_frame(0x01, vec![0x03, 0x02, 0x00, 0x0A]);
    assert_eq!(
        rtu_response_pdu(0x01, &frame).unwrap(),
        vec![0x03, 0x02, 0x00, 0x0A]
    );
}

#[test]
fn rtu_client_dispatch_validates_function_code() {
    let response = {
        let resp = ReadCoilsResponse {
            coil_status: vec![0b00001101],
        };
        let mut buf = [0u8; 3];
        let n = resp.encode(&mut buf).unwrap();
        buf[..n].to_vec()
    };
    let mut transport = MockTransport::new();
    transport.response = Some(rtu_frame(0x01, response.clone()));
    let mut client = Client::new(transport);
    let pdu = client.dispatch(0x01, &read_coils_pdu(0, 4)).unwrap();
    assert_eq!(pdu, response);

    let mut transport = MockTransport::new();
    transport.response = Some(rtu_frame(0x01, vec![0x02, 0x01, 0x00]));
    let mut client = Client::new(transport);
    let err = client.dispatch(0x01, &read_coils_pdu(0, 4)).unwrap_err();
    assert!(matches!(err, ClientError::InvalidResponse));
}
