use modbus::ascii::AsciiAdu;
use modbus::ascii_client::{
    ascii_request_frame, ascii_response_pdu, AsciiAduAdapter, AsciiClient, AsciiClientError,
};
use modbus::exception::{ExceptionCode, ExceptionResponse};
use modbus::function_codes::read_coils::{ReadCoilsRequest, ReadCoilsResponse};
use modbus::client::{AduAdapter, ClientConfig, ClientError};
use modbus::error::{DecodeError, EncodeError};
use modbus::helpers::{Endian, WordOrder};
use modbus::transport::{Transport, TransportError};
use std::time::Duration;

struct ScriptedTransport {
    sent: Vec<Vec<u8>>,
    response: Option<Vec<u8>>,
}

impl ScriptedTransport {
    fn answering(response: Option<Vec<u8>>) -> Self {
        Self {
            sent: Vec::new(),
            response,
        }
    }
}

impl Transport for ScriptedTransport {
    fn send(&mut self, data: &[u8]) -> Result<(), TransportError> {
        self.sent.push(data.to_vec());
        Ok(())
    }

    fn recv(&mut self, buf: &mut [u8], _timeout: Duration) -> Result<usize, TransportError> {
        let data = self.response.take().ok_or(TransportError::Timeout)?;
        let n = data.len().min(buf.len());
        buf[..n].copy_from_slice(&data[..n]);
        Ok(n)
    }
}

fn ascii_frame(address: u8, pdu: Vec<u8>) -> Vec<u8> {
    let mut buf = [0u8; 513];
    let n = AsciiAdu::new(address, pdu).encode(&mut buf).unwrap();
    buf[..n].to_vec()
}

#[test]
fn ascii_adapter_sends_ascii_frame_and_returns_pdu() {
    let transport = ScriptedTransport::answering(Some(ascii_frame(0x01, vec![0x03, 0x02, 0x00, 0x0A])));
    let mut adapter = AsciiAduAdapter::new(transport);
    let pdu = adapter
        .send_receive(0x01, &[0x03, 0x00, 0x00, 0x00, 0x01])
        .unwrap();
    assert_eq!(pdu, vec![0x03, 0x02, 0x00, 0x0A]);
    assert_eq!(adapter.transport().sent.len(), 1);
    assert_eq!(adapter.transport().sent[0], b":010300000001FB\r\n".to_vec());
}

#[test]
fn ascii_adapter_waits_for_broadcast_answer() {
    let mut adapter = AsciiAduAdapter::new(ScriptedTransport::answering(None));
    let err = adapter.send_receive(0x00, &[0x05, 0x00, 0x01, 0xFF, 0x00]).unwrap_err();
    assert!(matches!(err, ClientError::Timeout));
    assert_eq!(adapter.transport().sent.len(), 1);
}

#[test]
fn ascii_adapter_rejects_wrong_slave() {
    let transport = ScriptedTransport::answering(Some(ascii_frame(0x02, vec![0x01, 0x01, 0x01])));
    let mut adapter = AsciiAduAdapter::with_config(transport, ClientConfig::default());
    let err = adapter.send_receive(0x01, &[0x01, 0x00, 0x00, 0x00, 0x01]).unwrap_err();
    assert!(matches!(err, ClientError::InvalidResponse));
}

#[test]
fn ascii_response_pdu_cases() {
    assert!(matches!(
        ascii_response_pdu(0x01, &[]),
        Err(ClientError::Transport(TransportError::Disconnected))
    ));
    assert!(matches!(
        ascii_response_pdu(0x01, b":01030000000AF3\r\n"),
        Err(ClientError::Decode(DecodeError::InvalidValue))
    ));
    assert_eq!(
        ascii_response_pdu(0x01, b":01030000000AF2\r\n").unwrap(),
        vec![0x03, 0x00, 0x00, 0x00, 0x0A]
    );
}

#[test]
fn ascii_request_frame_limits() {
    assert_eq!(
        ascii_request_frame(0x01, &[0x03, 0x00, 0x00, 0x00, 0x0A]).unwrap(),
        b":01030000000AF2\r\n".to_vec()
    );
    // 7 + 2 * 252 = 511 bytes fit, 7 + 2 * 253 = 513 do not.
    assert_eq!(ascii_request_frame(0x01, &[0x11; 252]).unwrap().len(), 511);
    assert!(matches!(
        ascii_request_frame(0x01, &[0x11; 253]),
        Err(ClientError::Encode(EncodeError::BufferTooSmall))
    ));
}

#[test]
fn ascii_client_dispatches_with_its_config() {
    let transport = ScriptedTransport::answering(Some(ascii_frame(0x01, vec![0x03, 0x02, 0x12, 0x34])));
    let mut config = ClientConfig::default();
    config.endian = Endian::Little;
    let mut client = AsciiClient::with_config(transport, config);
    assert_eq!(client.config().endian, Endian::Little);
    assert_eq!(client.config().word_order, WordOrder::MostSignificantFirst);
    let pdu = client.dispatch(0x01, &[0x03, 0x00, 0x00, 0x00, 0x01]).unwrap();
    assert_eq!(pdu, vec![0x03, 0x02, 0x12, 0x34]);
}

struct MockTransport {
    sent: Vec<Vec<u8>>,
    responses: std::collections::VecDeque<Vec<u8>>,
}

impl MockTransport {
    fn new(responses: Vec<Vec<u8>>) -> Self {
        Self {
            sent: Vec::new(),
            responses: responses.into(),
        }
    }
}

impl Transport for MockTransport {
    fn send(&mut self, data: &[u8]) -> Result<(), TransportError> {
        self.sent.push(data.to_vec());
        Ok(())
    }

    fn recv(&mut self, buf: &mut [u8], _timeout: Duration) -> Result<usize, TransportError> {
        let resp = self
            .responses
            .pop_front()
            .ok_or(TransportError::Disconnected)?;
        let n = resp.len().min(buf.len());
        buf[..n].copy_from_slice(&resp[..n]);
        Ok(n)
    }
}

#[test]
fn ascii_client_dispatch_returns_exception() {
    let request_pdu = {
        let req = ReadCoilsRequest::new(0x0000, 10).unwrap();
        let mut buf = [0u8; 5];
        let n = req.encode(&mut buf).unwrap();
        buf[..n].to_vec()
    };
    let exception_pdu = {
        let exc = ExceptionResponse::new(0x01, ExceptionCode::IllegalDataAddress);
        let mut buf = [0u8; 2];
        let n = exc.encode(&mut buf).unwrap();
        buf[..n].to_vec()
    };
    let response_adu = {
        let adu = AsciiAdu::new(0x01, exception_pdu);
        let mut buf = [0u8; 32];
        let n = adu.encode(&mut buf).unwrap();
        buf[..n].to_vec()
    };

    let mut client = AsciiClient::new(MockTransport::new(vec![response_adu]));
    let err = client.dispatch(0x01, &request_pdu).unwrap_err();
    assert!(matches!(err, AsciiClientError::Exception(_)));
}

#[test]
fn ascii_client_dispatch_rejects_wrong_slave() {
    let response_adu = {
        let pdu = {
            let resp = ReadCoilsResponse {
                coil_status: vec![0x01],
            };
            let mut buf = [0u8; 3];
            let n = resp.encode(&mut buf).unwrap();
            buf[..n].to_vec()
        };
        let adu = AsciiAdu::new(0x02, pdu);
        let mut buf = [0u8; 32];
        let n = adu.encode(&mut buf).unwrap();
        buf[..n].to_vec()
    };

    let mut client = AsciiClient::new(MockTransport::new(vec![response_adu]));
    let err = client
        .dispatch(0x01, &[0x01, 0x00, 0x00, 0x00, 0x01])
        .unwrap_err();
    assert!(matches!(err, AsciiClientError::InvalidResponse));
}
