//! The library's frame readers driven over in-memory byte streams, the way a
//! stream transport drives them.

use std::io::{self, Read, Write};

use modbus::ascii::AsciiAdu;
use modbus::ascii_server::{serve_action, AsciiRequestReader, AsciiServerError, RequestStep, ServeAction};
use modbus::error::DecodeError;
use modbus::function_codes::read_coils::ReadCoilsRequest;
use modbus::framing::{AsciiFrameReader, FrameEvent, FrameStep, RtuFrameReader};
use modbus::rtu::RtuAdu;
use modbus::transport::TransportError;

struct Duplex {
    read_buf: Vec<u8>,
    read_pos: usize,
    write_buf: Vec<u8>,
}

impl Duplex {
    fn new(read_buf: Vec<u8>) -> Self {
        Self {
            read_buf,
            read_pos: 0,
            write_buf: Vec::new(),
        }
    }
}

impl Read for Duplex {
    fn read(&mut self, buf: &mut [u8]) -> io::Result<usize> {
        let remaining = self.read_buf.len() - self.read_pos;
        if remaining == 0 {
            return Ok(0);
        }
        let n = buf.len().min(remaining);
        buf[..n].copy_from_slice(&self.read_buf[self.read_pos..self.read_pos + n]);
        self.read_pos += n;
        Ok(n)
    }
}

impl Write for Duplex {
    fn write(&mut self, buf: &[u8]) -> io::Result<usize> {
        self.write_buf.extend_from_slice(buf);
        Ok(buf.len())
    }

    fn flush(&mut self) -> io::Result<()> {
        Ok(())
    }
}

struct TimeoutStream;

impl Read for TimeoutStream {
    fn read(&mut self, _buf: &mut [u8]) -> io::Result<usize> {
        Err(io::Error::new(io::ErrorKind::TimedOut, "no data"))
    }
}

impl Write for TimeoutStream {
    fn write(&mut self, buf: &[u8]) -> io::Result<usize> {
        Ok(buf.len())
    }

    fn flush(&mut self) -> io::Result<()> {
        Ok(())
    }
}

fn read_event<T: Read>(stream: &mut T) -> io::Result<FrameEvent> {
    let mut byte = [0u8; 1];
    loop {
        match stream.read(&mut byte) {
            Ok(0) => return Ok(FrameEvent::EndOfStream),
            Ok(_) => return Ok(FrameEvent::Byte(byte[0])),
            Err(e) if e.kind() == io::ErrorKind::Interrupted => continue,
            Err(e)
                if e.kind() == io::ErrorKind::WouldBlock || e.kind() == io::ErrorKind::TimedOut =>
            {
                return Ok(FrameEvent::TimedOut)
            }
            Err(e) => return Err(e),
        }
    }
}

fn recv_ascii<T: Read>(stream: &mut T, buf: &mut [u8]) -> Result<usize, TransportError> {
    let mut reader = AsciiFrameReader::new();
    loop {
        let event = read_event(stream).map_err(TransportError::Io)?;
        match reader.step(event) {
            FrameStep::ReadMore => continue,
            FrameStep::Complete => break,
            FrameStep::Failed(e) => return Err(e),
        }
    }
    reader.finish(buf)
}

fn recv_rtu<T: Read>(stream: &mut T, buf: &mut [u8]) -> Result<usize, TransportError> {
    let mut reader = RtuFrameReader::new();
    loop {
        let event = read_event(stream).map_err(TransportError::Io)?;
        match reader.step(event) {
            FrameStep::ReadMore => continue,
            FrameStep::Complete => break,
            FrameStep::Failed(e) => return Err(e),
        }
    }
    reader.finish(buf)
}

fn read_request<T: Read>(stream: &mut T) -> Result<AsciiAdu, AsciiServerError> {
    let mut reader = AsciiRequestReader::new();
    loop {
        let event = read_event(stream).map_err(AsciiServerError::Io)?;
        match reader.step(event) {
            RequestStep::ReadMore => continue,
            RequestStep::Complete => break,
            RequestStep::Disconnected => return Err(AsciiServerError::Disconnected),
        }
    }
    reader.finish()
}

fn send<T: Write>(stream: &mut T, data: &[u8]) {
    stream.write_all(data).unwrap();
    stream.flush().unwrap();
}

#[test]
fn ascii_transport_roundtrip() {
    let request = AsciiAdu::new(0x01, vec![0x03, 0x00, 0x00, 0x00, 0x0A]);
    let response = AsciiAdu::new(0x01, vec![0x03, 0x02, 0x00, 0x0A]);

    let mut encoded_request = [0u8; 32];
    let n = request.encode(&mut encoded_request).unwrap();
    let mut encoded_response = [0u8; 32];
    let m = response.encode(&mut encoded_response).unwrap();

    let mut stream = Duplex::new(encoded_response[..m].to_vec());
    send(&mut stream, &encoded_request[..n]);

    let mut buf = [0u8; 64];
    let received = recv_ascii(&mut stream, &mut buf).unwrap();
    let decoded = AsciiAdu::decode(&buf[..received]).unwrap();
    assert_eq!(decoded, response);
    assert!(!stream.write_buf.is_empty());
}

#[test]
fn ascii_transport_skips_garbage_before_start() {
    let response = AsciiAdu::new(0x01, vec![0x03, 0x02, 0x00, 0x0A]);
    let mut encoded_response = [0u8; 32];
    let m = response.encode(&mut encoded_response).unwrap();

    let mut input = b"garbage".to_vec();
    input.extend_from_slice(&encoded_response[..m]);

    let mut stream = Duplex::new(input);
    let mut buf = [0u8; 64];
    let received = recv_ascii(&mut stream, &mut buf).unwrap();
    let decoded = AsciiAdu::decode(&buf[..received]).unwrap();
    assert_eq!(decoded, response);
}

#[test]
fn ascii_transport_partial_frame_returns_timeout() {
    let mut stream = TimeoutStream;
    send(&mut stream, b":0103");
    let mut buf = [0u8; 64];
    let err = recv_ascii(&mut stream, &mut buf).unwrap_err();
    assert!(matches!(err, TransportError::Timeout));
}

#[test]
fn rtu_framing_over_serial_transport() {
    let request = RtuAdu::new(0x01, vec![0x03, 0x00, 0x00, 0x00, 0x0A]);
    let response = RtuAdu::new(0x01, vec![0x03, 0x02, 0x00, 0x0A]);

    let mut encoded_request = [0u8; 32];
    let n = request.encode(&mut encoded_request).unwrap();
    let mut encoded_response = [0u8; 32];
    let m = response.encode(&mut encoded_response).unwrap();

    let mut stream = Duplex::new(encoded_response[..m].to_vec());
    send(&mut stream, &encoded_request[..n]);

    let mut buf = [0u8; 64];
    let received = recv_rtu(&mut stream, &mut buf).unwrap();
    let decoded = RtuAdu::decode(&buf[..received]).unwrap();
    assert_eq!(decoded, response);
}

#[test]
fn ascii_framing_over_serial_transport() {
    let request = AsciiAdu::new(0x01, vec![0x03, 0x00, 0x00, 0x00, 0x0A]);
    let response = AsciiAdu::new(0x01, vec![0x03, 0x02, 0x00, 0x0A]);

    let mut encoded_request = [0u8; 32];
    let n = request.encode(&mut encoded_request).unwrap();
    let mut encoded_response = [0u8; 32];
    let m = response.encode(&mut encoded_response).unwrap();

    let mut stream = Duplex::new(encoded_response[..m].to_vec());
    send(&mut stream, &encoded_request[..n]);

    let mut buf = [0u8; 64];
    let received = recv_ascii(&mut stream, &mut buf).unwrap();
    let decoded = AsciiAdu::decode(&buf[..received]).unwrap();
    assert_eq!(decoded, response);
}

#[test]
fn rtu_transport_rejects_truncated_frame() {
    let mut stream = TimeoutStream;
    send(&mut stream, &[0x01, 0x03, 0x00, 0x00, 0x00, 0x0A]);
    let mut buf = [0u8; 64];
    let err = recv_rtu(&mut stream, &mut buf).unwrap_err();
    assert!(matches!(err, TransportError::Timeout));
}

fn make_read_coils_adu(slave: u8, address: u16, quantity: u16) -> Vec<u8> {
    let req = ReadCoilsRequest::new(address, quantity).unwrap();
    let mut pdu = [0u8; 5];
    let n = req.encode(&mut pdu).unwrap();
    let mut adu = [0u8; 32];
    let m = AsciiAdu::new(slave, pdu[..n].to_vec())
        .encode(&mut adu)
        .unwrap();
    adu[..m].to_vec()
}

#[test]
fn request_for_other_address_is_ignored() {
    let request = make_read_coils_adu(0x02, 0, 8);
    let mut stream = Duplex::new(request);

    let request = read_request(&mut stream).unwrap();
    assert_eq!(serve_action(&request, 0x03), ServeAction::Ignore);
    assert!(stream.write_buf.is_empty());
}

#[test]
fn request_with_bad_lrc_is_a_decode_error() {
    let mut stream = Duplex::new(b":010300000001FA\r\n".to_vec());
    let err = read_request(&mut stream).unwrap_err();
    assert!(matches!(
        err,
        AsciiServerError::Decode(DecodeError::InvalidValue)
    ));
}

#[test]
fn ascii_server_reads_back_to_back_requests_until_eof() {
    let mut input = make_read_coils_adu(0x07, 0, 8);
    input.extend_from_slice(&make_read_coils_adu(0x07, 0, 8));
    let mut stream = Duplex::new(input);
    for _ in 0..2 {
        let request = read_request(&mut stream).unwrap();
        assert_eq!(request.address, 0x07);
        assert_eq!(serve_action(&request, 0x07), ServeAction::Respond);
    }
    assert!(matches!(
        read_request(&mut stream),
        Err(AsciiServerError::Disconnected)
    ));
}
