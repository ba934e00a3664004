use modbus::ascii::AsciiAdu;
use modbus::framing::{AsciiFrameReader, FrameEvent, FrameStep, RtuFrameReader};
use modbus::rtu::RtuAdu;
use modbus::transport::TransportError;

fn feed_ascii(reader: &mut AsciiFrameReader, bytes: &[u8]) -> Option<FrameStep> {
    for &b in bytes {
        match reader.step(FrameEvent::Byte(b)) {
            FrameStep::ReadMore => {}
            other => return Some(other),
        }
    }
    None
}

fn feed_rtu(reader: &mut RtuFrameReader, bytes: &[u8]) -> Option<FrameStep> {
    for &b in bytes {
        match reader.step(FrameEvent::Byte(b)) {
            FrameStep::ReadMore => {}
            other => return Some(other),
        }
    }
    None
}

fn encoded_ascii_response() -> (AsciiAdu, Vec<u8>) {
    let response = AsciiAdu::new(0x01, vec![0x03, 0x02, 0x00, 0x0A]);
    let mut buf = [0u8; 32];
    let m = response.encode(&mut buf).unwrap();
    (response, buf[..m].to_vec())
}

#[test]
fn ascii_reader_receives_a_whole_frame() {
    let (response, frame) = encoded_ascii_response();
    let mut reader = AsciiFrameReader::new();
    assert!(matches!(feed_ascii(&mut reader, &frame), Some(FrameStep::Complete)));
    let mut buf = [0u8; 64];
    let n = reader.finish(&mut buf).unwrap();
    assert_eq!(AsciiAdu::decode(&buf[..n]).unwrap(), response);
}

#[test]
fn ascii_reader_skips_garbage_before_start() {
    let (response, frame) = encoded_ascii_response();
    let mut input = b"garbage".to_vec();
    input.extend_from_slice(&frame);
    let mut reader = AsciiFrameReader::new();
    assert!(matches!(feed_ascii(&mut reader, &input), Some(FrameStep::Complete)));
    assert_eq!(reader.frame(), frame.as_slice());
    let mut buf = [0u8; 64];
    let n = reader.finish(&mut buf).unwrap();
    assert_eq!(AsciiAdu::decode(&buf[..n]).unwrap(), response);
}

#[test]
fn ascii_reader_partial_frame_times_out() {
    let mut reader = AsciiFrameReader::new();
    assert!(feed_ascii(&mut reader, b":0103").is_none());
    assert!(matches!(reader.step(FrameEvent::TimedOut), FrameStep::Complete));
    let mut buf = [0u8; 64];
    assert!(matches!(reader.finish(&mut buf), Err(TransportError::Timeout)));
}

#[test]
fn ascii_reader_empty_stream_outcomes() {
    let mut reader = AsciiFrameReader::new();
    assert!(matches!(
        reader.step(FrameEvent::TimedOut),
        FrameStep::Failed(TransportError::Timeout)
    ));
    let mut reader = AsciiFrameReader::new();
    assert!(matches!(
        reader.step(FrameEvent::EndOfStream),
        FrameStep::Failed(TransportError::Disconnected)
    ));
}

#[test]
fn ascii_reader_truncated_frame_at_eof_is_disconnect() {
    let mut reader = AsciiFrameReader::new();
    assert!(feed_ascii(&mut reader, b":01030000000AF2\r").is_none());
    assert!(matches!(reader.step(FrameEvent::EndOfStream), FrameStep::Complete));
    let mut buf = [0u8; 64];
    assert!(matches!(reader.finish(&mut buf), Err(TransportError::Disconnected)));
}

#[test]
fn ascii_reader_keeps_reading_past_bad_lrc() {
    let mut reader = AsciiFrameReader::new();
    assert!(feed_ascii(&mut reader, b":01030000000AF3\r\n").is_none());
    let (_, frame) = encoded_ascii_response();
    assert!(feed_ascii(&mut reader, &frame).is_none());
}

#[test]
fn ascii_reader_rejects_small_buffer() {
    let (_, frame) = encoded_ascii_response();
    let mut reader = AsciiFrameReader::new();
    feed_ascii(&mut reader, &frame);
    let mut buf = [0u8; 4];
    assert!(matches!(reader.finish(&mut buf), Err(TransportError::Disconnected)));
    assert_eq!(buf, [0u8; 4]);
}

#[test]
fn rtu_reader_receives_a_whole_frame() {
    let response = RtuAdu::new(0x01, vec![0x03, 0x02, 0x00, 0x0A]);
    let mut encoded = [0u8; 32];
    let m = response.encode(&mut encoded).unwrap();
    let mut reader = RtuFrameReader::new();
    assert!(matches!(feed_rtu(&mut reader, &encoded[..m]), Some(FrameStep::Complete)));
    let mut buf = [0u8; 64];
    let n = reader.finish(&mut buf).unwrap();
    assert_eq!(RtuAdu::decode(&buf[..n]).unwrap(), response);
}

#[test]
fn rtu_reader_times_out_with_nothing_read() {
    let mut reader = RtuFrameReader::new();
    assert!(matches!(
        reader.step(FrameEvent::TimedOut),
        FrameStep::Failed(TransportError::Timeout)
    ));
}

#[test]
fn rtu_reader_rejects_truncated_frame() {
    let mut reader = RtuFrameReader::new();
    assert!(feed_rtu(&mut reader, &[0x01, 0x03]).is_none());
    assert!(matches!(reader.step(FrameEvent::TimedOut), FrameStep::Complete));
    let mut buf = [0u8; 64];
    assert!(matches!(reader.finish(&mut buf), Err(TransportError::Disconnected)));
    let mut reader = RtuFrameReader::new();
    assert!(matches!(reader.step(FrameEvent::EndOfStream), FrameStep::Complete));
    assert!(matches!(reader.finish(&mut buf), Err(TransportError::Disconnected)));
}
