//! FC 0x0C Get Comm Event Log.

use vstd::prelude::*;

use crate::codec::{be16, check_header, copy_range, encode_outcome, get_be16, lemma_be16_roundtrip, overwrite, put_be16, put_bytes, read_be16, spec_header, view_result};
use crate::error::{DecodeError, EncodeError};

verus! {

/// Request PDU for FC 0x0C Get Comm Event Log.
///
/// The request carries no payload beyond the function code.
#[derive(Debug, Clone, Copy, PartialEq, Eq, Structural)]
pub struct GetCommEventLogRequest;

impl GetCommEventLogRequest {
    pub const FUNCTION_CODE: u8 = 0x0C;

    /// The encoded PDU.
    pub open spec fn spec_wire(&self) -> Seq<u8> {
        seq![Self::FUNCTION_CODE]
    }

    /// What `decode` gives for the bytes `s`.
    pub open spec fn spec_decode(s: Seq<u8>) -> Result<Self, DecodeError> {
        match spec_header(s, Self::FUNCTION_CODE, 1) {
            Some(e) => Err(e),
            None => Ok(GetCommEventLogRequest),
        }
    }

    /// Encode the request into `buf` and return the number of bytes written.
    pub fn encode(&self, buf: &mut [u8]) -> (r: Result<usize, EncodeError>)
        ensures
            encode_outcome(r, old(buf)@, final(buf)@, true, self.spec_wire()),
    {
        if buf.len() == 0 {
            return Err(EncodeError::BufferTooSmall);
        }
        buf[0] = Self::FUNCTION_CODE;
        assert(buf@ =~= overwrite(old(buf)@, self.spec_wire()));
        Ok(1)
    }

    /// Decode a request from `buf`.
    pub fn decode(buf: &[u8]) -> (r: Result<Self, DecodeError>)
        ensures
            r == Self::spec_decode(buf@),
    {
        if let Err(e) = check_header(buf, Self::FUNCTION_CODE, 1) {
            return Err(e);
        }
        Ok(Self)
    }
}

/// The request decodes back from its encoding.
pub proof fn get_comm_event_log_request_roundtrip(msg: GetCommEventLogRequest)
    ensures
        GetCommEventLogRequest::spec_decode(msg.spec_wire()) == Ok::<GetCommEventLogRequest, DecodeError>(msg),
{
}

/// Response PDU for FC 0x0C Get Comm Event Log.
///
/// Returns a status word, event count, message count, and up to 64 bytes of
/// event data. The byte count field equals 6 plus the number of event bytes.
#[derive(Debug, Clone, PartialEq, Eq)]
pub struct GetCommEventLogResponse {
    pub status: u16,
    pub event_count: u16,
    pub message_count: u16,
    pub events: Vec<u8>,
}

impl View for GetCommEventLogResponse {
    type V = (u16, u16, u16, Seq<u8>);

    open spec fn view(&self) -> (u16, u16, u16, Seq<u8>) {
        (self.status, self.event_count, self.message_count, self.events@)
    }
}

impl GetCommEventLogResponse {
    pub const MAX_EVENTS: usize = 64;

    /// What `new` gives for these fields.
    pub open spec fn spec_new(status: u16, event_count: u16, message_count: u16, events: Seq<u8>) -> Result<
        (u16, u16, u16, Seq<u8>),
        DecodeError,
    > {
        if events.len() > Self::MAX_EVENTS {
            Err(DecodeError::InvalidLength)
        } else {
            Ok((status, event_count, message_count, events))
        }
    }

    /// Whether the event bytes fit in the byte count field.
    pub open spec fn spec_encodable(v: (u16, u16, u16, Seq<u8>)) -> bool {
        6 + v.3.len() <= 255
    }

    /// The encoded PDU.
    pub open spec fn spec_wire(v: (u16, u16, u16, Seq<u8>)) -> Seq<u8> {
        seq![GetCommEventLogRequest::FUNCTION_CODE, (6 + v.3.len()) as u8] + be16(v.0) + be16(v.1)
            + be16(v.2) + v.3
    }

    /// What `decode` gives for the bytes `s`.
    pub open spec fn spec_decode(s: Seq<u8>) -> Result<(u16, u16, u16, Seq<u8>), DecodeError> {
        match spec_header(s, GetCommEventLogRequest::FUNCTION_CODE, 8) {
            Some(e) => Err(e),
            None => if s[1] < 6 || s.len() < 2 + s[1] {
                Err(DecodeError::InvalidLength)
            } else {
                Self::spec_new(
                    get_be16(s, 2),
                    get_be16(s, 4),
                    get_be16(s, 6),
                    s.subrange(8, 2 + s[1]),
                )
            },
        }
    }

    /// Create a new response, validating event length.
    pub fn new(status: u16, event_count: u16, message_count: u16, events: Vec<u8>) -> (r: Result<
        Self,
        DecodeError,
    >)
        ensures
            view_result(r) == Self::spec_new(status, event_count, message_count, events@),
    {
        if events.len() > Self::MAX_EVENTS {
            return Err(DecodeError::InvalidLength);
        }
        Ok(Self { status, event_count, message_count, events })
    }

    /// Encode the response into `buf` and return the number of bytes written.
    pub fn encode(&self, buf: &mut [u8]) -> (r: Result<usize, EncodeError>)
        ensures
            encode_outcome(
                r,
                old(buf)@,
                final(buf)@,
                Self::spec_encodable(self@),
                Self::spec_wire(self@),
            ),
    {
        let n = self.events.len();
        if n > 249 {
            return Err(EncodeError::BufferTooSmall);
        }
        let byte_count = 6 + n;
        if buf.len() < 2 + byte_count {
            return Err(EncodeError::BufferTooSmall);
        }
        buf[0] = GetCommEventLogRequest::FUNCTION_CODE;
        buf[1] = byte_count as u8;
        put_be16(buf, 2, self.status);
        put_be16(buf, 4, self.event_count);
        put_be16(buf, 6, self.message_count);
        put_bytes(buf, 8, self.events.as_slice());
        assert(buf@ =~= overwrite(old(buf)@, Self::spec_wire(self@)));
        Ok(2 + byte_count)
    }

    /// Decode a response from `buf`.
    pub fn decode(buf: &[u8]) -> (r: Result<Self, DecodeError>)
        ensures
            view_result(r) == Self::spec_decode(buf@),
    {
        if let Err(e) = check_header(buf, GetCommEventLogRequest::FUNCTION_CODE, 8) {
            return Err(e);
        }
        let byte_count = buf[1] as usize;
        if byte_count < 6 {
            return Err(DecodeError::InvalidLength);
        }
        if buf.len() < 2 + byte_count {
            return Err(DecodeError::InvalidLength);
        }
        let status = read_be16(buf, 2);
        let event_count = read_be16(buf, 4);
        let message_count = read_be16(buf, 6);
        let events = copy_range(buf, 8, 2 + byte_count);
        Self::new(status, event_count, message_count, events)
    }
}

/// A response with at most 64 event bytes decodes back from its encoding.
pub proof fn get_comm_event_log_response_roundtrip(v: (u16, u16, u16, Seq<u8>))
    requires
        v.3.len() <= GetCommEventLogResponse::MAX_EVENTS,
    ensures
        GetCommEventLogResponse::spec_decode(GetCommEventLogResponse::spec_wire(v)) == Ok::<
            (u16, u16, u16, Seq<u8>),
            DecodeError,
        >(v),
{
    let w = GetCommEventLogResponse::spec_wire(v);
    lemma_be16_roundtrip(v.0);
    lemma_be16_roundtrip(v.1);
    lemma_be16_roundtrip(v.2);
    assert(get_be16(w, 2) == v.0);
    assert(get_be16(w, 4) == v.1);
    assert(get_be16(w, 6) == v.2);
    assert(w.subrange(8, 2 + w[1]) =~= v.3);
}

} // verus!
