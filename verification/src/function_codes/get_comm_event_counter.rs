//! FC 0x0B Get Comm Event Counter.

use vstd::prelude::*;

use crate::codec::{check_header, encode_outcome, encode_wire2, get_be16, lemma_wire2, overwrite, read_be16, spec_header, wire2};
use crate::error::{DecodeError, EncodeError};

verus! {

/// Request PDU for FC 0x0B Get Comm Event Counter.
///
/// The request carries no payload beyond the function code.
#[derive(Debug, Clone, Copy, PartialEq, Eq, Structural)]
pub struct GetCommEventCounterRequest;

impl GetCommEventCounterRequest {
    pub const FUNCTION_CODE: u8 = 0x0B;

    /// The encoded PDU.
    pub open spec fn spec_wire(&self) -> Seq<u8> {
        seq![Self::FUNCTION_CODE]
    }

    /// What `decode` gives for the bytes `s`.
    pub open spec fn spec_decode(s: Seq<u8>) -> Result<Self, DecodeError> {
        match spec_header(s, Self::FUNCTION_CODE, 1) {
            Some(e) => Err(e),
            None => Ok(GetCommEventCounterRequest),
        }
    }

    /// Encode the request into `buf` and return the number of bytes written.
    pub fn encode(&self, buf: &mut [u8]) -> (r: Result<usize, EncodeError>)
        ensures
            encode_outcome(r, old(buf)@, final(buf)@, true, self.spec_wire()),
    {
        if buf.len() == 0 {
            return Err(EncodeError::BufferTooSmall);
        }
        buf[0] = Self::FUNCTION_CODE;
        assert(buf@ =~= overwrite(old(buf)@, self.spec_wire()));
        Ok(1)
    }

    /// Decode a request from `buf`.
    pub fn decode(buf: &[u8]) -> (r: Result<Self, DecodeError>)
        ensures
            r == Self::spec_decode(buf@),
    {
        if let Err(e) = check_header(buf, Self::FUNCTION_CODE, 1) {
            return Err(e);
        }
        Ok(Self)
    }
}

/// The request decodes back from its encoding.
pub proof fn get_comm_event_counter_request_roundtrip(msg: GetCommEventCounterRequest)
    ensures
        GetCommEventCounterRequest::spec_decode(msg.spec_wire()) == Ok::<GetCommEventCounterRequest, DecodeError>(msg),
{
}

/// Response PDU for FC 0x0B Get Comm Event Counter.
///
/// Returns a 16-bit status word and a 16-bit event count.
#[derive(Debug, Clone, Copy, PartialEq, Eq, Structural)]
pub struct GetCommEventCounterResponse {
    pub status: u16,
    pub event_count: u16,
}

impl GetCommEventCounterResponse {
    /// The encoded PDU.
    pub open spec fn spec_wire(&self) -> Seq<u8> {
        wire2(GetCommEventCounterRequest::FUNCTION_CODE, self.status, self.event_count)
    }

    /// What `decode` gives for the bytes `s`.
    pub open spec fn spec_decode(s: Seq<u8>) -> Result<Self, DecodeError> {
        match spec_header(s, GetCommEventCounterRequest::FUNCTION_CODE, 5) {
            Some(e) => Err(e),
            None => Ok(GetCommEventCounterResponse { status: get_be16(s, 1), event_count: get_be16(s, 3) }),
        }
    }

    /// Encode the response into `buf` and return the number of bytes written.
    pub fn encode(&self, buf: &mut [u8]) -> (r: Result<usize, EncodeError>)
        ensures
            encode_outcome(r, old(buf)@, final(buf)@, true, self.spec_wire()),
    {
        encode_wire2(buf, GetCommEventCounterRequest::FUNCTION_CODE, self.status, self.event_count)
    }

    /// Decode a response from `buf`.
    pub fn decode(buf: &[u8]) -> (r: Result<Self, DecodeError>)
        ensures
            r == Self::spec_decode(buf@),
    {
        if let Err(e) = check_header(buf, GetCommEventCounterRequest::FUNCTION_CODE, 5) {
            return Err(e);
        }
        let status = read_be16(buf, 1);
        let event_count = read_be16(buf, 3);
        Ok(Self { status, event_count })
    }
}

/// Every response decodes back from its encoding.
pub proof fn get_comm_event_counter_response_roundtrip(msg: GetCommEventCounterResponse)
    ensures
        GetCommEventCounterResponse::spec_decode(msg.spec_wire()) == Ok::<GetCommEventCounterResponse, DecodeError>(msg),
{
    lemma_wire2(GetCommEventCounterRequest::FUNCTION_CODE, msg.status, msg.event_count);
}

} // verus!
