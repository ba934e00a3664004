//! FC 0x07 Read Exception Status.

use vstd::prelude::*;

use crate::codec::{check_header, encode_outcome, overwrite, spec_header};
use crate::error::{DecodeError, EncodeError};

verus! {

/// Request PDU for FC 0x07 Read Exception Status.
///
/// The request carries no payload beyond the function code.
#[derive(Debug, Clone, Copy, PartialEq, Eq, Structural)]
pub struct ReadExceptionStatusRequest;

impl ReadExceptionStatusRequest {
    pub const FUNCTION_CODE: u8 = 0x07;

    /// The encoded PDU.
    pub open spec fn spec_wire(&self) -> Seq<u8> {
        seq![Self::FUNCTION_CODE]
    }

    /// What `decode` gives for the bytes `s`.
    pub open spec fn spec_decode(s: Seq<u8>) -> Result<Self, DecodeError> {
        match spec_header(s, Self::FUNCTION_CODE, 1) {
            Some(e) => Err(e),
            None => Ok(ReadExceptionStatusRequest),
        }
    }

    /// Encode the request into `buf` and return the number of bytes written.
    pub fn encode(&self, buf: &mut [u8]) -> (r: Result<usize, EncodeError>)
        ensures
            encode_outcome(r, old(buf)@, final(buf)@, true, self.spec_wire()),
    {
        if buf.len() == 0 {
            return Err(EncodeError::BufferTooSmall);
        }
        buf[0] = Self::FUNCTION_CODE;
        assert(buf@ =~= overwrite(old(buf)@, self.spec_wire()));
        Ok(1)
    }

    /// Decode a request from `buf`.
    pub fn decode(buf: &[u8]) -> (r: Result<Self, DecodeError>)
        ensures
            r == Self::spec_decode(buf@),
    {
        if let Err(e) = check_header(buf, Self::FUNCTION_CODE, 1) {
            return Err(e);
        }
        Ok(Self)
    }
}

/// The request decodes back from its encoding.
pub proof fn read_exception_status_request_roundtrip(msg: ReadExceptionStatusRequest)
    ensures
        ReadExceptionStatusRequest::spec_decode(msg.spec_wire()) == Ok::<ReadExceptionStatusRequest, DecodeError>(msg),
{
}

/// Response PDU for FC 0x07 Read Exception Status.
#[derive(Debug, Clone, Copy, PartialEq, Eq, Structural)]
pub struct ReadExceptionStatusResponse {
    pub data: u8,
}

impl ReadExceptionStatusResponse {
    /// The encoded PDU.
    pub open spec fn spec_wire(&self) -> Seq<u8> {
        seq![ReadExceptionStatusRequest::FUNCTION_CODE, self.data]
    }

    /// What `decode` gives for the bytes `s`.
    pub open spec fn spec_decode(s: Seq<u8>) -> Result<Self, DecodeError> {
        match spec_header(s, ReadExceptionStatusRequest::FUNCTION_CODE, 2) {
            Some(e) => Err(e),
            None => Ok(ReadExceptionStatusResponse { data: s[1] }),
        }
    }

    /// Encode the response into `buf` and return the number of bytes written.
    pub fn encode(&self, buf: &mut [u8]) -> (r: Result<usize, EncodeError>)
        ensures
            encode_outcome(r, old(buf)@, final(buf)@, true, self.spec_wire()),
    {
        if buf.len() < 2 {
            return Err(EncodeError::BufferTooSmall);
        }
        buf[0] = ReadExceptionStatusRequest::FUNCTION_CODE;
        buf[1] = self.data;
        assert(buf@ =~= overwrite(old(buf)@, self.spec_wire()));
        Ok(2)
    }

    /// Decode a response from `buf`.
    pub fn decode(buf: &[u8]) -> (r: Result<Self, DecodeError>)
        ensures
            r == Self::spec_decode(buf@),
    {
        if let Err(e) = check_header(buf, ReadExceptionStatusRequest::FUNCTION_CODE, 2) {
            return Err(e);
        }
        Ok(Self { data: buf[1] })
    }
}

/// Every response decodes back from its encoding.
pub proof fn read_exception_status_response_roundtrip(msg: ReadExceptionStatusResponse)
    ensures
        ReadExceptionStatusResponse::spec_decode(msg.spec_wire()) == Ok::<
            ReadExceptionStatusResponse,
            DecodeError,
        >(msg),
{
}

} // verus!
