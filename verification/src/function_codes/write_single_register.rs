//! FC 0x06 Write Single Register.

use vstd::prelude::*;

use crate::codec::{check_header, encode_outcome, encode_wire2, get_be16, lemma_wire2, read_be16, spec_header, wire2};
use crate::error::{DecodeError, EncodeError};

verus! {

/// Request PDU for FC 0x06 Write Single Register.
///
/// Writes `value` to the holding register at `register_address`.
#[derive(Debug, Clone, Copy, PartialEq, Eq, Structural)]
pub struct WriteSingleRegisterRequest {
    pub register_address: u16,
    pub value: u16,
}

impl WriteSingleRegisterRequest {
    pub const FUNCTION_CODE: u8 = 0x06;

    /// The encoded PDU.
    pub open spec fn spec_wire(&self) -> Seq<u8> {
        wire2(Self::FUNCTION_CODE, self.register_address, self.value)
    }

    /// What `decode` gives for the bytes `s`.
    pub open spec fn spec_decode(s: Seq<u8>) -> Result<Self, DecodeError> {
        match spec_header(s, Self::FUNCTION_CODE, 5) {
            Some(e) => Err(e),
            None => Ok(WriteSingleRegisterRequest { register_address: get_be16(s, 1), value: get_be16(s, 3) }),
        }
    }

    /// Create a new request.
    pub fn new(register_address: u16, value: u16) -> (r: Self)
        ensures
            r == (WriteSingleRegisterRequest { register_address, value }),
    {
        Self { register_address, value }
    }

    /// Encode the request into `buf` and return the number of bytes written.
    pub fn encode(&self, buf: &mut [u8]) -> (r: Result<usize, EncodeError>)
        ensures
            encode_outcome(r, old(buf)@, final(buf)@, true, self.spec_wire()),
    {
        encode_wire2(buf, Self::FUNCTION_CODE, self.register_address, self.value)
    }

    /// Decode a request from `buf`.
    pub fn decode(buf: &[u8]) -> (r: Result<Self, DecodeError>)
        ensures
            r == Self::spec_decode(buf@),
    {
        if let Err(e) = check_header(buf, Self::FUNCTION_CODE, 5) {
            return Err(e);
        }
        let register_address = read_be16(buf, 1);
        let value = read_be16(buf, 3);
        Ok(Self::new(register_address, value))
    }
}

/// Every request decodes back from its encoding.
pub proof fn write_single_register_request_roundtrip(msg: WriteSingleRegisterRequest)
    ensures
        WriteSingleRegisterRequest::spec_decode(msg.spec_wire()) == Ok::<WriteSingleRegisterRequest, DecodeError>(msg),
{
    lemma_wire2(WriteSingleRegisterRequest::FUNCTION_CODE, msg.register_address, msg.value);
}

/// Response PDU for FC 0x06 Write Single Register.
///
/// The response echoes the request fields.
#[derive(Debug, Clone, Copy, PartialEq, Eq, Structural)]
pub struct WriteSingleRegisterResponse {
    pub register_address: u16,
    pub value: u16,
}

impl WriteSingleRegisterResponse {
    /// The encoded PDU.
    pub open spec fn spec_wire(&self) -> Seq<u8> {
        wire2(WriteSingleRegisterRequest::FUNCTION_CODE, self.register_address, self.value)
    }

    /// What `decode` gives for the bytes `s`.
    pub open spec fn spec_decode(s: Seq<u8>) -> Result<Self, DecodeError> {
        match spec_header(s, WriteSingleRegisterRequest::FUNCTION_CODE, 5) {
            Some(e) => Err(e),
            None => Ok(WriteSingleRegisterResponse { register_address: get_be16(s, 1), value: get_be16(s, 3) }),
        }
    }

    /// Encode the response into `buf` and return the number of bytes written.
    pub fn encode(&self, buf: &mut [u8]) -> (r: Result<usize, EncodeError>)
        ensures
            encode_outcome(r, old(buf)@, final(buf)@, true, self.spec_wire()),
    {
        encode_wire2(buf, WriteSingleRegisterRequest::FUNCTION_CODE, self.register_address, self.value)
    }

    /// Decode a response from `buf`.
    pub fn decode(buf: &[u8]) -> (r: Result<Self, DecodeError>)
        ensures
            r == Self::spec_decode(buf@),
    {
        if let Err(e) = check_header(buf, WriteSingleRegisterRequest::FUNCTION_CODE, 5) {
            return Err(e);
        }
        let register_address = read_be16(buf, 1);
        let value = read_be16(buf, 3);
        Ok(Self { register_address, value })
    }
}

/// Every response decodes back from its encoding.
pub proof fn write_single_register_response_roundtrip(msg: WriteSingleRegisterResponse)
    ensures
        WriteSingleRegisterResponse::spec_decode(msg.spec_wire()) == Ok::<WriteSingleRegisterResponse, DecodeError>(msg),
{
    lemma_wire2(WriteSingleRegisterRequest::FUNCTION_CODE, msg.register_address, msg.value);
}

} // verus!
