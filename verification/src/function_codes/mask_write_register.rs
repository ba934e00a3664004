//! FC 0x16 Mask Write Register.

use vstd::prelude::*;

use crate::codec::{check_header, encode_outcome, encode_wire3, get_be16, lemma_wire3, read_be16, spec_header, wire3};
use crate::error::{DecodeError, EncodeError};

verus! {

/// Request PDU for FC 0x16 Mask Write Register.
///
/// Modifies the holding register at `reference_address` using:
/// `new_value = (old_value & and_mask) | (or_mask & !and_mask)`.
#[derive(Debug, Clone, Copy, PartialEq, Eq, Structural)]
pub struct MaskWriteRegisterRequest {
    pub reference_address: u16,
    pub and_mask: u16,
    pub or_mask: u16,
}

impl MaskWriteRegisterRequest {
    pub const FUNCTION_CODE: u8 = 0x16;

    /// The encoded PDU.
    pub open spec fn spec_wire(&self) -> Seq<u8> {
        wire3(Self::FUNCTION_CODE, self.reference_address, self.and_mask, self.or_mask)
    }

    /// What `decode` gives for the bytes `s`.
    pub open spec fn spec_decode(s: Seq<u8>) -> Result<Self, DecodeError> {
        match spec_header(s, Self::FUNCTION_CODE, 7) {
            Some(e) => Err(e),
            None => Ok(MaskWriteRegisterRequest { reference_address: get_be16(s, 1), and_mask: get_be16(s, 3), or_mask: get_be16(s, 5) }),
        }
    }

    /// Create a new request.
    pub fn new(reference_address: u16, and_mask: u16, or_mask: u16) -> (r: Self)
        ensures
            r == (MaskWriteRegisterRequest { reference_address, and_mask, or_mask }),
    {
        Self { reference_address, and_mask, or_mask }
    }

    /// Encode the request into `buf` and return the number of bytes written.
    pub fn encode(&self, buf: &mut [u8]) -> (r: Result<usize, EncodeError>)
        ensures
            encode_outcome(r, old(buf)@, final(buf)@, true, self.spec_wire()),
    {
        encode_wire3(buf, Self::FUNCTION_CODE, self.reference_address, self.and_mask, self.or_mask)
    }

    /// Decode a request from `buf`.
    pub fn decode(buf: &[u8]) -> (r: Result<Self, DecodeError>)
        ensures
            r == Self::spec_decode(buf@),
    {
        if let Err(e) = check_header(buf, Self::FUNCTION_CODE, 7) {
            return Err(e);
        }
        let reference_address = read_be16(buf, 1);
        let and_mask = read_be16(buf, 3);
        let or_mask = read_be16(buf, 5);
        Ok(Self::new(reference_address, and_mask, or_mask))
    }
}

/// Every request decodes back from its encoding.
pub proof fn mask_write_register_request_roundtrip(msg: MaskWriteRegisterRequest)
    ensures
        MaskWriteRegisterRequest::spec_decode(msg.spec_wire()) == Ok::<MaskWriteRegisterRequest, DecodeError>(msg),
{
    lemma_wire3(MaskWriteRegisterRequest::FUNCTION_CODE, msg.reference_address, msg.and_mask, msg.or_mask);
}

/// Response PDU for FC 0x16 Mask Write Register.
///
/// The response echoes the request fields.
#[derive(Debug, Clone, Copy, PartialEq, Eq, Structural)]
pub struct MaskWriteRegisterResponse {
    pub reference_address: u16,
    pub and_mask: u16,
    pub or_mask: u16,
}

impl MaskWriteRegisterResponse {
    /// The encoded PDU.
    pub open spec fn spec_wire(&self) -> Seq<u8> {
        wire3(MaskWriteRegisterRequest::FUNCTION_CODE, self.reference_address, self.and_mask, self.or_mask)
    }

    /// What `decode` gives for the bytes `s`.
    pub open spec fn spec_decode(s: Seq<u8>) -> Result<Self, DecodeError> {
        match spec_header(s, MaskWriteRegisterRequest::FUNCTION_CODE, 7) {
            Some(e) => Err(e),
            None => Ok(MaskWriteRegisterResponse { reference_address: get_be16(s, 1), and_mask: get_be16(s, 3), or_mask: get_be16(s, 5) }),
        }
    }

    /// Encode the response into `buf` and return the number of bytes written.
    pub fn encode(&self, buf: &mut [u8]) -> (r: Result<usize, EncodeError>)
        ensures
            encode_outcome(r, old(buf)@, final(buf)@, true, self.spec_wire()),
    {
        encode_wire3(buf, MaskWriteRegisterRequest::FUNCTION_CODE, self.reference_address, self.and_mask, self.or_mask)
    }

    /// Decode a response from `buf`.
    pub fn decode(buf: &[u8]) -> (r: Result<Self, DecodeError>)
        ensures
            r == Self::spec_decode(buf@),
    {
        if let Err(e) = check_header(buf, MaskWriteRegisterRequest::FUNCTION_CODE, 7) {
            return Err(e);
        }
        let reference_address = read_be16(buf, 1);
        let and_mask = read_be16(buf, 3);
        let or_mask = read_be16(buf, 5);
        Ok(Self { reference_address, and_mask, or_mask })
    }
}

/// Every response decodes back from its encoding.
pub proof fn mask_write_register_response_roundtrip(msg: MaskWriteRegisterResponse)
    ensures
        MaskWriteRegisterResponse::spec_decode(msg.spec_wire()) == Ok::<MaskWriteRegisterResponse, DecodeError>(msg),
{
    lemma_wire3(MaskWriteRegisterRequest::FUNCTION_CODE, msg.reference_address, msg.and_mask, msg.or_mask);
}

} // verus!
