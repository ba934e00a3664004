//! FC 0x05 Write Single Coil.

use vstd::prelude::*;

use crate::codec::{check_header, encode_outcome, encode_wire2, get_be16, lemma_wire2, read_be16, spec_header, wire2};
use crate::error::{DecodeError, EncodeError};

verus! {

/// Request PDU for FC 0x05 Write Single Coil.
///
/// Writes `value` to the coil at `output_address`. The only valid values
/// are `0x0000` (OFF) and `0xFF00` (ON).
#[derive(Debug, Clone, Copy, PartialEq, Eq, Structural)]
pub struct WriteSingleCoilRequest {
    pub output_address: u16,
    pub value: u16,
}

impl WriteSingleCoilRequest {
    pub const FUNCTION_CODE: u8 = 0x05;
    pub const OFF: u16 = 0x0000;
    pub const ON: u16 = 0xFF00;

    /// Whether the coil value is OFF or ON.
    pub open spec fn valid(&self) -> bool {
        self.value == Self::OFF || self.value == Self::ON
    }

    /// What `new` gives for these fields.
    pub open spec fn spec_new(output_address: u16, value: u16) -> Result<Self, DecodeError> {
        let msg = WriteSingleCoilRequest { output_address, value };
        if msg.valid() {
            Ok(msg)
        } else {
            Err(DecodeError::InvalidValue)
        }
    }

    /// The encoded PDU.
    pub open spec fn spec_wire(&self) -> Seq<u8> {
        wire2(Self::FUNCTION_CODE, self.output_address, self.value)
    }

    /// What `decode` gives for the bytes `s`.
    pub open spec fn spec_decode(s: Seq<u8>) -> Result<Self, DecodeError> {
        match spec_header(s, Self::FUNCTION_CODE, 5) {
            Some(e) => Err(e),
            None => Self::spec_new(get_be16(s, 1), get_be16(s, 3)),
        }
    }

    /// Create a new request, validating the coil value.
    pub fn new(output_address: u16, value: u16) -> (r: Result<Self, DecodeError>)
        ensures
            r == Self::spec_new(output_address, value),
    {
        if value != Self::OFF && value != Self::ON {
            return Err(DecodeError::InvalidValue);
        }
        Ok(Self { output_address, value })
    }

    /// Encode the request into `buf` and return the number of bytes written.
    pub fn encode(&self, buf: &mut [u8]) -> (r: Result<usize, EncodeError>)
        ensures
            encode_outcome(r, old(buf)@, final(buf)@, true, self.spec_wire()),
    {
        encode_wire2(buf, Self::FUNCTION_CODE, self.output_address, self.value)
    }

    /// Decode a request from `buf`.
    pub fn decode(buf: &[u8]) -> (r: Result<Self, DecodeError>)
        ensures
            r == Self::spec_decode(buf@),
    {
        if let Err(e) = check_header(buf, Self::FUNCTION_CODE, 5) {
            return Err(e);
        }
        let output_address = read_be16(buf, 1);
        let value = read_be16(buf, 3);
        Self::new(output_address, value)
    }
}

/// A request with an OFF or ON value decodes back from its encoding.
pub proof fn write_single_coil_request_roundtrip(msg: WriteSingleCoilRequest)
    requires
        msg.valid(),
    ensures
        WriteSingleCoilRequest::spec_decode(msg.spec_wire()) == Ok::<WriteSingleCoilRequest, DecodeError>(msg),
{
    lemma_wire2(WriteSingleCoilRequest::FUNCTION_CODE, msg.output_address, msg.value);
}

/// Response PDU for FC 0x05 Write Single Coil.
///
/// The response echoes the request fields.
#[derive(Debug, Clone, Copy, PartialEq, Eq, Structural)]
pub struct WriteSingleCoilResponse {
    pub output_address: u16,
    pub value: u16,
}

impl WriteSingleCoilResponse {
    /// The encoded PDU.
    pub open spec fn spec_wire(&self) -> Seq<u8> {
        wire2(WriteSingleCoilRequest::FUNCTION_CODE, self.output_address, self.value)
    }

    /// What `decode` gives for the bytes `s`.
    pub open spec fn spec_decode(s: Seq<u8>) -> Result<Self, DecodeError> {
        match spec_header(s, WriteSingleCoilRequest::FUNCTION_CODE, 5) {
            Some(e) => Err(e),
            None => Ok(WriteSingleCoilResponse { output_address: get_be16(s, 1), value: get_be16(s, 3) }),
        }
    }

    /// Encode the response into `buf` and return the number of bytes written.
    pub fn encode(&self, buf: &mut [u8]) -> (r: Result<usize, EncodeError>)
        ensures
            encode_outcome(r, old(buf)@, final(buf)@, true, self.spec_wire()),
    {
        encode_wire2(buf, WriteSingleCoilRequest::FUNCTION_CODE, self.output_address, self.value)
    }

    /// Decode a response from `buf`.
    pub fn decode(buf: &[u8]) -> (r: Result<Self, DecodeError>)
        ensures
            r == Self::spec_decode(buf@),
    {
        if let Err(e) = check_header(buf, WriteSingleCoilRequest::FUNCTION_CODE, 5) {
            return Err(e);
        }
        let output_address = read_be16(buf, 1);
        let value = read_be16(buf, 3);
        Ok(Self { output_address, value })
    }
}

/// Every response decodes back from its encoding.
pub proof fn write_single_coil_response_roundtrip(msg: WriteSingleCoilResponse)
    ensures
        WriteSingleCoilResponse::spec_decode(msg.spec_wire()) == Ok::<WriteSingleCoilResponse, DecodeError>(msg),
{
    lemma_wire2(WriteSingleCoilRequest::FUNCTION_CODE, msg.output_address, msg.value);
}

} // verus!
