//! FC 0x08 Diagnostics.

use vstd::prelude::*;

use crate::codec::{check_header, encode_outcome, encode_wire2, get_be16, lemma_wire2, read_be16, spec_header, wire2};
use crate::error::{DecodeError, EncodeError};

verus! {

/// Common sub-function codes for FC 0x08 Diagnostics.
pub const RETURN_QUERY_DATA: u16 = 0x0000;

pub const RESTART_COMMUNICATIONS_OPTION: u16 = 0x0001;

pub const RETURN_DIAGNOSTIC_REGISTER: u16 = 0x0002;

pub const CHANGE_ASCII_INPUT_DELIMITER: u16 = 0x0003;

pub const FORCE_LISTEN_ONLY_MODE: u16 = 0x0004;

pub const CLEAR_COUNTERS_AND_DIAGNOSTIC_REGISTER: u16 = 0x000A;

pub const RETURN_BUS_MESSAGE_COUNT: u16 = 0x000B;

pub const RETURN_BUS_COMMUNICATION_ERROR_COUNT: u16 = 0x000C;

pub const RETURN_BUS_EXCEPTION_ERROR_COUNT: u16 = 0x000D;

pub const RETURN_SLAVE_MESSAGE_COUNT: u16 = 0x000E;

pub const RETURN_SLAVE_NO_RESPONSE_COUNT: u16 = 0x000F;

pub const RETURN_SLAVE_NAK_COUNT: u16 = 0x0010;

pub const RETURN_SLAVE_BUSY_COUNT: u16 = 0x0011;

pub const RETURN_BUS_CHARACTER_OVERRUN_COUNT: u16 = 0x0012;

pub const CLEAR_OVERRUN_COUNTER_AND_FLAG: u16 = 0x0014;

/// Request PDU for FC 0x08 Diagnostics.
///
/// Carries a `sub_function` code and a 16-bit `data` field. The meaning of
/// `data` depends on the sub-function.
#[derive(Debug, Clone, Copy, PartialEq, Eq, Structural)]
pub struct DiagnosticsRequest {
    pub sub_function: u16,
    pub data: u16,
}

impl DiagnosticsRequest {
    pub const FUNCTION_CODE: u8 = 0x08;

    /// The encoded PDU.
    pub open spec fn spec_wire(&self) -> Seq<u8> {
        wire2(Self::FUNCTION_CODE, self.sub_function, self.data)
    }

    /// What `decode` gives for the bytes `s`.
    pub open spec fn spec_decode(s: Seq<u8>) -> Result<Self, DecodeError> {
        match spec_header(s, Self::FUNCTION_CODE, 5) {
            Some(e) => Err(e),
            None => Ok(DiagnosticsRequest { sub_function: get_be16(s, 1), data: get_be16(s, 3) }),
        }
    }

    /// Create a new request.
    pub fn new(sub_function: u16, data: u16) -> (r: Self)
        ensures
            r == (DiagnosticsRequest { sub_function, data }),
    {
        Self { sub_function, data }
    }

    /// Encode the request into `buf` and return the number of bytes written.
    pub fn encode(&self, buf: &mut [u8]) -> (r: Result<usize, EncodeError>)
        ensures
            encode_outcome(r, old(buf)@, final(buf)@, true, self.spec_wire()),
    {
        encode_wire2(buf, Self::FUNCTION_CODE, self.sub_function, self.data)
    }

    /// Decode a request from `buf`.
    pub fn decode(buf: &[u8]) -> (r: Result<Self, DecodeError>)
        ensures
            r == Self::spec_decode(buf@),
    {
        if let Err(e) = check_header(buf, Self::FUNCTION_CODE, 5) {
            return Err(e);
        }
        let sub_function = read_be16(buf, 1);
        let data = read_be16(buf, 3);
        Ok(Self::new(sub_function, data))
    }
}

/// Every request decodes back from its encoding.
pub proof fn diagnostics_request_roundtrip(msg: DiagnosticsRequest)
    ensures
        DiagnosticsRequest::spec_decode(msg.spec_wire()) == Ok::<DiagnosticsRequest, DecodeError>(msg),
{
    lemma_wire2(DiagnosticsRequest::FUNCTION_CODE, msg.sub_function, msg.data);
}

/// Response PDU for FC 0x08 Diagnostics.
///
/// The response echoes the request fields.
#[derive(Debug, Clone, Copy, PartialEq, Eq, Structural)]
pub struct DiagnosticsResponse {
    pub sub_function: u16,
    pub data: u16,
}

impl DiagnosticsResponse {
    /// The encoded PDU.
    pub open spec fn spec_wire(&self) -> Seq<u8> {
        wire2(DiagnosticsRequest::FUNCTION_CODE, self.sub_function, self.data)
    }

    /// What `decode` gives for the bytes `s`.
    pub open spec fn spec_decode(s: Seq<u8>) -> Result<Self, DecodeError> {
        match spec_header(s, DiagnosticsRequest::FUNCTION_CODE, 5) {
            Some(e) => Err(e),
            None => Ok(DiagnosticsResponse { sub_function: get_be16(s, 1), data: get_be16(s, 3) }),
        }
    }

    /// Encode the response into `buf` and return the number of bytes written.
    pub fn encode(&self, buf: &mut [u8]) -> (r: Result<usize, EncodeError>)
        ensures
            encode_outcome(r, old(buf)@, final(buf)@, true, self.spec_wire()),
    {
        encode_wire2(buf, DiagnosticsRequest::FUNCTION_CODE, self.sub_function, self.data)
    }

    /// Decode a response from `buf`.
    pub fn decode(buf: &[u8]) -> (r: Result<Self, DecodeError>)
        ensures
            r == Self::spec_decode(buf@),
    {
        if let Err(e) = check_header(buf, DiagnosticsRequest::FUNCTION_CODE, 5) {
            return Err(e);
        }
        let sub_function = read_be16(buf, 1);
        let data = read_be16(buf, 3);
        Ok(Self { sub_function, data })
    }
}

/// Every response decodes back from its encoding.
pub proof fn diagnostics_response_roundtrip(msg: DiagnosticsResponse)
    ensures
        DiagnosticsResponse::spec_decode(msg.spec_wire()) == Ok::<DiagnosticsResponse, DecodeError>(msg),
{
    lemma_wire2(DiagnosticsRequest::FUNCTION_CODE, msg.sub_function, msg.data);
}

} // verus!
