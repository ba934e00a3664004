//! FC 0x01 Read Coils.

use vstd::prelude::*;

use crate::codec::{counted, counted_encodable, decode_counted, encode_counted, encode_outcome, encode_wire2, get_be16, lemma_counted_roundtrip, lemma_wire2, read_be16, spec_decode_counted, view_result, wire2};
use crate::error::{DecodeError, EncodeError};

verus! {

/// Request PDU for FC 0x01 Read Coils.
///
/// Reads the status of `quantity` contiguous coils starting at
/// `starting_address`. Coils are addressed from zero in the PDU.
#[derive(Debug, Clone, Copy, PartialEq, Eq, Structural)]
pub struct ReadCoilsRequest {
    pub starting_address: u16,
    pub quantity: u16,
}

impl ReadCoilsRequest {
    pub const FUNCTION_CODE: u8 = 0x01;
    pub const MIN_QUANTITY: u16 = 1;
    pub const MAX_QUANTITY: u16 = 2000;

    /// Whether the quantity is one the protocol allows for this request.
    pub open spec fn valid(&self) -> bool {
        Self::MIN_QUANTITY <= self.quantity <= Self::MAX_QUANTITY
    }

    /// What `new` gives for these fields.
    pub open spec fn spec_new(starting_address: u16, quantity: u16) -> Result<Self, DecodeError> {
        let msg = ReadCoilsRequest { starting_address, quantity };
        if msg.valid() {
            Ok(msg)
        } else {
            Err(DecodeError::InvalidQuantity)
        }
    }

    /// The encoded PDU.
    pub open spec fn spec_wire(&self) -> Seq<u8> {
        wire2(Self::FUNCTION_CODE, self.starting_address, self.quantity)
    }

    /// What `decode` gives for the bytes `s`.
    pub open spec fn spec_decode(s: Seq<u8>) -> Result<Self, DecodeError> {
        if s.len() < 5 {
            Err(DecodeError::InvalidLength)
        } else if s[0] != Self::FUNCTION_CODE {
            Err(DecodeError::UnknownFunctionCode)
        } else {
            Self::spec_new(get_be16(s, 1), get_be16(s, 3))
        }
    }

    /// Create a new request, validating the quantity.
    pub fn new(starting_address: u16, quantity: u16) -> (r: Result<Self, DecodeError>)
        ensures
            r == Self::spec_new(starting_address, quantity),
    {
        if !(Self::MIN_QUANTITY <= quantity && quantity <= Self::MAX_QUANTITY) {
            return Err(DecodeError::InvalidQuantity);
        }
        Ok(Self { starting_address, quantity })
    }

    /// Encode the request into `buf` and return the number of bytes written.
    pub fn encode(&self, buf: &mut [u8]) -> (r: Result<usize, EncodeError>)
        ensures
            encode_outcome(r, old(buf)@, final(buf)@, true, self.spec_wire()),
    {
        encode_wire2(buf, Self::FUNCTION_CODE, self.starting_address, self.quantity)
    }

    /// Decode a request from `buf`.
    pub fn decode(buf: &[u8]) -> (r: Result<Self, DecodeError>)
        ensures
            r == Self::spec_decode(buf@),
    {
        if buf.len() < 5 {
            return Err(DecodeError::InvalidLength);
        }
        if buf[0] != Self::FUNCTION_CODE {
            return Err(DecodeError::UnknownFunctionCode);
        }
        let starting_address = read_be16(buf, 1);
        let quantity = read_be16(buf, 3);
        Self::new(starting_address, quantity)
    }
}

/// A request with a quantity the protocol allows decodes back from its encoding.
pub proof fn read_coils_request_roundtrip(msg: ReadCoilsRequest)
    requires
        msg.valid(),
    ensures
        ReadCoilsRequest::spec_decode(msg.spec_wire()) == Ok::<ReadCoilsRequest, DecodeError>(msg),
{
    lemma_wire2(ReadCoilsRequest::FUNCTION_CODE, msg.starting_address, msg.quantity);
}

/// Response PDU for FC 0x01 Read Coils.
///
/// Coil status is packed one bit per byte, LSB of the first byte contains
/// the coil at `starting_address`. If the coil count is not a multiple of
/// eight, the remaining high-order bits of the final byte are zero-filled.
#[derive(Debug, Clone, PartialEq, Eq)]
pub struct ReadCoilsResponse {
    pub coil_status: Vec<u8>,
}

impl View for ReadCoilsResponse {
    type V = Seq<u8>;

    open spec fn view(&self) -> Seq<u8> {
        self.coil_status@
    }
}

impl ReadCoilsResponse {
    /// The encoded PDU carrying the payload `coil_status`.
    pub open spec fn spec_wire(coil_status: Seq<u8>) -> Seq<u8> {
        counted(ReadCoilsRequest::FUNCTION_CODE, coil_status)
    }

    /// What `decode` gives for the bytes `s`.
    pub open spec fn spec_decode(s: Seq<u8>) -> Result<Seq<u8>, DecodeError> {
        spec_decode_counted(s, ReadCoilsRequest::FUNCTION_CODE, false)
    }

    /// Encode the response into `buf` and return the number of bytes written.
    pub fn encode(&self, buf: &mut [u8]) -> (r: Result<usize, EncodeError>)
        ensures
            encode_outcome(
                r,
                old(buf)@,
                final(buf)@,
                counted_encodable(self@, false),
                Self::spec_wire(self@),
            ),
    {
        encode_counted(buf, ReadCoilsRequest::FUNCTION_CODE, self.coil_status.as_slice(), false)
    }

    /// Decode a response from `buf`.
    pub fn decode(buf: &[u8]) -> (r: Result<Self, DecodeError>)
        ensures
            view_result(r) == Self::spec_decode(buf@),
    {
        match decode_counted(buf, ReadCoilsRequest::FUNCTION_CODE, false) {
            Ok(coil_status) => Ok(Self { coil_status }),
            Err(e) => Err(e),
        }
    }
}

/// A response of at most 255 coil bytes decodes back from its encoding.
pub proof fn read_coils_response_roundtrip(coil_status: Seq<u8>)
    requires
        counted_encodable(coil_status, false),
    ensures
        ReadCoilsResponse::spec_decode(ReadCoilsResponse::spec_wire(coil_status)) == Ok::<Seq<u8>, DecodeError>(coil_status),
{
    lemma_counted_roundtrip(ReadCoilsRequest::FUNCTION_CODE, coil_status, false);
}

} // verus!
