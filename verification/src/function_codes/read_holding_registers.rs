//! FC 0x03 Read Holding Registers.

use vstd::prelude::*;

use crate::codec::{check_header, counted, counted_encodable, decode_counted, encode_counted, encode_outcome, encode_wire2, get_be16, lemma_counted_roundtrip, lemma_wire2, read_be16, spec_decode_counted, spec_header, view_result, wire2};
use crate::error::{DecodeError, EncodeError};

verus! {

/// Request PDU for FC 0x03 Read Holding Registers.
///
/// Reads the value of `quantity` contiguous holding registers starting at
/// `starting_address`. Registers are addressed from zero in the PDU.
#[derive(Debug, Clone, Copy, PartialEq, Eq, Structural)]
pub struct ReadHoldingRegistersRequest {
    pub starting_address: u16,
    pub quantity: u16,
}

impl ReadHoldingRegistersRequest {
    pub const FUNCTION_CODE: u8 = 0x03;
    pub const MIN_QUANTITY: u16 = 1;
    pub const MAX_QUANTITY: u16 = 125;

    /// Whether the quantity is one the protocol allows for this request.
    pub open spec fn valid(&self) -> bool {
        Self::MIN_QUANTITY <= self.quantity <= Self::MAX_QUANTITY
    }

    /// What `new` gives for these fields.
    pub open spec fn spec_new(starting_address: u16, quantity: u16) -> Result<Self, DecodeError> {
        let msg = ReadHoldingRegistersRequest { starting_address, quantity };
        if msg.valid() {
            Ok(msg)
        } else {
            Err(DecodeError::InvalidQuantity)
        }
    }

    /// The encoded PDU.
    pub open spec fn spec_wire(&self) -> Seq<u8> {
        wire2(Self::FUNCTION_CODE, self.starting_address, self.quantity)
    }

    /// What `decode` gives for the bytes `s`.
    pub open spec fn spec_decode(s: Seq<u8>) -> Result<Self, DecodeError> {
        match spec_header(s, Self::FUNCTION_CODE, 5) {
            Some(e) => Err(e),
            None => Self::spec_new(get_be16(s, 1), get_be16(s, 3)),
        }
    }

    /// Create a new request, validating the quantity.
    pub fn new(starting_address: u16, quantity: u16) -> (r: Result<Self, DecodeError>)
        ensures
            r == Self::spec_new(starting_address, quantity),
    {
        if !(Self::MIN_QUANTITY <= quantity && quantity <= Self::MAX_QUANTITY) {
            return Err(DecodeError::InvalidQuantity);
        }
        Ok(Self { starting_address, quantity })
    }

    /// Encode the request into `buf` and return the number of bytes written.
    pub fn encode(&self, buf: &mut [u8]) -> (r: Result<usize, EncodeError>)
        ensures
            encode_outcome(r, old(buf)@, final(buf)@, true, self.spec_wire()),
    {
        encode_wire2(buf, Self::FUNCTION_CODE, self.starting_address, self.quantity)
    }

    /// Decode a request from `buf`.
    pub fn decode(buf: &[u8]) -> (r: Result<Self, DecodeError>)
        ensures
            r == Self::spec_decode(buf@),
    {
        if let Err(e) = check_header(buf, Self::FUNCTION_CODE, 5) {
            return Err(e);
        }
        let starting_address = read_be16(buf, 1);
        let quantity = read_be16(buf, 3);
        Self::new(starting_address, quantity)
    }
}

/// A request with a quantity the protocol allows decodes back from its encoding.
pub proof fn read_holding_registers_request_roundtrip(msg: ReadHoldingRegistersRequest)
    requires
        msg.valid(),
    ensures
        ReadHoldingRegistersRequest::spec_decode(msg.spec_wire()) == Ok::<ReadHoldingRegistersRequest, DecodeError>(msg),
{
    lemma_wire2(ReadHoldingRegistersRequest::FUNCTION_CODE, msg.starting_address, msg.quantity);
}

/// Response PDU for FC 0x03 Read Holding Registers.
///
/// Register values are stored as big-endian bytes: each register occupies
/// two bytes in `register_values`.
#[derive(Debug, Clone, PartialEq, Eq)]
pub struct ReadHoldingRegistersResponse {
    pub register_values: Vec<u8>,
}

impl View for ReadHoldingRegistersResponse {
    type V = Seq<u8>;

    open spec fn view(&self) -> Seq<u8> {
        self.register_values@
    }
}

impl ReadHoldingRegistersResponse {
    /// The encoded PDU carrying the payload `register_values`.
    pub open spec fn spec_wire(register_values: Seq<u8>) -> Seq<u8> {
        counted(ReadHoldingRegistersRequest::FUNCTION_CODE, register_values)
    }

    /// What `decode` gives for the bytes `s`.
    pub open spec fn spec_decode(s: Seq<u8>) -> Result<Seq<u8>, DecodeError> {
        spec_decode_counted(s, ReadHoldingRegistersRequest::FUNCTION_CODE, true)
    }

    /// Encode the response into `buf` and return the number of bytes written.
    pub fn encode(&self, buf: &mut [u8]) -> (r: Result<usize, EncodeError>)
        ensures
            encode_outcome(
                r,
                old(buf)@,
                final(buf)@,
                counted_encodable(self@, true),
                Self::spec_wire(self@),
            ),
    {
        encode_counted(buf, ReadHoldingRegistersRequest::FUNCTION_CODE, self.register_values.as_slice(), true)
    }

    /// Decode a response from `buf`.
    pub fn decode(buf: &[u8]) -> (r: Result<Self, DecodeError>)
        ensures
            view_result(r) == Self::spec_decode(buf@),
    {
        match decode_counted(buf, ReadHoldingRegistersRequest::FUNCTION_CODE, true) {
            Ok(register_values) => Ok(Self { register_values }),
            Err(e) => Err(e),
        }
    }
}

/// A response with an even number of at most 255 register bytes decodes back from its encoding.
pub proof fn read_holding_registers_response_roundtrip(register_values: Seq<u8>)
    requires
        counted_encodable(register_values, true),
    ensures
        ReadHoldingRegistersResponse::spec_decode(ReadHoldingRegistersResponse::spec_wire(register_values)) == Ok::<Seq<u8>, DecodeError>(register_values),
{
    lemma_counted_roundtrip(ReadHoldingRegistersRequest::FUNCTION_CODE, register_values, true);
}

} // verus!
