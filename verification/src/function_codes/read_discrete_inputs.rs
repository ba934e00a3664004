//! FC 0x02 Read Discrete Inputs.

use vstd::prelude::*;

use crate::codec::{check_header, counted, counted_encodable, decode_counted, encode_counted, encode_outcome, encode_wire2, get_be16, lemma_counted_roundtrip, lemma_wire2, read_be16, spec_decode_counted, spec_header, view_result, wire2};
use crate::error::{DecodeError, EncodeError};

verus! {

/// Request PDU for FC 0x02 Read Discrete Inputs.
///
/// Reads the status of `quantity` contiguous discrete inputs starting at
/// `starting_address`. Discrete inputs are addressed from zero in the PDU.
#[derive(Debug, Clone, Copy, PartialEq, Eq, Structural)]
pub struct ReadDiscreteInputsRequest {
    pub starting_address: u16,
    pub quantity: u16,
}

impl ReadDiscreteInputsRequest {
    pub const FUNCTION_CODE: u8 = 0x02;
    pub const MIN_QUANTITY: u16 = 1;
    pub const MAX_QUANTITY: u16 = 2000;

    /// Whether the quantity is one the protocol allows for this request.
    pub open spec fn valid(&self) -> bool {
        Self::MIN_QUANTITY <= self.quantity <= Self::MAX_QUANTITY
    }

    /// What `new` gives for these fields.
    pub open spec fn spec_new(starting_address: u16, quantity: u16) -> Result<Self, DecodeError> {
        let msg = ReadDiscreteInputsRequest { starting_address, quantity };
        if msg.valid() {
            Ok(msg)
        } else {
            Err(DecodeError::InvalidQuantity)
        }
    }

    /// The encoded PDU.
    pub open spec fn spec_wire(&self) -> Seq<u8> {
        wire2(Self::FUNCTION_CODE, self.starting_address, self.quantity)
    }

    /// What `decode` gives for the bytes `s`.
    pub open spec fn spec_decode(s: Seq<u8>) -> Result<Self, DecodeError> {
        match spec_header(s, Self::FUNCTION_CODE, 5) {
            Some(e) => Err(e),
            None => Self::spec_new(get_be16(s, 1), get_be16(s, 3)),
        }
    }

    /// Create a new request, validating the quantity.
    pub fn new(starting_address: u16, quantity: u16) -> (r: Result<Self, DecodeError>)
        ensures
            r == Self::spec_new(starting_address, quantity),
    {
        if !(Self::MIN_QUANTITY <= quantity && quantity <= Self::MAX_QUANTITY) {
            return Err(DecodeError::InvalidQuantity);
        }
        Ok(Self { starting_address, quantity })
    }

    /// Encode the request into `buf` and return the number of bytes written.
    pub fn encode(&self, buf: &mut [u8]) -> (r: Result<usize, EncodeError>)
        ensures
            encode_outcome(r, old(buf)@, final(buf)@, true, self.spec_wire()),
    {
        encode_wire2(buf, Self::FUNCTION_CODE, self.starting_address, self.quantity)
    }

    /// Decode a request from `buf`.
    pub fn decode(buf: &[u8]) -> (r: Result<Self, DecodeError>)
        ensures
            r == Self::spec_decode(buf@),
    {
        if let Err(e) = check_header(buf, Self::FUNCTION_CODE, 5) {
            return Err(e);
        }
        let starting_address = read_be16(buf, 1);
        let quantity = read_be16(buf, 3);
        Self::new(starting_address, quantity)
    }
}

/// A request with a quantity the protocol allows decodes back from its encoding.
pub proof fn read_discrete_inputs_request_roundtrip(msg: ReadDiscreteInputsRequest)
    requires
        msg.valid(),
    ensures
        ReadDiscreteInputsRequest::spec_decode(msg.spec_wire()) == Ok::<ReadDiscreteInputsRequest, DecodeError>(msg),
{
    lemma_wire2(ReadDiscreteInputsRequest::FUNCTION_CODE, msg.starting_address, msg.quantity);
}

/// Response PDU for FC 0x02 Read Discrete Inputs.
///
/// Input status is packed one bit per byte, LSB of the first byte contains
/// the input at `starting_address`. If the input count is not a multiple of
/// eight, the remaining high-order bits of the final byte are zero-filled.
#[derive(Debug, Clone, PartialEq, Eq)]
pub struct ReadDiscreteInputsResponse {
    pub input_status: Vec<u8>,
}

impl View for ReadDiscreteInputsResponse {
    type V = Seq<u8>;

    open spec fn view(&self) -> Seq<u8> {
        self.input_status@
    }
}

impl ReadDiscreteInputsResponse {
    /// The encoded PDU carrying the payload `input_status`.
    pub open spec fn spec_wire(input_status: Seq<u8>) -> Seq<u8> {
        counted(ReadDiscreteInputsRequest::FUNCTION_CODE, input_status)
    }

    /// What `decode` gives for the bytes `s`.
    pub open spec fn spec_decode(s: Seq<u8>) -> Result<Seq<u8>, DecodeError> {
        spec_decode_counted(s, ReadDiscreteInputsRequest::FUNCTION_CODE, false)
    }

    /// Encode the response into `buf` and return the number of bytes written.
    pub fn encode(&self, buf: &mut [u8]) -> (r: Result<usize, EncodeError>)
        ensures
            encode_outcome(
                r,
                old(buf)@,
                final(buf)@,
                counted_encodable(self@, false),
                Self::spec_wire(self@),
            ),
    {
        encode_counted(buf, ReadDiscreteInputsRequest::FUNCTION_CODE, self.input_status.as_slice(), false)
    }

    /// Decode a response from `buf`.
    pub fn decode(buf: &[u8]) -> (r: Result<Self, DecodeError>)
        ensures
            view_result(r) == Self::spec_decode(buf@),
    {
        match decode_counted(buf, ReadDiscreteInputsRequest::FUNCTION_CODE, false) {
            Ok(input_status) => Ok(Self { input_status }),
            Err(e) => Err(e),
        }
    }
}

/// A response of at most 255 input bytes decodes back from its encoding.
pub proof fn read_discrete_inputs_response_roundtrip(input_status: Seq<u8>)
    requires
        counted_encodable(input_status, false),
    ensures
        ReadDiscreteInputsResponse::spec_decode(ReadDiscreteInputsResponse::spec_wire(input_status)) == Ok::<Seq<u8>, DecodeError>(input_status),
{
    lemma_counted_roundtrip(ReadDiscreteInputsRequest::FUNCTION_CODE, input_status, false);
}

} // verus!
