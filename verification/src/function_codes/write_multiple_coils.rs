//! FC 0x0F Write Multiple Coils.

use vstd::prelude::*;

use crate::codec::{check_header, copy_range, encode_outcome, encode_wire2, get_be16, lemma_get_be16_prefix, lemma_wire2, overwrite, put_be16, put_bytes, read_be16, spec_header, view_result, wire2};
use crate::error::{DecodeError, EncodeError};

verus! {

/// Request PDU for FC 0x0F Write Multiple Coils.
///
/// Writes `quantity` contiguous coils starting at `starting_address`.
/// Coil values are packed one bit per byte, LSB of the first byte contains
/// the coil at `starting_address`. The final byte is zero-padded when the
/// coil count is not a multiple of eight.
#[derive(Debug, Clone, PartialEq, Eq)]
pub struct WriteMultipleCoilsRequest {
    pub starting_address: u16,
    pub quantity: u16,
    pub outputs: Vec<u8>,
}

impl View for WriteMultipleCoilsRequest {
    type V = (u16, u16, Seq<u8>);

    open spec fn view(&self) -> (u16, u16, Seq<u8>) {
        (self.starting_address, self.quantity, self.outputs@)
    }
}

impl WriteMultipleCoilsRequest {
    pub const FUNCTION_CODE: u8 = 0x0F;
    pub const MIN_QUANTITY: u16 = 1;
    pub const MAX_QUANTITY: u16 = 0x07B0;

    /// The number of payload bytes that `quantity` needs: one bit per coil, rounded up to whole bytes.
    pub open spec fn expected_len(quantity: u16) -> int {
        (quantity + 7) / 8
    }

    /// What `new` gives for these fields.
    pub open spec fn spec_new(starting_address: u16, quantity: u16, outputs: Seq<u8>) -> Result<
        (u16, u16, Seq<u8>),
        DecodeError,
    > {
        if !(Self::MIN_QUANTITY <= quantity <= Self::MAX_QUANTITY) {
            Err(DecodeError::InvalidQuantity)
        } else if outputs.len() != Self::expected_len(quantity) {
            Err(DecodeError::InvalidLength)
        } else {
            Ok((starting_address, quantity, outputs))
        }
    }

    /// Whether `new` accepts these fields.
    pub open spec fn valid(v: (u16, u16, Seq<u8>)) -> bool {
        Self::spec_new(v.0, v.1, v.2) is Ok
    }

    /// Whether the payload can be encoded: its length fits in the byte count.
    pub open spec fn spec_encodable(v: (u16, u16, Seq<u8>)) -> bool {
        v.2.len() <= 255
    }

    /// The encoded PDU.
    pub open spec fn spec_wire(v: (u16, u16, Seq<u8>)) -> Seq<u8> {
        wire2(Self::FUNCTION_CODE, v.0, v.1) + seq![v.2.len() as u8] + v.2
    }

    /// What `decode` gives for the bytes `s`.
    pub open spec fn spec_decode(s: Seq<u8>) -> Result<(u16, u16, Seq<u8>), DecodeError> {
        match spec_header(s, Self::FUNCTION_CODE, 6) {
            Some(e) => Err(e),
            None => if s.len() < 6 + s[5] {
                Err(DecodeError::InvalidLength)
            } else {
                Self::spec_new(get_be16(s, 1), get_be16(s, 3), s.subrange(6, 6 + s[5]))
            },
        }
    }

    /// Create a new request, validating quantity and payload length.
    pub fn new(starting_address: u16, quantity: u16, outputs: Vec<u8>) -> (r: Result<
        Self,
        DecodeError,
    >)
        ensures
            view_result(r) == Self::spec_new(starting_address, quantity, outputs@),
    {
        if !(Self::MIN_QUANTITY <= quantity && quantity <= Self::MAX_QUANTITY) {
            return Err(DecodeError::InvalidQuantity);
        }
        let expected_bytes = (quantity as usize + 7) / 8;
        if outputs.len() != expected_bytes {
            return Err(DecodeError::InvalidLength);
        }
        Ok(Self { starting_address, quantity, outputs })
    }

    /// Encode the request into `buf` and return the number of bytes written.
    pub fn encode(&self, buf: &mut [u8]) -> (r: Result<usize, EncodeError>)
        ensures
            encode_outcome(
                r,
                old(buf)@,
                final(buf)@,
                Self::spec_encodable(self@),
                Self::spec_wire(self@),
            ),
    {
        let byte_count = self.outputs.len();
        if byte_count > 255 {
            return Err(EncodeError::BufferTooSmall);
        }
        if buf.len() < 6 + byte_count {
            return Err(EncodeError::BufferTooSmall);
        }
        buf[0] = Self::FUNCTION_CODE;
        put_be16(buf, 1, self.starting_address);
        put_be16(buf, 3, self.quantity);
        buf[5] = byte_count as u8;
        put_bytes(buf, 6, self.outputs.as_slice());
        assert(buf@ =~= overwrite(old(buf)@, Self::spec_wire(self@)));
        Ok(6 + byte_count)
    }

    /// Decode a request from `buf`.
    pub fn decode(buf: &[u8]) -> (r: Result<Self, DecodeError>)
        ensures
            view_result(r) == Self::spec_decode(buf@),
    {
        if let Err(e) = check_header(buf, Self::FUNCTION_CODE, 6) {
            return Err(e);
        }
        let starting_address = read_be16(buf, 1);
        let quantity = read_be16(buf, 3);
        let byte_count = buf[5] as usize;
        if buf.len() < 6 + byte_count {
            return Err(DecodeError::InvalidLength);
        }
        let outputs = copy_range(buf, 6, 6 + byte_count);
        Self::new(starting_address, quantity, outputs)
    }
}

/// A request that `new` accepts decodes back from its encoding.
pub proof fn write_multiple_coils_request_roundtrip(v: (u16, u16, Seq<u8>))
    requires
        WriteMultipleCoilsRequest::valid(v),
    ensures
        WriteMultipleCoilsRequest::spec_decode(WriteMultipleCoilsRequest::spec_wire(v)) == Ok::<
            (u16, u16, Seq<u8>),
            DecodeError,
        >(v),
{
    let w = WriteMultipleCoilsRequest::spec_wire(v);
    lemma_wire2(WriteMultipleCoilsRequest::FUNCTION_CODE, v.0, v.1);
    lemma_get_be16_prefix(wire2(WriteMultipleCoilsRequest::FUNCTION_CODE, v.0, v.1), seq![v.2.len() as u8] + v.2, 1);
    lemma_get_be16_prefix(wire2(WriteMultipleCoilsRequest::FUNCTION_CODE, v.0, v.1), seq![v.2.len() as u8] + v.2, 3);
    assert(w =~= wire2(WriteMultipleCoilsRequest::FUNCTION_CODE, v.0, v.1) + (seq![v.2.len() as u8] + v.2));
    assert(w.subrange(6, 6 + w[5]) =~= v.2);
}
/// Response PDU for FC 0x0F Write Multiple Coils.
#[derive(Debug, Clone, Copy, PartialEq, Eq, Structural)]
pub struct WriteMultipleCoilsResponse {
    pub starting_address: u16,
    pub quantity: u16,
}

impl WriteMultipleCoilsResponse {
    /// The encoded PDU.
    pub open spec fn spec_wire(&self) -> Seq<u8> {
        wire2(WriteMultipleCoilsRequest::FUNCTION_CODE, self.starting_address, self.quantity)
    }

    /// What `decode` gives for the bytes `s`.
    pub open spec fn spec_decode(s: Seq<u8>) -> Result<Self, DecodeError> {
        match spec_header(s, WriteMultipleCoilsRequest::FUNCTION_CODE, 5) {
            Some(e) => Err(e),
            None => Ok(WriteMultipleCoilsResponse { starting_address: get_be16(s, 1), quantity: get_be16(s, 3) }),
        }
    }

    /// Encode the response into `buf` and return the number of bytes written.
    pub fn encode(&self, buf: &mut [u8]) -> (r: Result<usize, EncodeError>)
        ensures
            encode_outcome(r, old(buf)@, final(buf)@, true, self.spec_wire()),
    {
        encode_wire2(buf, WriteMultipleCoilsRequest::FUNCTION_CODE, self.starting_address, self.quantity)
    }

    /// Decode a response from `buf`.
    pub fn decode(buf: &[u8]) -> (r: Result<Self, DecodeError>)
        ensures
            r == Self::spec_decode(buf@),
    {
        if let Err(e) = check_header(buf, WriteMultipleCoilsRequest::FUNCTION_CODE, 5) {
            return Err(e);
        }
        let starting_address = read_be16(buf, 1);
        let quantity = read_be16(buf, 3);
        Ok(Self { starting_address, quantity })
    }
}

/// Every response decodes back from its encoding.
pub proof fn write_multiple_coils_response_roundtrip(msg: WriteMultipleCoilsResponse)
    ensures
        WriteMultipleCoilsResponse::spec_decode(msg.spec_wire()) == Ok::<WriteMultipleCoilsResponse, DecodeError>(msg),
{
    lemma_wire2(WriteMultipleCoilsRequest::FUNCTION_CODE, msg.starting_address, msg.quantity);
}

} // verus!
