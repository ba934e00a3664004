//! FC 0x10 Write Multiple Registers.

use vstd::prelude::*;

use crate::codec::{check_header, copy_range, encode_outcome, encode_wire2, get_be16, lemma_get_be16_prefix, lemma_wire2, overwrite, put_be16, put_bytes, read_be16, spec_header, view_result, wire2};
use crate::error::{DecodeError, EncodeError};

verus! {

/// Request PDU for FC 0x10 Write Multiple Registers.
///
/// Writes `quantity` contiguous holding registers starting at
/// `starting_address`. Register values are big-endian, two bytes each.
#[derive(Debug, Clone, PartialEq, Eq)]
pub struct WriteMultipleRegistersRequest {
    pub starting_address: u16,
    pub quantity: u16,
    pub register_values: Vec<u8>,
}

impl View for WriteMultipleRegistersRequest {
    type V = (u16, u16, Seq<u8>);

    open spec fn view(&self) -> (u16, u16, Seq<u8>) {
        (self.starting_address, self.quantity, self.register_values@)
    }
}

impl WriteMultipleRegistersRequest {
    pub const FUNCTION_CODE: u8 = 0x10;
    pub const MIN_QUANTITY: u16 = 1;
    pub const MAX_QUANTITY: u16 = 0x007B;

    /// The number of payload bytes that `quantity` needs: two bytes per register.
    pub open spec fn expected_len(quantity: u16) -> int {
        quantity * 2
    }

    /// What `new` gives for these fields.
    pub open spec fn spec_new(starting_address: u16, quantity: u16, register_values: Seq<u8>) -> Result<
        (u16, u16, Seq<u8>),
        DecodeError,
    > {
        if !(Self::MIN_QUANTITY <= quantity <= Self::MAX_QUANTITY) {
            Err(DecodeError::InvalidQuantity)
        } else if register_values.len() != Self::expected_len(quantity) {
            Err(DecodeError::InvalidLength)
        } else {
            Ok((starting_address, quantity, register_values))
        }
    }

    /// Whether `new` accepts these fields.
    pub open spec fn valid(v: (u16, u16, Seq<u8>)) -> bool {
        Self::spec_new(v.0, v.1, v.2) is Ok
    }

    /// Whether the payload can be encoded: its length fits in the byte count.
    pub open spec fn spec_encodable(v: (u16, u16, Seq<u8>)) -> bool {
        v.2.len() <= 255 && v.2.len() % 2 == 0
    }

    /// The encoded PDU.
    pub open spec fn spec_wire(v: (u16, u16, Seq<u8>)) -> Seq<u8> {
        wire2(Self::FUNCTION_CODE, v.0, v.1) + seq![v.2.len() as u8] + v.2
    }

    /// What `decode` gives for the bytes `s`.
    pub open spec fn spec_decode(s: Seq<u8>) -> Result<(u16, u16, Seq<u8>), DecodeError> {
        match spec_header(s, Self::FUNCTION_CODE, 6) {
            Some(e) => Err(e),
            None => if s.len() < 6 + s[5] {
                Err(DecodeError::InvalidLength)
            } else {
                Self::spec_new(get_be16(s, 1), get_be16(s, 3), s.subrange(6, 6 + s[5]))
            },
        }
    }

    /// Create a new request, validating quantity and payload length.
    pub fn new(starting_address: u16, quantity: u16, register_values: Vec<u8>) -> (r: Result<
        Self,
        DecodeError,
    >)
        ensures
            view_result(r) == Self::spec_new(starting_address, quantity, register_values@),
    {
        if !(Self::MIN_QUANTITY <= quantity && quantity <= Self::MAX_QUANTITY) {
            return Err(DecodeError::InvalidQuantity);
        }
        let expected_bytes = (quantity as usize) * 2;
        if register_values.len() != expected_bytes {
            return Err(DecodeError::InvalidLength);
        }
        Ok(Self { starting_address, quantity, register_values })
    }

    /// Encode the request into `buf` and return the number of bytes written.
    pub fn encode(&self, buf: &mut [u8]) -> (r: Result<usize, EncodeError>)
        ensures
            encode_outcome(
                r,
                old(buf)@,
                final(buf)@,
                Self::spec_encodable(self@),
                Self::spec_wire(self@),
            ),
    {
        let byte_count = self.register_values.len();
        if byte_count > 255 {
            return Err(EncodeError::BufferTooSmall);
        }
        if byte_count % 2 != 0 {
            return Err(EncodeError::BufferTooSmall);
        }
        if buf.len() < 6 + byte_count {
            return Err(EncodeError::BufferTooSmall);
        }
        buf[0] = Self::FUNCTION_CODE;
        put_be16(buf, 1, self.starting_address);
        put_be16(buf, 3, self.quantity);
        buf[5] = byte_count as u8;
        put_bytes(buf, 6, self.register_values.as_slice());
        assert(buf@ =~= overwrite(old(buf)@, Self::spec_wire(self@)));
        Ok(6 + byte_count)
    }

    /// Decode a request from `buf`.
    pub fn decode(buf: &[u8]) -> (r: Result<Self, DecodeError>)
        ensures
            view_result(r) == Self::spec_decode(buf@),
    {
        if let Err(e) = check_header(buf, Self::FUNCTION_CODE, 6) {
            return Err(e);
        }
        let starting_address = read_be16(buf, 1);
        let quantity = read_be16(buf, 3);
        let byte_count = buf[5] as usize;
        if buf.len() < 6 + byte_count {
            return Err(DecodeError::InvalidLength);
        }
        let register_values = copy_range(buf, 6, 6 + byte_count);
        Self::new(starting_address, quantity, register_values)
    }
}

/// A request that `new` accepts decodes back from its encoding.
pub proof fn write_multiple_registers_request_roundtrip(v: (u16, u16, Seq<u8>))
    requires
        WriteMultipleRegistersRequest::valid(v),
    ensures
        WriteMultipleRegistersRequest::spec_decode(WriteMultipleRegistersRequest::spec_wire(v)) == Ok::<
            (u16, u16, Seq<u8>),
            DecodeError,
        >(v),
{
    let w = WriteMultipleRegistersRequest::spec_wire(v);
    lemma_wire2(WriteMultipleRegistersRequest::FUNCTION_CODE, v.0, v.1);
    lemma_get_be16_prefix(wire2(WriteMultipleRegistersRequest::FUNCTION_CODE, v.0, v.1), seq![v.2.len() as u8] + v.2, 1);
    lemma_get_be16_prefix(wire2(WriteMultipleRegistersRequest::FUNCTION_CODE, v.0, v.1), seq![v.2.len() as u8] + v.2, 3);
    assert(w =~= wire2(WriteMultipleRegistersRequest::FUNCTION_CODE, v.0, v.1) + (seq![v.2.len() as u8] + v.2));
    assert(w.subrange(6, 6 + w[5]) =~= v.2);
}
/// Response PDU for FC 0x10 Write Multiple Registers.
#[derive(Debug, Clone, Copy, PartialEq, Eq, Structural)]
pub struct WriteMultipleRegistersResponse {
    pub starting_address: u16,
    pub quantity: u16,
}

impl WriteMultipleRegistersResponse {
    /// The encoded PDU.
    pub open spec fn spec_wire(&self) -> Seq<u8> {
        wire2(WriteMultipleRegistersRequest::FUNCTION_CODE, self.starting_address, self.quantity)
    }

    /// What `decode` gives for the bytes `s`.
    pub open spec fn spec_decode(s: Seq<u8>) -> Result<Self, DecodeError> {
        match spec_header(s, WriteMultipleRegistersRequest::FUNCTION_CODE, 5) {
            Some(e) => Err(e),
            None => Ok(WriteMultipleRegistersResponse { starting_address: get_be16(s, 1), quantity: get_be16(s, 3) }),
        }
    }

    /// Encode the response into `buf` and return the number of bytes written.
    pub fn encode(&self, buf: &mut [u8]) -> (r: Result<usize, EncodeError>)
        ensures
            encode_outcome(r, old(buf)@, final(buf)@, true, self.spec_wire()),
    {
        encode_wire2(buf, WriteMultipleRegistersRequest::FUNCTION_CODE, self.starting_address, self.quantity)
    }

    /// Decode a response from `buf`.
    pub fn decode(buf: &[u8]) -> (r: Result<Self, DecodeError>)
        ensures
            r == Self::spec_decode(buf@),
    {
        if let Err(e) = check_header(buf, WriteMultipleRegistersRequest::FUNCTION_CODE, 5) {
            return Err(e);
        }
        let starting_address = read_be16(buf, 1);
        let quantity = read_be16(buf, 3);
        Ok(Self { starting_address, quantity })
    }
}

/// Every response decodes back from its encoding.
pub proof fn write_multiple_registers_response_roundtrip(msg: WriteMultipleRegistersResponse)
    ensures
        WriteMultipleRegistersResponse::spec_decode(msg.spec_wire()) == Ok::<WriteMultipleRegistersResponse, DecodeError>(msg),
{
    lemma_wire2(WriteMultipleRegistersRequest::FUNCTION_CODE, msg.starting_address, msg.quantity);
}

} // verus!
