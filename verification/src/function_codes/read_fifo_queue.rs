//! FC 0x18 Read FIFO Queue.

use vstd::prelude::*;

use crate::codec::{be16, check_header, copy_range, encode_outcome, get_be16, lemma_be16_roundtrip, overwrite, put_be16, put_bytes, read_be16, spec_header, view_result};
use crate::error::{DecodeError, EncodeError};

verus! {

/// Request PDU for FC 0x18 Read FIFO Queue.
///
/// Reads the FIFO queue pointed to by `fifo_pointer_address`.
#[derive(Debug, Clone, Copy, PartialEq, Eq, Structural)]
pub struct ReadFifoQueueRequest {
    pub fifo_pointer_address: u16,
}

impl ReadFifoQueueRequest {
    pub const FUNCTION_CODE: u8 = 0x18;

    /// The encoded PDU.
    pub open spec fn spec_wire(&self) -> Seq<u8> {
        seq![Self::FUNCTION_CODE] + be16(self.fifo_pointer_address)
    }

    /// What `decode` gives for the bytes `s`.
    pub open spec fn spec_decode(s: Seq<u8>) -> Result<Self, DecodeError> {
        match spec_header(s, Self::FUNCTION_CODE, 3) {
            Some(e) => Err(e),
            None => Ok(ReadFifoQueueRequest { fifo_pointer_address: get_be16(s, 1) }),
        }
    }

    /// Create a new request.
    pub fn new(fifo_pointer_address: u16) -> (r: Self)
        ensures
            r == (ReadFifoQueueRequest { fifo_pointer_address }),
    {
        Self { fifo_pointer_address }
    }

    /// Encode the request into `buf` and return the number of bytes written.
    pub fn encode(&self, buf: &mut [u8]) -> (r: Result<usize, EncodeError>)
        ensures
            encode_outcome(r, old(buf)@, final(buf)@, true, self.spec_wire()),
    {
        if buf.len() < 3 {
            return Err(EncodeError::BufferTooSmall);
        }
        buf[0] = Self::FUNCTION_CODE;
        put_be16(buf, 1, self.fifo_pointer_address);
        assert(buf@ =~= overwrite(old(buf)@, self.spec_wire()));
        Ok(3)
    }

    /// Decode a request from `buf`.
    pub fn decode(buf: &[u8]) -> (r: Result<Self, DecodeError>)
        ensures
            r == Self::spec_decode(buf@),
    {
        if let Err(e) = check_header(buf, Self::FUNCTION_CODE, 3) {
            return Err(e);
        }
        let fifo_pointer_address = read_be16(buf, 1);
        Ok(Self::new(fifo_pointer_address))
    }
}

/// Every request decodes back from its encoding.
pub proof fn read_fifo_queue_request_roundtrip(msg: ReadFifoQueueRequest)
    ensures
        ReadFifoQueueRequest::spec_decode(msg.spec_wire()) == Ok::<ReadFifoQueueRequest, DecodeError>(
            msg,
        ),
{
    lemma_be16_roundtrip(msg.fifo_pointer_address);
    assert(get_be16(msg.spec_wire(), 1) == msg.fifo_pointer_address);
}

/// Response PDU for FC 0x18 Read FIFO Queue.
///
/// The byte count field is two bytes (not one), followed by the FIFO count
/// (two bytes) and the queued register values as big-endian bytes.
#[derive(Debug, Clone, PartialEq, Eq)]
pub struct ReadFifoQueueResponse {
    pub fifo_count: u16,
    pub register_values: Vec<u8>,
}

impl View for ReadFifoQueueResponse {
    type V = (u16, Seq<u8>);

    open spec fn view(&self) -> (u16, Seq<u8>) {
        (self.fifo_count, self.register_values@)
    }
}

impl ReadFifoQueueResponse {
    /// Whether the register bytes are an even number and fit in the two-byte
    /// byte count together with the FIFO count.
    pub open spec fn spec_encodable(v: (u16, Seq<u8>)) -> bool {
        v.1.len() + 2 <= 65535 && v.1.len() % 2 == 0
    }

    /// The encoded PDU.
    pub open spec fn spec_wire(v: (u16, Seq<u8>)) -> Seq<u8> {
        seq![ReadFifoQueueRequest::FUNCTION_CODE] + be16((v.1.len() + 2) as u16) + be16(v.0) + v.1
    }

    /// What `decode` gives for the bytes `s`.
    pub open spec fn spec_decode(s: Seq<u8>) -> Result<(u16, Seq<u8>), DecodeError> {
        match spec_header(s, ReadFifoQueueRequest::FUNCTION_CODE, 5) {
            Some(e) => Err(e),
            None => {
                let byte_count = get_be16(s, 1);
                if byte_count < 2 || s.len() < 3 + byte_count || (byte_count - 2) % 2 != 0 {
                    Err(DecodeError::InvalidLength)
                } else {
                    Ok((get_be16(s, 3), s.subrange(5, 3 + byte_count)))
                }
            },
        }
    }

    /// Encode the response into `buf` and return the number of bytes written.
    pub fn encode(&self, buf: &mut [u8]) -> (r: Result<usize, EncodeError>)
        ensures
            encode_outcome(
                r,
                old(buf)@,
                final(buf)@,
                Self::spec_encodable(self@),
                Self::spec_wire(self@),
            ),
    {
        let n = self.register_values.len();
        if n > 65533 {
            return Err(EncodeError::BufferTooSmall);
        }
        let byte_count = n + 2;
        if n % 2 != 0 {
            return Err(EncodeError::BufferTooSmall);
        }
        if buf.len() < 3 + byte_count {
            return Err(EncodeError::BufferTooSmall);
        }
        buf[0] = ReadFifoQueueRequest::FUNCTION_CODE;
        put_be16(buf, 1, byte_count as u16);
        put_be16(buf, 3, self.fifo_count);
        put_bytes(buf, 5, self.register_values.as_slice());
        assert(buf@ =~= overwrite(old(buf)@, Self::spec_wire(self@)));
        Ok(3 + byte_count)
    }

    /// Decode a response from `buf`.
    pub fn decode(buf: &[u8]) -> (r: Result<Self, DecodeError>)
        ensures
            view_result(r) == Self::spec_decode(buf@),
    {
        if let Err(e) = check_header(buf, ReadFifoQueueRequest::FUNCTION_CODE, 5) {
            return Err(e);
        }
        let byte_count = read_be16(buf, 1) as usize;
        if byte_count < 2 {
            return Err(DecodeError::InvalidLength);
        }
        if buf.len() < 3 + byte_count {
            return Err(DecodeError::InvalidLength);
        }
        let fifo_count = read_be16(buf, 3);
        let register_values = copy_range(buf, 5, 3 + byte_count);
        if register_values.len() % 2 != 0 {
            return Err(DecodeError::InvalidLength);
        }
        Ok(Self { fifo_count, register_values })
    }
}

/// A response with an even number of register bytes that fits the byte
/// count decodes back from its encoding.
pub proof fn read_fifo_queue_response_roundtrip(v: (u16, Seq<u8>))
    requires
        ReadFifoQueueResponse::spec_encodable(v),
    ensures
        ReadFifoQueueResponse::spec_decode(ReadFifoQueueResponse::spec_wire(v)) == Ok::<
            (u16, Seq<u8>),
            DecodeError,
        >(v),
{
    let w = ReadFifoQueueResponse::spec_wire(v);
    lemma_be16_roundtrip((v.1.len() + 2) as u16);
    lemma_be16_roundtrip(v.0);
    assert(get_be16(w, 1) == v.1.len() + 2);
    assert(get_be16(w, 3) == v.0);
    assert(w.subrange(5, 3 + get_be16(w, 1)) =~= v.1);
}

} // verus!
