//! FC 0x17 Read/Write Multiple Registers.

use vstd::prelude::*;

use crate::codec::{be16, check_header, copy_range, counted, counted_encodable, decode_counted, encode_counted, encode_outcome, get_be16, lemma_be16_roundtrip, lemma_counted_roundtrip, overwrite, put_be16, put_bytes, read_be16, spec_decode_counted, spec_header, view_result};
use crate::error::{DecodeError, EncodeError};

verus! {

/// Request PDU for FC 0x17 Read/Write Multiple Registers.
///
/// Atomically reads `read_quantity` registers starting at
/// `read_starting_address` and writes `write_quantity` registers starting at
/// `write_starting_address`. The write values are big-endian, two bytes each.
#[derive(Debug, Clone, PartialEq, Eq)]
pub struct ReadWriteMultipleRegistersRequest {
    pub read_starting_address: u16,
    pub read_quantity: u16,
    pub write_starting_address: u16,
    pub write_quantity: u16,
    pub write_values: Vec<u8>,
}

impl View for ReadWriteMultipleRegistersRequest {
    type V = (u16, u16, u16, u16, Seq<u8>);

    open spec fn view(&self) -> (u16, u16, u16, u16, Seq<u8>) {
        (
            self.read_starting_address,
            self.read_quantity,
            self.write_starting_address,
            self.write_quantity,
            self.write_values@,
        )
    }
}

impl ReadWriteMultipleRegistersRequest {
    pub const FUNCTION_CODE: u8 = 0x17;
    pub const MIN_READ_QUANTITY: u16 = 1;
    pub const MAX_READ_QUANTITY: u16 = 0x007D;
    pub const MIN_WRITE_QUANTITY: u16 = 1;
    pub const MAX_WRITE_QUANTITY: u16 = 0x0079;

    /// What `new` gives for these fields.
    pub open spec fn spec_new(
        read_starting_address: u16,
        read_quantity: u16,
        write_starting_address: u16,
        write_quantity: u16,
        write_values: Seq<u8>,
    ) -> Result<(u16, u16, u16, u16, Seq<u8>), DecodeError> {
        if !(Self::MIN_READ_QUANTITY <= read_quantity <= Self::MAX_READ_QUANTITY) {
            Err(DecodeError::InvalidQuantity)
        } else if !(Self::MIN_WRITE_QUANTITY <= write_quantity <= Self::MAX_WRITE_QUANTITY) {
            Err(DecodeError::InvalidQuantity)
        } else if write_values.len() != write_quantity * 2 {
            Err(DecodeError::InvalidLength)
        } else {
            Ok(
                (
                    read_starting_address,
                    read_quantity,
                    write_starting_address,
                    write_quantity,
                    write_values,
                ),
            )
        }
    }

    /// Whether `new` accepts these fields.
    pub open spec fn valid(v: (u16, u16, u16, u16, Seq<u8>)) -> bool {
        Self::spec_new(v.0, v.1, v.2, v.3, v.4) is Ok
    }

    /// Whether the write values can be encoded: an even number of bytes that
    /// fits in the byte count.
    pub open spec fn spec_encodable(v: (u16, u16, u16, u16, Seq<u8>)) -> bool {
        v.4.len() <= 255 && v.4.len() % 2 == 0
    }

    /// The encoded PDU.
    pub open spec fn spec_wire(v: (u16, u16, u16, u16, Seq<u8>)) -> Seq<u8> {
        seq![Self::FUNCTION_CODE] + be16(v.0) + be16(v.1) + be16(v.2) + be16(v.3) + seq![
            v.4.len() as u8,
        ] + v.4
    }

    /// What `decode` gives for the bytes `s`.
    pub open spec fn spec_decode(s: Seq<u8>) -> Result<(u16, u16, u16, u16, Seq<u8>), DecodeError> {
        match spec_header(s, Self::FUNCTION_CODE, 10) {
            Some(e) => Err(e),
            None => if s.len() < 10 + s[9] {
                Err(DecodeError::InvalidLength)
            } else {
                Self::spec_new(
                    get_be16(s, 1),
                    get_be16(s, 3),
                    get_be16(s, 5),
                    get_be16(s, 7),
                    s.subrange(10, 10 + s[9]),
                )
            },
        }
    }

    /// Create a new request, validating quantities and write value length.
    pub fn new(
        read_starting_address: u16,
        read_quantity: u16,
        write_starting_address: u16,
        write_quantity: u16,
        write_values: Vec<u8>,
    ) -> (r: Result<Self, DecodeError>)
        ensures
            view_result(r) == Self::spec_new(
                read_starting_address,
                read_quantity,
                write_starting_address,
                write_quantity,
                write_values@,
            ),
    {
        if !(Self::MIN_READ_QUANTITY <= read_quantity && read_quantity <= Self::MAX_READ_QUANTITY) {
            return Err(DecodeError::InvalidQuantity);
        }
        if !(Self::MIN_WRITE_QUANTITY <= write_quantity && write_quantity
            <= Self::MAX_WRITE_QUANTITY) {
            return Err(DecodeError::InvalidQuantity);
        }
        let expected_bytes = (write_quantity as usize) * 2;
        if write_values.len() != expected_bytes {
            return Err(DecodeError::InvalidLength);
        }
        Ok(
            Self {
                read_starting_address,
                read_quantity,
                write_starting_address,
                write_quantity,
                write_values,
            },
        )
    }

    /// Encode the request into `buf` and return the number of bytes written.
    pub fn encode(&self, buf: &mut [u8]) -> (r: Result<usize, EncodeError>)
        ensures
            encode_outcome(
                r,
                old(buf)@,
                final(buf)@,
                Self::spec_encodable(self@),
                Self::spec_wire(self@),
            ),
    {
        let byte_count = self.write_values.len();
        if byte_count > 255 {
            return Err(EncodeError::BufferTooSmall);
        }
        if byte_count % 2 != 0 {
            return Err(EncodeError::BufferTooSmall);
        }
        if buf.len() < 10 + byte_count {
            return Err(EncodeError::BufferTooSmall);
        }
        buf[0] = Self::FUNCTION_CODE;
        put_be16(buf, 1, self.read_starting_address);
        put_be16(buf, 3, self.read_quantity);
        put_be16(buf, 5, self.write_starting_address);
        put_be16(buf, 7, self.write_quantity);
        buf[9] = byte_count as u8;
        put_bytes(buf, 10, self.write_values.as_slice());
        assert(buf@ =~= overwrite(old(buf)@, Self::spec_wire(self@)));
        Ok(10 + byte_count)
    }

    /// Decode a request from `buf`.
    pub fn decode(buf: &[u8]) -> (r: Result<Self, DecodeError>)
        ensures
            view_result(r) == Self::spec_decode(buf@),
    {
        if let Err(e) = check_header(buf, Self::FUNCTION_CODE, 10) {
            return Err(e);
        }
        let read_starting_address = read_be16(buf, 1);
        let read_quantity = read_be16(buf, 3);
        let write_starting_address = read_be16(buf, 5);
        let write_quantity = read_be16(buf, 7);
        let byte_count = buf[9] as usize;
        if buf.len() < 10 + byte_count {
            return Err(DecodeError::InvalidLength);
        }
        let write_values = copy_range(buf, 10, 10 + byte_count);
        Self::new(
            read_starting_address,
            read_quantity,
            write_starting_address,
            write_quantity,
            write_values,
        )
    }
}

/// A request that `new` accepts decodes back from its encoding.
pub proof fn read_write_multiple_registers_request_roundtrip(v: (u16, u16, u16, u16, Seq<u8>))
    requires
        ReadWriteMultipleRegistersRequest::valid(v),
    ensures
        ReadWriteMultipleRegistersRequest::spec_decode(
            ReadWriteMultipleRegistersRequest::spec_wire(v),
        ) == Ok::<(u16, u16, u16, u16, Seq<u8>), DecodeError>(v),
{
    let w = ReadWriteMultipleRegistersRequest::spec_wire(v);
    lemma_be16_roundtrip(v.0);
    lemma_be16_roundtrip(v.1);
    lemma_be16_roundtrip(v.2);
    lemma_be16_roundtrip(v.3);
    assert(get_be16(w, 1) == v.0);
    assert(get_be16(w, 3) == v.1);
    assert(get_be16(w, 5) == v.2);
    assert(get_be16(w, 7) == v.3);
    assert(w.subrange(10, 10 + w[9]) =~= v.4);
}

/// Response PDU for FC 0x17 Read/Write Multiple Registers.
///
/// Contains the read register values as big-endian bytes.
#[derive(Debug, Clone, PartialEq, Eq)]
pub struct ReadWriteMultipleRegistersResponse {
    pub register_values: Vec<u8>,
}

impl View for ReadWriteMultipleRegistersResponse {
    type V = Seq<u8>;

    open spec fn view(&self) -> Seq<u8> {
        self.register_values@
    }
}

impl ReadWriteMultipleRegistersResponse {
    /// The encoded PDU carrying the payload `register_values`.
    pub open spec fn spec_wire(register_values: Seq<u8>) -> Seq<u8> {
        counted(ReadWriteMultipleRegistersRequest::FUNCTION_CODE, register_values)
    }

    /// What `decode` gives for the bytes `s`.
    pub open spec fn spec_decode(s: Seq<u8>) -> Result<Seq<u8>, DecodeError> {
        spec_decode_counted(s, ReadWriteMultipleRegistersRequest::FUNCTION_CODE, true)
    }

    /// Encode the response into `buf` and return the number of bytes written.
    pub fn encode(&self, buf: &mut [u8]) -> (r: Result<usize, EncodeError>)
        ensures
            encode_outcome(
                r,
                old(buf)@,
                final(buf)@,
                counted_encodable(self@, true),
                Self::spec_wire(self@),
            ),
    {
        encode_counted(buf, ReadWriteMultipleRegistersRequest::FUNCTION_CODE, self.register_values.as_slice(), true)
    }

    /// Decode a response from `buf`.
    pub fn decode(buf: &[u8]) -> (r: Result<Self, DecodeError>)
        ensures
            view_result(r) == Self::spec_decode(buf@),
    {
        match decode_counted(buf, ReadWriteMultipleRegistersRequest::FUNCTION_CODE, true) {
            Ok(register_values) => Ok(Self { register_values }),
            Err(e) => Err(e),
        }
    }
}

/// A response with an even number of at most 255 register bytes decodes back from its encoding.
pub proof fn read_write_multiple_registers_response_roundtrip(register_values: Seq<u8>)
    requires
        counted_encodable(register_values, true),
    ensures
        ReadWriteMultipleRegistersResponse::spec_decode(ReadWriteMultipleRegistersResponse::spec_wire(register_values)) == Ok::<Seq<u8>, DecodeError>(register_values),
{
    lemma_counted_roundtrip(ReadWriteMultipleRegistersRequest::FUNCTION_CODE, register_values, true);
}

} // verus!
