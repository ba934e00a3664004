//! FC 0x2B Encapsulated Interface Transport.

use vstd::prelude::*;

use crate::codec::{check_header, copy_range, encode_outcome, overwrite, put_bytes, spec_header, view_result};
use crate::error::{DecodeError, EncodeError};

verus! {

/// MEI type for the CANopen General Reference request/response.
pub const MEI_TYPE_CANOPEN_GENERAL_REFERENCE: u8 = 0x0D;

/// MEI type for the Read Device Identification request/response.
pub const MEI_TYPE_READ_DEVICE_IDENTIFICATION: u8 = 0x0E;

/// Read Device Identification code: request the basic identification stream.
pub const READ_DEVICE_ID_CODE_BASIC: u8 = 0x01;

/// Read Device Identification code: request the regular identification stream.
pub const READ_DEVICE_ID_CODE_REGULAR: u8 = 0x02;

/// Read Device Identification code: request the extended identification stream.
pub const READ_DEVICE_ID_CODE_EXTENDED: u8 = 0x03;

/// Read Device Identification code: request one specific identification object.
pub const READ_DEVICE_ID_CODE_SPECIFIC: u8 = 0x04;

/// The layout `function code, MEI type, payload` of FC 0x2B.
pub open spec fn mei_wire(mei_type: u8, data: Seq<u8>) -> Seq<u8> {
    seq![EncapsulatedInterfaceTransportRequest::FUNCTION_CODE, mei_type] + data
}

/// What decoding an FC 0x2B PDU gives for the bytes `s`: the payload is
/// everything after the MEI type.
pub open spec fn spec_decode_mei(s: Seq<u8>) -> Result<(u8, Seq<u8>), DecodeError> {
    match spec_header(s, EncapsulatedInterfaceTransportRequest::FUNCTION_CODE, 2) {
        Some(e) => Err(e),
        None => Ok((s[1], s.skip(2))),
    }
}

fn encode_mei(buf: &mut [u8], mei_type: u8, data: &[u8]) -> (r: Result<usize, EncodeError>)
    ensures
        encode_outcome(r, old(buf)@, final(buf)@, true, mei_wire(mei_type, data@)),
{
    if buf.len() < 2 || buf.len() - 2 < data.len() {
        return Err(EncodeError::BufferTooSmall);
    }
    buf[0] = EncapsulatedInterfaceTransportRequest::FUNCTION_CODE;
    buf[1] = mei_type;
    put_bytes(buf, 2, data);
    assert(buf@ =~= overwrite(old(buf)@, mei_wire(mei_type, data@)));
    Ok(2 + data.len())
}

fn decode_mei(buf: &[u8]) -> (r: Result<(u8, Vec<u8>), DecodeError>)
    ensures
        match r {
            Ok(v) => spec_decode_mei(buf@) == Ok::<(u8, Seq<u8>), DecodeError>((v.0, v.1@)),
            Err(e) => spec_decode_mei(buf@) == Err::<(u8, Seq<u8>), DecodeError>(e),
        },
{
    if let Err(e) = check_header(buf, EncapsulatedInterfaceTransportRequest::FUNCTION_CODE, 2) {
        return Err(e);
    }
    let data = copy_range(buf, 2, buf.len());
    assert(data@ =~= buf@.skip(2));
    Ok((buf[1], data))
}

/// Request PDU for FC 0x2B Encapsulated Interface Transport.
///
/// The MEI type selects the encapsulated protocol; the remaining bytes are the
/// MEI-specific payload. This covers both MEI type 0x0D (CANopen General
/// Reference) and 0x0E (Read Device Identification).
#[derive(Debug, Clone, PartialEq, Eq)]
pub struct EncapsulatedInterfaceTransportRequest {
    pub mei_type: u8,
    pub data: Vec<u8>,
}

impl View for EncapsulatedInterfaceTransportRequest {
    type V = (u8, Seq<u8>);

    open spec fn view(&self) -> (u8, Seq<u8>) {
        (self.mei_type, self.data@)
    }
}

impl EncapsulatedInterfaceTransportRequest {
    pub const FUNCTION_CODE: u8 = 0x2B;

    /// Create a new request.
    pub fn new(mei_type: u8, data: Vec<u8>) -> (r: Self)
        ensures
            r@ == (mei_type, data@),
    {
        Self { mei_type, data }
    }

    /// Encode the request into `buf` and return the number of bytes written.
    pub fn encode(&self, buf: &mut [u8]) -> (r: Result<usize, EncodeError>)
        ensures
            encode_outcome(r, old(buf)@, final(buf)@, true, mei_wire(self.mei_type, self.data@)),
    {
        encode_mei(buf, self.mei_type, self.data.as_slice())
    }

    /// Decode a request from `buf`.
    pub fn decode(buf: &[u8]) -> (r: Result<Self, DecodeError>)
        ensures
            view_result(r) == spec_decode_mei(buf@),
    {
        match decode_mei(buf) {
            Ok((mei_type, data)) => Ok(Self::new(mei_type, data)),
            Err(e) => Err(e),
        }
    }
}

/// Response PDU for FC 0x2B Encapsulated Interface Transport.
///
/// The response echoes the MEI type and carries the MEI-specific payload.
#[derive(Debug, Clone, PartialEq, Eq)]
pub struct EncapsulatedInterfaceTransportResponse {
    pub mei_type: u8,
    pub data: Vec<u8>,
}

impl View for EncapsulatedInterfaceTransportResponse {
    type V = (u8, Seq<u8>);

    open spec fn view(&self) -> (u8, Seq<u8>) {
        (self.mei_type, self.data@)
    }
}

impl EncapsulatedInterfaceTransportResponse {
    /// Create a new response.
    pub fn new(mei_type: u8, data: Vec<u8>) -> (r: Self)
        ensures
            r@ == (mei_type, data@),
    {
        Self { mei_type, data }
    }

    /// Encode the response into `buf` and return the number of bytes written.
    pub fn encode(&self, buf: &mut [u8]) -> (r: Result<usize, EncodeError>)
        ensures
            encode_outcome(r, old(buf)@, final(buf)@, true, mei_wire(self.mei_type, self.data@)),
    {
        encode_mei(buf, self.mei_type, self.data.as_slice())
    }

    /// Decode a response from `buf`.
    pub fn decode(buf: &[u8]) -> (r: Result<Self, DecodeError>)
        ensures
            view_result(r) == spec_decode_mei(buf@),
    {
        match decode_mei(buf) {
            Ok((mei_type, data)) => Ok(Self::new(mei_type, data)),
            Err(e) => Err(e),
        }
    }
}

/// Every FC 0x2B request or response decodes back from its encoding.
pub proof fn encapsulated_interface_transport_roundtrip(mei_type: u8, data: Seq<u8>)
    ensures
        spec_decode_mei(mei_wire(mei_type, data)) == Ok::<(u8, Seq<u8>), DecodeError>(
            (mei_type, data),
        ),
{
    assert(mei_wire(mei_type, data).skip(2) =~= data);
}

} // verus!
