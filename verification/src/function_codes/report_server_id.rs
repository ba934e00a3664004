//! FC 0x11 Report Server ID.

use vstd::prelude::*;

use crate::codec::{check_header, counted, counted_encodable, decode_counted, encode_counted, encode_outcome, lemma_counted_roundtrip, overwrite, spec_decode_counted, spec_header, view_result};
use crate::error::{DecodeError, EncodeError};

verus! {

/// Request PDU for FC 0x11 Report Server ID.
///
/// The request carries no payload beyond the function code.
#[derive(Debug, Clone, Copy, PartialEq, Eq, Structural)]
pub struct ReportServerIdRequest;

impl ReportServerIdRequest {
    pub const FUNCTION_CODE: u8 = 0x11;

    /// The encoded PDU.
    pub open spec fn spec_wire(&self) -> Seq<u8> {
        seq![Self::FUNCTION_CODE]
    }

    /// What `decode` gives for the bytes `s`.
    pub open spec fn spec_decode(s: Seq<u8>) -> Result<Self, DecodeError> {
        match spec_header(s, Self::FUNCTION_CODE, 1) {
            Some(e) => Err(e),
            None => Ok(ReportServerIdRequest),
        }
    }

    /// Encode the request into `buf` and return the number of bytes written.
    pub fn encode(&self, buf: &mut [u8]) -> (r: Result<usize, EncodeError>)
        ensures
            encode_outcome(r, old(buf)@, final(buf)@, true, self.spec_wire()),
    {
        if buf.len() == 0 {
            return Err(EncodeError::BufferTooSmall);
        }
        buf[0] = Self::FUNCTION_CODE;
        assert(buf@ =~= overwrite(old(buf)@, self.spec_wire()));
        Ok(1)
    }

    /// Decode a request from `buf`.
    pub fn decode(buf: &[u8]) -> (r: Result<Self, DecodeError>)
        ensures
            r == Self::spec_decode(buf@),
    {
        if let Err(e) = check_header(buf, Self::FUNCTION_CODE, 1) {
            return Err(e);
        }
        Ok(Self)
    }
}

/// The request decodes back from its encoding.
pub proof fn report_server_id_request_roundtrip(msg: ReportServerIdRequest)
    ensures
        ReportServerIdRequest::spec_decode(msg.spec_wire()) == Ok::<ReportServerIdRequest, DecodeError>(msg),
{
}

/// Response PDU for FC 0x11 Report Server ID.
///
/// Returns the byte count followed by the server-specific identification data.
/// The interpretation of the data (including any run/status byte) is
/// device-specific and left to the caller.
#[derive(Debug, Clone, PartialEq, Eq)]
pub struct ReportServerIdResponse {
    pub data: Vec<u8>,
}

impl View for ReportServerIdResponse {
    type V = Seq<u8>;

    open spec fn view(&self) -> Seq<u8> {
        self.data@
    }
}

impl ReportServerIdResponse {
    /// The encoded PDU carrying the payload `data`.
    pub open spec fn spec_wire(data: Seq<u8>) -> Seq<u8> {
        counted(ReportServerIdRequest::FUNCTION_CODE, data)
    }

    /// What `decode` gives for the bytes `s`.
    pub open spec fn spec_decode(s: Seq<u8>) -> Result<Seq<u8>, DecodeError> {
        spec_decode_counted(s, ReportServerIdRequest::FUNCTION_CODE, false)
    }

    /// Create a new response.
    pub fn new(data: Vec<u8>) -> (r: Self)
        ensures
            r@ == data@,
    {
        Self { data }
    }

    /// Encode the response into `buf` and return the number of bytes written.
    pub fn encode(&self, buf: &mut [u8]) -> (r: Result<usize, EncodeError>)
        ensures
            encode_outcome(
                r,
                old(buf)@,
                final(buf)@,
                counted_encodable(self@, false),
                Self::spec_wire(self@),
            ),
    {
        encode_counted(buf, ReportServerIdRequest::FUNCTION_CODE, self.data.as_slice(), false)
    }

    /// Decode a response from `buf`.
    pub fn decode(buf: &[u8]) -> (r: Result<Self, DecodeError>)
        ensures
            view_result(r) == Self::spec_decode(buf@),
    {
        match decode_counted(buf, ReportServerIdRequest::FUNCTION_CODE, false) {
            Ok(data) => Ok(Self { data }),
            Err(e) => Err(e),
        }
    }
}

/// A response of at most 255 data bytes decodes back from its encoding.
pub proof fn report_server_id_response_roundtrip(data: Seq<u8>)
    requires
        counted_encodable(data, false),
    ensures
        ReportServerIdResponse::spec_decode(ReportServerIdResponse::spec_wire(data)) == Ok::<Seq<u8>, DecodeError>(data),
{
    lemma_counted_roundtrip(ReportServerIdRequest::FUNCTION_CODE, data, false);
}

} // verus!
