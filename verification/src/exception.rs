//! Exception responses: the function code with its high bit set, and an
//! exception code.

use vstd::prelude::*;

use crate::codec::{encode_outcome, overwrite};
use crate::error::{DecodeError, EncodeError};

verus! {

/// Standard MODBUS exception codes (0x01-0x0B).
#[derive(Debug, Clone, Copy, PartialEq, Eq, Structural)]
pub enum ExceptionCode {
    /// Function code received in the query is not an allowable action for the server.
    IllegalFunction,
    /// The data address received in the query is not an allowable address.
    IllegalDataAddress,
    /// A value contained in the query data field is not an allowable value.
    IllegalDataValue,
    /// An unrecoverable error occurred while the server was attempting to perform the action.
    ServerDeviceFailure,
    /// The server has accepted the request and is processing it, but this will take a long time.
    Acknowledge,
    /// The server is engaged in processing a long-duration program command.
    ServerDeviceBusy,
    /// Reserved exception code 0x07.
    Reserved0x07,
    /// The server attempted to read record file, but detected a parity error in the memory.
    MemoryParityError,
    /// Reserved exception code 0x09.
    Reserved0x09,
    /// The gateway was unable to allocate an internal communication path to the target device.
    GatewayPathUnavailable,
    /// The gateway received no response from the target device.
    GatewayTargetDeviceFailedToRespond,
}

impl ExceptionCode {
    /// The raw value of each exception code.
    pub open spec fn value(self) -> u8 {
        match self {
            ExceptionCode::IllegalFunction => 0x01,
            ExceptionCode::IllegalDataAddress => 0x02,
            ExceptionCode::IllegalDataValue => 0x03,
            ExceptionCode::ServerDeviceFailure => 0x04,
            ExceptionCode::Acknowledge => 0x05,
            ExceptionCode::ServerDeviceBusy => 0x06,
            ExceptionCode::Reserved0x07 => 0x07,
            ExceptionCode::MemoryParityError => 0x08,
            ExceptionCode::Reserved0x09 => 0x09,
            ExceptionCode::GatewayPathUnavailable => 0x0A,
            ExceptionCode::GatewayTargetDeviceFailedToRespond => 0x0B,
        }
    }

    /// The exception code whose raw value is `code`, if there is one.
    pub open spec fn spec_from_u8(code: u8) -> Option<Self> {
        if code == 0x01 {
            Some(ExceptionCode::IllegalFunction)
        } else if code == 0x02 {
            Some(ExceptionCode::IllegalDataAddress)
        } else if code == 0x03 {
            Some(ExceptionCode::IllegalDataValue)
        } else if code == 0x04 {
            Some(ExceptionCode::ServerDeviceFailure)
        } else if code == 0x05 {
            Some(ExceptionCode::Acknowledge)
        } else if code == 0x06 {
            Some(ExceptionCode::ServerDeviceBusy)
        } else if code == 0x07 {
            Some(ExceptionCode::Reserved0x07)
        } else if code == 0x08 {
            Some(ExceptionCode::MemoryParityError)
        } else if code == 0x09 {
            Some(ExceptionCode::Reserved0x09)
        } else if code == 0x0A {
            Some(ExceptionCode::GatewayPathUnavailable)
        } else if code == 0x0B {
            Some(ExceptionCode::GatewayTargetDeviceFailedToRespond)
        } else {
            None
        }
    }

    /// Convert a raw exception code into an `ExceptionCode`.
    pub fn from_u8(code: u8) -> (r: Option<Self>)
        ensures
            r == Self::spec_from_u8(code),
    {
        match code {
            0x01 => Some(Self::IllegalFunction),
            0x02 => Some(Self::IllegalDataAddress),
            0x03 => Some(Self::IllegalDataValue),
            0x04 => Some(Self::ServerDeviceFailure),
            0x05 => Some(Self::Acknowledge),
            0x06 => Some(Self::ServerDeviceBusy),
            0x07 => Some(Self::Reserved0x07),
            0x08 => Some(Self::MemoryParityError),
            0x09 => Some(Self::Reserved0x09),
            0x0A => Some(Self::GatewayPathUnavailable),
            0x0B => Some(Self::GatewayTargetDeviceFailedToRespond),
            _ => None,
        }
    }

    /// Return the raw exception code value.
    pub fn as_u8(self) -> (r: u8)
        ensures
            r == self.value(),
    {
        match self {
            Self::IllegalFunction => 0x01,
            Self::IllegalDataAddress => 0x02,
            Self::IllegalDataValue => 0x03,
            Self::ServerDeviceFailure => 0x04,
            Self::Acknowledge => 0x05,
            Self::ServerDeviceBusy => 0x06,
            Self::Reserved0x07 => 0x07,
            Self::MemoryParityError => 0x08,
            Self::Reserved0x09 => 0x09,
            Self::GatewayPathUnavailable => 0x0A,
            Self::GatewayTargetDeviceFailedToRespond => 0x0B,
        }
    }
}

/// Converting an exception code to its raw value and back gives it again,
/// and a raw value that converts comes back from its code.
pub proof fn exception_code_roundtrip(code: ExceptionCode, raw: u8)
    ensures
        ExceptionCode::spec_from_u8(code.value()) == Some(code),
        ExceptionCode::spec_from_u8(raw) matches Some(c) ==> c.value() == raw,
        ExceptionCode::spec_from_u8(raw) is Some <==> 0x01 <= raw <= 0x0B,
{
}

/// Exception response PDU.
///
/// The encoded function code is the request's function code with the high bit
/// set (`0x80`).
#[derive(Debug, Clone, Copy, PartialEq, Eq, Structural)]
pub struct ExceptionResponse {
    /// Function code of the request, without the exception flag.
    pub function_code: u8,
    pub exception_code: ExceptionCode,
}

impl ExceptionResponse {
    pub const EXCEPTION_FLAG: u8 = 0x80;

    /// The encoded PDU.
    pub open spec fn spec_wire(&self) -> Seq<u8> {
        seq![self.function_code | Self::EXCEPTION_FLAG, self.exception_code.value()]
    }

    /// What `decode` gives for the bytes `s`.
    pub open spec fn spec_decode(s: Seq<u8>) -> Result<Self, DecodeError> {
        if s.len() < 2 {
            Err(DecodeError::InvalidLength)
        } else if s[0] & Self::EXCEPTION_FLAG == 0 {
            Err(DecodeError::InvalidValue)
        } else {
            match ExceptionCode::spec_from_u8(s[1]) {
                Some(exception_code) => Ok(
                    ExceptionResponse { function_code: s[0] & !Self::EXCEPTION_FLAG, exception_code },
                ),
                None => Err(DecodeError::InvalidValue),
            }
        }
    }

    /// Create a new exception response.
    pub fn new(function_code: u8, exception_code: ExceptionCode) -> (r: Self)
        ensures
            r == (ExceptionResponse { function_code: function_code & 0x7F, exception_code }),
            r.function_code < 0x80,
    {
        assert(function_code & 0x7F < 0x80) by (bit_vector);
        Self { function_code: function_code & 0x7F, exception_code }
    }

    /// Encode the response into `buf` and return the number of bytes written.
    pub fn encode(&self, buf: &mut [u8]) -> (r: Result<usize, EncodeError>)
        ensures
            encode_outcome(r, old(buf)@, final(buf)@, true, self.spec_wire()),
    {
        if buf.len() < 2 {
            return Err(EncodeError::BufferTooSmall);
        }
        buf[0] = self.function_code | Self::EXCEPTION_FLAG;
        buf[1] = self.exception_code.as_u8();
        assert(buf@ =~= overwrite(old(buf)@, self.spec_wire()));
        Ok(2)
    }

    /// Decode an exception response from `buf`.
    pub fn decode(buf: &[u8]) -> (r: Result<Self, DecodeError>)
        ensures
            r == Self::spec_decode(buf@),
    {
        if buf.len() < 2 {
            return Err(DecodeError::InvalidLength);
        }
        let raw_function_code = buf[0];
        if raw_function_code & Self::EXCEPTION_FLAG == 0 {
            return Err(DecodeError::InvalidValue);
        }
        let function_code = raw_function_code & !Self::EXCEPTION_FLAG;
        let exception_code = match ExceptionCode::from_u8(buf[1]) {
            Some(c) => c,
            None => {
                return Err(DecodeError::InvalidValue);
            },
        };
        Ok(Self { function_code, exception_code })
    }
}

/// An exception response whose function code has its high bit clear (as
/// `new` makes it) decodes back from its encoding.
pub proof fn exception_response_roundtrip(resp: ExceptionResponse)
    requires
        resp.function_code < 0x80,
    ensures
        ExceptionResponse::spec_decode(resp.spec_wire()) == Ok::<ExceptionResponse, DecodeError>(
            resp,
        ),
{
    let f = resp.function_code;
    assert(f < 0x80 ==> (f | 0x80u8) & 0x80u8 != 0 && (f | 0x80u8) & !0x80u8 == f) by (bit_vector);
    exception_code_roundtrip(resp.exception_code, 0);
}

} // verus!
