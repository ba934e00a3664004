use vstd::prelude::*;

verus! {

/// Errors that can occur when encoding a PDU.
#[derive(Debug, Clone, Copy, PartialEq, Eq, Structural)]
pub enum EncodeError {
    /// The provided buffer is too small to hold the encoded PDU.
    BufferTooSmall,
}

/// Errors that can occur when decoding a PDU.
#[derive(Debug, Clone, Copy, PartialEq, Eq, Structural)]
pub enum DecodeError {
    /// The buffer does not contain enough bytes for the expected PDU.
    InvalidLength,
    /// The quantity field is outside the allowed range for the function code.
    InvalidQuantity,
    /// A value field is outside the allowed range for the function code.
    InvalidValue,
    /// The function code in the response does not match the request.
    UnknownFunctionCode,
}

impl EncodeError {
    /// Human-readable description of the error.
    pub fn message(&self) -> (s: &'static str)
        ensures
            s@ == "buffer too small"@,
    {
        match self {
            EncodeError::BufferTooSmall => "buffer too small",
        }
    }
}

impl DecodeError {
    /// Human-readable description of the error.
    pub fn message(&self) -> (s: &'static str)
        ensures
            s@ == match self {
                DecodeError::InvalidLength => "invalid length"@,
                DecodeError::InvalidQuantity => "invalid quantity"@,
                DecodeError::InvalidValue => "invalid value"@,
                DecodeError::UnknownFunctionCode => "unknown function code"@,
            },
    {
        match self {
            DecodeError::InvalidLength => "invalid length",
            DecodeError::InvalidQuantity => "invalid quantity",
            DecodeError::InvalidValue => "invalid value",
            DecodeError::UnknownFunctionCode => "unknown function code",
        }
    }
}

} // verus!
