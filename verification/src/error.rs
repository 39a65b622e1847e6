use vstd::prelude::*;

verus! {

/// Errors that can occur during serialization or deserialization.
///
/// A small, fieldless enum, so that a `Result` carrying it stays cheap to
/// return.
#[derive(Debug, Clone, Copy, PartialEq, Eq, Structural)]
#[non_exhaustive]
pub enum Error {
    /// The output buffer is too small to hold the serialized data.
    ExceedsBuffer,
    /// The input ended before a complete value could be decoded.
    UnexpectedEnd,
    /// A varint tag byte was invalid for the target integer type.
    InvalidVarint,
    /// A boolean byte was not 0 or 1.
    InvalidBool,
    /// An option tag byte was not 0 or 1.
    InvalidOption,
    /// String data was not valid UTF-8.
    InvalidUtf8,
    /// A `u32` was not a valid unicode scalar value.
    InvalidChar,
    /// A length prefix did not fit in `usize`.
    InvalidLength,
    /// A sequence or map was serialized without a known length.
    SeqLengthUnknown,
    /// The format is not self-describing; this operation is unsupported.
    NotSupported,
    /// A custom error message (discarded).
    Custom,
}

impl Error {
    /// The human-readable description of the error.
    pub fn message(&self) -> (s: &'static str)
        ensures
            s@ == error_message(*self),
    {
        match self {
            Error::ExceedsBuffer => "output buffer too small",
            Error::UnexpectedEnd => "unexpected end of input",
            Error::InvalidVarint => "invalid varint tag",
            Error::InvalidBool => "invalid bool value",
            Error::InvalidOption => "invalid option tag",
            Error::InvalidUtf8 => "invalid UTF-8",
            Error::InvalidChar => "invalid char value",
            Error::InvalidLength => "length does not fit in usize",
            Error::SeqLengthUnknown => "sequence length must be known",
            Error::NotSupported => "operation not supported by this format",
            Error::Custom => "custom error",
        }
    }
}

/// The message text of each error.
pub open spec fn error_message(e: Error) -> Seq<char> {
    match e {
        Error::ExceedsBuffer => "output buffer too small"@,
        Error::UnexpectedEnd => "unexpected end of input"@,
        Error::InvalidVarint => "invalid varint tag"@,
        Error::InvalidBool => "invalid bool value"@,
        Error::InvalidOption => "invalid option tag"@,
        Error::InvalidUtf8 => "invalid UTF-8"@,
        Error::InvalidChar => "invalid char value"@,
        Error::InvalidLength => "length does not fit in usize"@,
        Error::SeqLengthUnknown => "sequence length must be known"@,
        Error::NotSupported => "operation not supported by this format"@,
        Error::Custom => "custom error"@,
    }
}

} // verus!
