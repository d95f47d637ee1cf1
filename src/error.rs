use vstd::prelude::*;

verus! {

/// Why a decode failed. Any failure aborts the whole decode.
#[derive(Debug, Clone, Copy, PartialEq, Eq, Structural)]
pub enum DecodeError {
    /// The buffer does not start with 0xCAFEBABE.
    MagicMismatch,
    /// The input ended in the middle of a field.
    InsufficientBytes,
    /// A constant-pool reference is zero, out of range, or of the wrong kind.
    InvalidConstantIndex,
    /// An attribute name is not known in the context where it appears.
    UnknownAttributeName,
    /// A stack-map frame type byte is undefined. Every byte value is
    /// assigned a frame kind, so the decoder never reports it.
    InvalidFrameType,
    /// A verification-type tag is not in 0..=8.
    InvalidVerificationTag,
    /// An element-value tag is not one of the defined tags.
    InvalidElementValueTag,
    /// A type-annotation target type is not defined.
    InvalidTargetType,
    /// An attribute that must be empty declares a non-zero length.
    InvalidAttributeLength,
    /// A switch instruction has a high bound below its low bound.
    InvalidSwitchBounds,
    /// Annotations or arrays nest deeper than the decoder allows.
    NestingTooDeep,
    /// Bytes remain after the top-level attribute list.
    TrailingBytes,
}

/// The result is not the trailing-bytes error, which only the decoding of
/// a whole buffer reports.
pub open spec fn no_trailing<T>(r: Result<T, DecodeError>) -> bool {
    !(r is Err && r->Err_0 == DecodeError::TrailingBytes)
}

} // verus!
