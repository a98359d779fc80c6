use vstd::prelude::*;

verus! {

/// Why a byte string was not accepted as a message or as part of one.
#[derive(Debug, Clone, Copy, PartialEq, Eq, Structural)]
pub enum DecodeError {
    /// The bytes end before a header is complete, or before the bytes that a
    /// header counts.
    Truncated,
    /// A length that a header declares is not the length of what is there:
    /// a payload is of a length that its type does not allow, an attribute
    /// passes the end of the attributes, or bytes are left over after the
    /// message.
    LengthMismatch,
    /// A text payload is not UTF-8.
    InvalidUtf8,
    /// The attribute type is none of the known ones.
    UnknownAttributeType,
    /// The message class is none of the known ones.
    UnknownHeaderType,
}

} // verus!
