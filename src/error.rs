use vstd::prelude::*;

use crate::response::Terminator;

verus! {

/// Numeric syntax errors of a single decoded field.
#[derive(Clone, Copy, Debug, PartialEq, Eq, Structural)]
pub enum IntegerError {
    /// The field holds no digit before its fractional part or terminator.
    EmptyDigits,
    /// The byte that closes the field is not a comma, semicolon or newline.
    InvalidTerminator,
    /// The value does not fit the requested integer width.
    Overflow,
}

/// Every way a response can fail to decode.
#[derive(Clone, Copy, Debug, PartialEq, Eq, Structural)]
pub enum Error {
    /// The input ended in the middle of a field.
    UnexpectedEof,
    /// A byte outside printable ASCII (and other than newline) was met.
    NonAsciiByte { byte: u8 },
    /// A field body is longer than the allowed number of bytes.
    FieldTooLong { max: usize },
    /// Malformed numeric syntax.
    ParseInt(IntegerError),
    /// The response does not have the shape the caller expected.
    UnexpectedTerminator { expected: Terminator, actual: Terminator },
    /// A grid stream was collected after items had already been taken from it.
    PartiallyConsumed,
}

/// A grid was addressed outside of its extent.
#[derive(Clone, Copy, Debug, PartialEq, Eq, Structural)]
pub struct OutOfBoundsError;

} // verus!
