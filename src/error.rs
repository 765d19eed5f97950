use vstd::prelude::*;

verus! {

/// Every way in which building a chunk type or a chunk can fail.
#[derive(Debug, Clone, Copy, PartialEq, Eq, Structural)]
pub enum Error {
    /// The buffer is shorter than the smallest record; holds its length.
    InputTooSmall(usize),
    /// The type field of a record is not four ASCII letters.
    ChunkTypeNotValid,
    /// A byte or character of a type tag is not an ASCII letter.
    ValueNotInRange,
    /// A type tag given as text does not have exactly four characters.
    WrongLength,
    /// The declared payload length runs past the end of the buffer; holds that length.
    LengthOutOfBounds(u32),
    /// The checksum computed over type and payload differs from the declared one:
    /// `(computed, declared)`.
    CrcMismatch(u32, u32),
    /// The payload is not valid UTF-8.
    Utf8DecodeFailure,
}

} // verus!
