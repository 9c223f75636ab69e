//! What can go wrong while decoding.
use vstd::prelude::*;
use crate::cursor::OutOfBounds;

verus! {

/// The error type for bag decoding.
#[derive(Debug, Clone, PartialEq, Eq)]
pub enum Error {
    /// A header's field list is malformed or incomplete.
    InvalidHeader,
    /// A record's body, or its opcode, is malformed.
    InvalidRecord,
    /// A record carries a format version this decoder does not read.
    UnsupportedVersion,
    /// A read or a seek went past the end of its region.
    OutOfBounds,
    /// A record of the named kind stood in the chunk section.
    UnexpectedChunkSectionRecord(&'static str),
    /// A record of the named kind stood in the index section.
    UnexpectedIndexSectionRecord(&'static str),
    /// A record of the named kind stood in a chunk's payload.
    UnexpectedMessageRecord(&'static str),
    /// The bzip2 codec rejected a chunk payload.
    Bzip2DecompressionError(String),
    /// The LZ4 codec rejected a chunk payload.
    Lz4DecompressionError(String),
}

impl From<OutOfBounds> for Error {
    fn from(e: OutOfBounds) -> (r: Error)
        ensures
            r == Error::OutOfBounds,
    {
        Error::OutOfBounds
    }
}

impl vstd::std_specs::convert::FromSpecImpl<OutOfBounds> for Error {
    open spec fn obeys_from_spec() -> bool {
        true
    }

    open spec fn from_spec(v: OutOfBounds) -> Error {
        Error::OutOfBounds
    }
}

} // verus!
