//! What can go wrong while decoding or building a compression header.
use vstd::prelude::*;

verus! {

/// The errors of this library.
#[derive(Debug, Clone, Copy, PartialEq, Eq, Structural)]
pub enum LasZipError {
    /// An item-type code outside the known set, with the raw code.
    UnknownLazItem(u16),
    /// A compressor-type code outside the known set, with the raw code.
    UnknownCompressorType(u16),
    /// A point format id that no item list is defined for.
    UnsupportedPointFormat(u8),
    /// A compression version that the point format does not support:
    /// the point format id and the version asked for.
    UnsupportedLazVersion(u8, u16),
    /// An item list without any item.
    NoLazItems,
    /// An item version that maps to no compressor type.
    UnknownLazItemVersion(u16),
    /// The buffer ends before the header does.
    UnexpectedEof,
}

} // verus!
