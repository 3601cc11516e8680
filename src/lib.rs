//! The LASzip compression header: the record that says which fields make up a
//! point, which algorithm revision encodes each, and how points are chunked.

pub mod bytes;
pub mod error;
pub mod vlr;

pub use error::LasZipError;
pub use vlr::{
    CompressorType, LazItem, LazItemRecordBuilder, LazItemType, LazVlr, LazVlrBuilder, PointFormat,
    HEAD_LEN,
};
