//! A verified reader for SEG-Y seismic data files.
//!
//! A SEG-Y file holds a 3200-byte textual header, a 400-byte binary header,
//! optional extended textual headers, and a sequence of trace records, each a
//! 240-byte trace header followed by its samples. The library parses the
//! binary header, indexes every trace record in one pass, and decodes trace
//! samples in five numeric encodings, across the three byte orders that
//! legacy producers used.

use vstd::prelude::*;

pub mod codec;
pub mod decode;
pub mod header;
pub mod indexer;
pub mod segy;
pub mod text;

verus! {

/// Everything that can go wrong while reading a SEG-Y file.
#[derive(Debug, Copy, Clone, PartialEq, Eq, Structural)]
pub enum SegyError {
    /// The filesystem failed to open or read the file.
    IoFailure,
    /// The binary header holds an unrecognized byte-order marker or data
    /// format code, or the file is too short to hold its headers.
    ParseFailure,
    /// The data format is recognized but cannot be decoded
    /// (fixed point with gain).
    UnsupportedDataFormat,
    /// The textual header is not valid text after transliteration.
    EncodingFailure,
    /// A trace number below the 1-based minimum was requested.
    InvalidArgument,
    /// A trace number beyond the indexed count was requested.
    TraceOutOfRange { requested: u32, trace_count: usize },
}

} // verus!
