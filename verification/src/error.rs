//! Error type for header construction and data emission.

use vstd::prelude::*;

verus! {

/// The two failure kinds the writer can surface.
///
/// `HeaderLen` reports that the computed header-text byte count (the part of
/// the header block after the fixed 12-byte prefix) cannot be represented in
/// the signed 32-bit length field of the format. It carries the attempted
/// byte count and the format version pair, for diagnostics. Nothing has been
/// emitted to the sink when this error is returned.
///
/// `Write` reports a failure of a downstream byte sink. The verified core
/// appends to an in-memory buffer and never fails this way; the variant is
/// for callers that forward the buffered bytes to a fallible sink.
#[derive(Debug)]
pub enum Error {
    HeaderLen(usize, (u8, u8)),
    Write,
}

} // verus!
