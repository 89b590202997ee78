//! Streaming writer for the NPY binary array container.
//!
//! The library emits a fixed-layout, 64-byte-aligned header describing the
//! element type and shape of a homogeneous multidimensional array, followed
//! by the raw little-endian scalar values appended one `put` call at a time,
//! in row-major order and with no delimiters.
//!
//! The first shape dimension is the growth axis: its final extent may be
//! unknown when the header is written (a streamed row count). The header
//! reserves a constant trailing-space budget after the dictionary literal so
//! that a caller holding a seekable sink can later rewrite that dimension in
//! place with more digits without moving any data bytes. The writer itself
//! never tracks the number of `put` calls against the declared shape; that
//! reconciliation is the caller's responsibility.
//!
//! All bytes are appended to an in-memory `Vec<u8>` sink; forwarding them to
//! a file or a socket — and any buffering or flushing policy — is the
//! caller's concern.

use vstd::prelude::*;
use core::marker::PhantomData;

pub mod dtype;
pub mod error;
pub mod header;

pub use crate::dtype::DType;
pub use crate::error::Error;

use crate::dtype::descr_ascii;
use crate::header::{header_block, header_len_fits, header_text_len, total_len, Header};

verus! {

/// Staged writer: holds the sink until `begin` emits the header block.
pub struct NpyWriterBuilder<T> {
    inner: Vec<u8>,
    phantom: PhantomData<T>,
}

/// Writer in the streaming state: the header block has been emitted and
/// each `put` call appends one encoded scalar.
pub struct NpyWriter<T> {
    inner: Vec<u8>,
    phantom: PhantomData<T>,
}

impl<T> NpyWriterBuilder<T> {
    /// The bytes held by the underlying sink.
    pub closed spec fn sink(&self) -> Seq<u8> {
        self.inner@
    }
}

impl<T: DType> NpyWriterBuilder<T> {
    /// Wrap a sink; nothing is written yet.
    pub fn new(inner: Vec<u8>) -> (r: Self)
        ensures
            r.sink() == inner@,
    {
        Self { inner, phantom: PhantomData }
    }

    /// Emit the header block for `shape` and move to the streaming state.
    ///
    /// An empty `shape` is a defined edge case: it describes a
    /// zero-dimensional array and emits the dictionary literal with the
    /// empty shape tuple `()` and the full growth-axis padding.
    ///
    /// The one failure is a header text too long for the signed 32-bit
    /// length field; nothing has been written to the sink in that case, and
    /// the sink is dropped with the consumed builder.
    pub fn begin(self, shape: &[usize]) -> (r: Result<NpyWriter<T>, Error>)
        requires
            total_len(descr_ascii::<T>(), shape@) <= usize::MAX,
        ensures
            match r {
                Ok(w) => {
                    &&& header_len_fits(descr_ascii::<T>(), shape@)
                    &&& w.sink() == self.sink() + header_block(descr_ascii::<T>(), shape@)
                },
                Err(e) => {
                    &&& !header_len_fits(descr_ascii::<T>(), shape@)
                    &&& e == Error::HeaderLen(
                        header_text_len(descr_ascii::<T>(), shape@) as usize,
                        (3u8, 0u8),
                    )
                },
            },
    {
        let Self { mut inner, phantom } = self;

        let header = Header::<T> { shape, phantom };
        match header.put_to(&mut inner) {
            Ok(_) => Ok(NpyWriter { inner, phantom: PhantomData }),
            Err(e) => Err(e),
        }
    }
}

impl<T> NpyWriter<T> {
    /// The bytes held by the underlying sink.
    pub closed spec fn sink(&self) -> Seq<u8> {
        self.inner@
    }
}

impl<T: DType> NpyWriter<T> {
    /// Start building a writer over `inner`.
    pub fn build(inner: Vec<u8>) -> (r: NpyWriterBuilder<T>)
        ensures
            r.sink() == inner@,
    {
        NpyWriterBuilder::new(inner)
    }

    /// Read access to the underlying sink.
    pub fn get_ref(&self) -> (r: &Vec<u8>)
        ensures
            r@ == self.sink(),
    {
        &self.inner
    }

    /// Mutable access to the underlying sink, for callers that drain the
    /// buffered bytes to an output device, or that seek back into the
    /// reserved growth-axis padding and rewrite the first dimension once its
    /// true extent is known.
    pub fn get_mut(&mut self) -> (r: &mut Vec<u8>)
        ensures
            r@ == old(self).sink(),
            final(self).sink() == final(r)@,
    {
        &mut self.inner
    }

    /// Append one scalar's little-endian encoding to the sink; returns the
    /// number of bytes written, always the scalar kind's byte width.
    pub fn put(&mut self, src: T) -> (r: Result<usize, Error>)
        ensures
            final(self).sink() == old(self).sink() + src.encoded(),
            r == Ok::<usize, Error>(T::width()),
    {
        src.write_to(&mut self.inner)
    }
}

} // verus!
