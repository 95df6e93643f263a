//! The shared read buffer and the zero-copy views that alias it.
//!
//! All string data captured from a record is kept as a `FieldView`: an
//! (offset, length) pair into one `SharedBuf`.  The buffer is a
//! capacity-fixed arena: it never grows past the capacity it was created
//! with, so a view taken while a record is open stays valid until the buffer
//! is cleared for the next record.

use vstd::prelude::*;
use vstd::slice::slice_index_get;
use vstd::slice::slice_subrange;
use crate::ExtractError;

verus! {

/// A read-only view of a contiguous byte region inside the shared read
/// buffer.  It does not own its bytes: it is only meaningful together with
/// the buffer it was captured from.
#[derive(Clone, Copy, Debug, PartialEq, Eq, Structural)]
pub struct FieldView {
    /// Offset of the first byte inside the buffer.
    pub off: usize,
    /// Number of bytes.
    pub len: usize,
}

impl FieldView {
    /// The region lies entirely within a buffer holding `buf`.
    pub open spec fn valid(self, buf: Seq<u8>) -> bool {
        self.off + self.len <= buf.len()
    }

    /// The bytes this view denotes inside a buffer holding `buf`.
    pub open spec fn bytes_of(self, buf: Seq<u8>) -> Seq<u8> {
        buf.subrange(self.off as int, self.off + self.len)
    }
}

/// The single byte region backing all zero-copy captures of one stream.
///
/// The backing vector is reused across records and logically capped at a
/// fixed capacity: an append that would cross the cap fails with
/// `ExtractError::CapacityExceeded` and leaves the buffer unchanged, so the
/// views already captured never dangle.
pub struct SharedBuf {
    data: Vec<u8>,
    cap: usize,
}

impl View for SharedBuf {
    type V = Seq<u8>;

    closed spec fn view(&self) -> Seq<u8> {
        self.data@
    }
}

impl SharedBuf {
    /// The fixed capacity this buffer was created with.
    pub closed spec fn capacity(&self) -> usize {
        self.cap
    }

    /// The buffer never holds more than its capacity.
    pub open spec fn wf(&self) -> bool {
        self@.len() <= self.capacity()
    }

    pub fn new(capacity: usize) -> (r: SharedBuf)
        ensures
            r@ == Seq::<u8>::empty(),
            r.capacity() == capacity,
            r.wf(),
    {
        SharedBuf { data: Vec::new(), cap: capacity }
    }

    pub fn capacity_bytes(&self) -> (r: usize)
        ensures
            r == self.capacity(),
    {
        self.cap
    }

    pub fn len(&self) -> (r: usize)
        ensures
            r == self@.len(),
    {
        self.data.len()
    }

    /// Drop all contents; every previously captured view becomes invalid.
    pub fn clear(&mut self)
        ensures
            final(self)@ == Seq::<u8>::empty(),
            final(self).capacity() == old(self).capacity(),
            final(self).wf(),
    {
        self.data.clear();
    }

    /// Append `bytes` and return the view of the appended region, or fail
    /// without any change when the fixed capacity would be exceeded.
    pub fn append(&mut self, bytes: &[u8]) -> (r: Result<FieldView, ExtractError>)
        requires
            old(self).wf(),
        ensures
            final(self).capacity() == old(self).capacity(),
            final(self).wf(),
            match r {
                Ok(v) => {
                    &&& final(self)@ == old(self)@ + bytes@
                    &&& v.off == old(self)@.len()
                    &&& v.len == bytes@.len()
                    &&& old(self)@.len() + bytes@.len() <= old(self).capacity()
                },
                Err(e) => {
                    &&& e == ExtractError::CapacityExceeded
                    &&& final(self)@ == old(self)@
                    &&& old(self)@.len() + bytes@.len() > old(self).capacity()
                },
            },
    {
        if bytes.len() > self.cap - self.data.len() {
            Err(ExtractError::CapacityExceeded)
        } else {
            let off = self.data.len();
            let n = bytes.len();
            let mut i: usize = 0;
            while i < n
                invariant
                    i <= n,
                    n == bytes@.len(),
                    off == old(self)@.len(),
                    self.data@ == old(self)@ + bytes@.subrange(0, i as int),
                    self.cap == old(self).capacity(),
                    old(self)@.len() + n <= self.cap,
                decreases n - i,
            {
                self.data.push(*slice_index_get(bytes, i));
                proof {
                    assert(self.data@ =~= old(self)@ + bytes@.subrange(0, i + 1));
                }
                i += 1;
            }
            proof {
                assert(bytes@.subrange(0, n as int) =~= bytes@);
            }
            Ok(FieldView { off, len: n })
        }
    }

    /// Resolve a view into the bytes it denotes, without copying.
    pub fn view_bytes<'a>(&'a self, v: FieldView) -> (r: &'a [u8])
        requires
            v.valid(self@),
        ensures
            r@ == v.bytes_of(self@),
    {
        let l = self.data.len();
        proof {
            assert(v.off + v.len <= l);
        }
        slice_subrange(self.data.as_slice(), v.off, v.off + v.len)
    }
}

} // verus!
