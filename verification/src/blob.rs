//! Read-only byte windows shared between jobs.
//!
//! A [`Blob`] is an immutable window into a shared byte buffer. Input files
//! and guest-emitted outputs enter as whole buffers; carves are windows into
//! an existing blob and share its buffer instead of copying it.

use vstd::prelude::*;
use std::sync::Arc;
use crate::types::HostError;

verus! {

/// The bytes a saturating read yields: everything from `offset` up to
/// `offset + length`, cut short at the end of `data`. Reads starting at or
/// past the end yield nothing.
pub open spec fn read_window(data: Seq<u8>, offset: int, length: int) -> Seq<u8> {
    if offset > data.len() {
        Seq::empty()
    } else if offset + length > data.len() {
        data.subrange(offset, data.len() as int)
    } else {
        data.subrange(offset, offset + length)
    }
}

/// Relies on `Arc::clone`: the clone shares the same allocation, so it is
/// the same value.
#[verifier::external_body]
fn arc_share(a: &Arc<Vec<u8>>) -> (r: Arc<Vec<u8>>)
    ensures
        r == *a,
{
    a.clone()
}

/// Relies on `Arc`'s `Deref`: a shared pointer hands out its pointee.
#[verifier::external_body]
fn arc_get(a: &Arc<Vec<u8>>) -> (r: &Vec<u8>)
    ensures
        *r == **a,
{
    &**a
}

/// An immutable, shareable, read-only byte range: a window of a shared
/// buffer. Sharing a blob or carving a window out of it never copies the
/// underlying bytes.
pub struct Blob {
    data: Arc<Vec<u8>>,
    offset: usize,
    len: usize,
}

impl View for Blob {
    type V = Seq<u8>;

    closed spec fn view(&self) -> Seq<u8> {
        self.data@.subrange(self.offset as int, self.offset + self.len)
    }
}

impl Blob {
    /// The window lies inside the shared buffer, whose length is
    /// addressable.
    pub closed spec fn wf(&self) -> bool {
        self.offset + self.len <= self.data@.len() <= usize::MAX
    }

    /// A well-formed blob's window fits in the host's address space.
    pub proof fn lemma_len_bounded(&self)
        requires
            self.wf(),
        ensures
            self@.len() <= usize::MAX,
    {
    }

    /// Wraps a whole buffer (a mapped file's bytes or an emitted output) as
    /// a blob.
    pub fn from_bytes(data: Vec<u8>) -> (r: Blob)
        ensures
            r.wf(),
            r@ == data@,
    {
        let len = data.len();
        let r = Blob { data: Arc::new(data), offset: 0, len };
        proof {
            assert(r@ =~= r.data@);
        }
        r
    }

    /// Another handle to the same window; the buffer is shared, not copied.
    pub fn share(&self) -> (r: Blob)
        ensures
            r == *self,
    {
        Blob { data: arc_share(&self.data), offset: self.offset, len: self.len }
    }

    /// Length of the window in bytes.
    pub fn len(&self) -> (r: usize)
        requires
            self.wf(),
        ensures
            r == self@.len(),
    {
        self.len
    }

    /// The sub-window `[offset, offset + length)` as a blob sharing the same
    /// buffer. Fails exactly when the requested range reaches past the end
    /// of this blob.
    pub fn carve(&self, offset: u64, length: u64) -> (r: Result<Blob, HostError>)
        requires
            self.wf(),
        ensures
            r is Ok <==> offset + length <= self@.len(),
            r matches Ok(c) ==> c.wf() && c@ == self@.subrange(
                offset as int,
                offset + length,
            ),
            r matches Err(e) ==> e is CarveOutOfBounds,
    {
        let here: u64 = self.len as u64;
        if offset > here || length > here - offset {
            Err(HostError::CarveOutOfBounds)
        } else {
            let c = Blob {
                data: arc_share(&self.data),
                offset: self.offset + offset as usize,
                len: length as usize,
            };
            proof {
                assert(c@ =~= self@.subrange(offset as int, offset + length));
            }
            Ok(c)
        }
    }

    /// Copies out at most `length` bytes starting at `offset`, saturating at
    /// the end of the window. A read past the end yields a short count; a
    /// read starting at or beyond the end yields zero bytes.
    pub fn read(&self, offset: u64, length: u32) -> (r: Vec<u8>)
        requires
            self.wf(),
        ensures
            r@ == read_window(self@, offset as int, length as int),
            r@.len() <= length,
    {
        let here: u64 = self.len as u64;
        let start: u64 = if offset > here {
            here
        } else {
            offset
        };
        let count: u64 = if length as u64 > here - start {
            here - start
        } else {
            length as u64
        };
        let buf = arc_get(&self.data);
        let mut out: Vec<u8> = Vec::new();
        let mut i: u64 = 0;
        while i < count
            invariant
                self.wf(),
                i <= count,
                start + count <= self.len,
                self.offset + self.len <= buf@.len(),
                buf@ == self.data@,
                out@ =~= self@.subrange(start as int, start + i),
            decreases count - i,
        {
            let b = buf[self.offset + (start + i) as usize];
            out.push(b);
            proof {
                assert(out@ =~= self@.subrange(start as int, start + i + 1));
            }
            i = i + 1;
        }
        proof {
            assert(out@ =~= read_window(self@, offset as int, length as int));
        }
        out
    }
}

} // verus!
