//! Carves: byte ranges of an existing blob that become new analysis inputs.

use vstd::prelude::*;
use crate::blob::Blob;
use crate::types::HostError;

verus! {

/// A byte range `[offset, offset + len)` of a parent blob, recorded when a
/// guest carves its input. The parent is shared, not copied: the carve's
/// content is a transparent view of the parent's bytes.
pub struct Carve {
    pub data: Blob,
    pub offset: usize,
    pub len: usize,
}

impl View for Carve {
    type V = Seq<u8>;

    open spec fn view(&self) -> Seq<u8> {
        self.data@.subrange(self.offset as int, self.offset + self.len)
    }
}

impl Carve {
    /// The window lies inside the parent blob.
    pub open spec fn wf(&self) -> bool {
        &&& self.data.wf()
        &&& self.offset + self.len <= self.data@.len()
    }

    /// Validates the window against the parent's length. Fails exactly when
    /// `offset + len` reaches past the end of the parent; a zero-length
    /// carve is allowed anywhere up to and including the end.
    pub fn new(data: Blob, offset: usize, len: usize) -> (r: Result<Carve, HostError>)
        requires
            data.wf(),
        ensures
            r is Ok <==> offset + len <= data@.len(),
            r matches Ok(c) ==> c == (Carve { data, offset, len }),
            r matches Err(e) ==> e is CarveOutOfBounds,
    {
        let parent_len = data.len();
        if offset > parent_len || len > parent_len - offset {
            Err(HostError::CarveOutOfBounds)
        } else {
            Ok(Carve { data, offset, len })
        }
    }

    /// Every carve admitted by [`Carve::new`] stays inside its parent:
    /// `0 <= offset <= offset + len <= parent.len()`.
    pub proof fn lemma_window_in_bounds(&self)
        requires
            self.wf(),
        ensures
            0 <= self.offset <= self.offset + self.len <= self.data@.len(),
            self@.len() == self.len,
    {
    }

    /// The carve's content as a blob of its own, sharing the parent's
    /// buffer, ready to be resubmitted as a new analysis input.
    pub fn as_blob(&self) -> (r: Blob)
        requires
            self.wf(),
        ensures
            r.wf(),
            r@ == self@,
    {
        match self.data.carve(self.offset as u64, self.len as u64) {
            Ok(b) => b,
            Err(_) => unreached(),
        }
    }
}

} // verus!
