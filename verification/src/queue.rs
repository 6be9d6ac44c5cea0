//! The outbound byte queue.
//!
//! Bytes that the transport did not take at once wait here, in the order in
//! which they were handed over. The queue keeps them as the chunks that were
//! enqueued, with a cursor into the first one, so that a partial send moves
//! only the cursor and never the bytes.

use std::collections::VecDeque;
use vstd::prelude::*;
use vstd::slice::{slice_subrange, slice_to_vec};

verus! {

/// Unsent bytes, first in first out.
///
/// Its view is the sequence of chunks that are still to be sent: the unsent
/// rest of the first chunk, then the chunks behind it. No chunk in the view is
/// empty, so the queue is empty exactly when nothing is pending.
pub struct DequeueBuffer {
    buffers: VecDeque<Vec<u8>>,
    start: usize,
}

impl View for DequeueBuffer {
    type V = Seq<Seq<u8>>;

    closed spec fn view(&self) -> Seq<Seq<u8>> {
        Seq::new(
            self.buffers@.len(),
            |i: int|
                if i == 0 {
                    self.buffers@[i]@.skip(self.start as int)
                } else {
                    self.buffers@[i]@
                },
        )
    }
}

impl DequeueBuffer {
    /// No stored chunk is empty, and the cursor stands inside the first one.
    pub closed spec fn wf(&self) -> bool {
        &&& forall|i: int| 0 <= i < self.buffers@.len() ==> (#[trigger] self.buffers@[i])@.len() > 0
        &&& self.buffers@.len() > 0 ==> self.start < self.buffers@[0]@.len()
        &&& self.buffers@.len() == 0 ==> self.start == 0
    }

    /// All the unsent bytes, in the order in which they will be sent.
    pub open spec fn pending(&self) -> Seq<u8> {
        self@.flatten()
    }

    /// In a well-formed queue no chunk is empty.
    pub proof fn lemma_chunks_nonempty(&self)
        requires
            self.wf(),
        ensures
            forall|i: int| 0 <= i < self@.len() ==> (#[trigger] self@[i]).len() > 0,
    {
    }

    /// An empty queue.
    pub fn new() -> (queue: DequeueBuffer)
        ensures
            queue.wf(),
            queue@ == Seq::<Seq<u8>>::empty(),
    {
        DequeueBuffer { buffers: VecDeque::new(), start: 0 }
    }

    /// Puts a copy of `buf` behind everything that is queued. An empty `buf` adds nothing.
    pub fn enqueue(&mut self, buf: &[u8])
        requires
            old(self).wf(),
        ensures
            final(self).wf(),
            final(self)@ == if buf@.len() == 0 {
                old(self)@
            } else {
                old(self)@.push(buf@)
            },
            final(self).pending() == old(self).pending() + buf@,
    {
        if buf.len() == 0 {
            return ;
        }
        self.buffers.push_back(slice_to_vec(buf));
        assert(self@ =~~= old(self)@.push(buf@));
        proof {
            old(self)@.lemma_flatten_push(buf@);
        }
    }

    /// The bytes to send next: the unsent rest of the first chunk.
    pub fn peek(&self) -> (next: &[u8])
        requires
            self.wf(),
            self@.len() > 0,
        ensures
            next@ == self@[0],
            next@.len() > 0,
            next@ == self.pending().take(next@.len() as int),
    {
        let head = &self.buffers[0];
        slice_subrange(head.as_slice(), self.start, head.len())
    }

    /// Marks the first `n` bytes of `peek()` as sent. The first chunk leaves
    /// the queue once all of it was sent.
    pub fn advance(&mut self, n: usize)
        requires
            old(self).wf(),
            old(self)@.len() > 0,
            n <= old(self)@[0].len(),
        ensures
            final(self).wf(),
            final(self)@ == if n == old(self)@[0].len() {
                old(self)@.drop_first()
            } else {
                old(self)@.update(0, old(self)@[0].skip(n as int))
            },
            final(self).pending() == old(self).pending().skip(n as int),
    {
        let ghost before = self@;
        let head_len: usize = self.buffers[0].len();
        self.start = self.start + n;
        if self.start == head_len {
            self.buffers.pop_front();
            self.start = 0;
            assert(self@ =~~= before.drop_first());
        } else {
            assert(self@ =~~= before.update(0, before[0].skip(n as int)));
            assert(self@.drop_first() =~~= before.drop_first());
        }
    }

    /// Whether nothing is pending.
    pub fn is_empty(&self) -> (empty: bool)
        requires
            self.wf(),
        ensures
            empty == (self@.len() == 0),
            empty == (self.pending().len() == 0),
    {
        self.buffers.len() == 0
    }
}

} // verus!
