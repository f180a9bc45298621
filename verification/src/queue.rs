//! Pending ICE-candidate queue.
//!
//! Candidates gathered before the remote description is known may not be
//! signaled yet.  They are buffered in arrival order, drained exactly once
//! when the description arrives, and every candidate after that passes
//! through immediately.  No candidate is ever lost or reordered.

use vstd::prelude::*;

verus! {

/// Mathematical model of the queue.
pub ghost struct QueueModel {
    pub pending: Seq<Seq<u8>>,
    pub remote_set: bool,
}

/// Buffer for candidate payloads awaiting the remote description.
pub struct PendingCandidateQueue {
    pending: Vec<Vec<u8>>,
    remote_set: bool,
}

impl View for PendingCandidateQueue {
    type V = QueueModel;

    closed spec fn view(&self) -> QueueModel {
        QueueModel { pending: self.pending.deep_view(), remote_set: self.remote_set }
    }
}

impl PendingCandidateQueue {
    /// Once the remote description is set nothing stays buffered.
    pub open spec fn wf(&self) -> bool {
        self@.remote_set ==> self@.pending.len() == 0
    }

    pub fn new() -> (r: Self)
        ensures
            r@.pending.len() == 0,
            !r@.remote_set,
            r.wf(),
    {
        PendingCandidateQueue { pending: Vec::new(), remote_set: false }
    }

    pub fn remote_is_set(&self) -> (r: bool)
        ensures
            r == self@.remote_set,
    {
        self.remote_set
    }

    /// Offer a candidate: before the remote description it is buffered in
    /// arrival order and nothing is returned; afterwards it is handed back
    /// untouched for immediate signaling.
    pub fn offer(&mut self, candidate: Vec<u8>) -> (r: Option<Vec<u8>>)
        requires
            old(self).wf(),
        ensures
            final(self).wf(),
            final(self)@.remote_set == old(self)@.remote_set,
            old(self)@.remote_set ==> r == Some(candidate) && final(self)@ == old(self)@,
            !old(self)@.remote_set ==> r is None && final(self)@.pending == old(
                self,
            )@.pending.push(candidate@),
    {
        if self.remote_set {
            Some(candidate)
        } else {
            self.pending.push(candidate);
            proof {
                assert forall|i: int|
                    0 <= i < self.pending@.len() implies #[trigger] self@.pending[i] == old(
                    self,
                )@.pending.push(candidate@)[i] by {
                    if i < old(self).pending@.len() {
                        assert(self.pending@[i] == old(self).pending@[i]);
                    }
                }
                assert(self@.pending =~= old(self)@.pending.push(candidate@));
            }
            None
        }
    }

    /// The remote description is now known: drain the buffer, first in first
    /// out, and mark the queue flushed.  A second flush finds it empty.
    pub fn flush(&mut self) -> (r: Vec<Vec<u8>>)
        ensures
            final(self).wf(),
            final(self)@.remote_set,
            final(self)@.pending.len() == 0,
            r.deep_view() == old(self)@.pending,
    {
        self.remote_set = true;
        let mut out: Vec<Vec<u8>> = Vec::new();
        core::mem::swap(&mut out, &mut self.pending);
        proof {
            assert(out.deep_view() =~= old(self)@.pending);
            assert(self@.pending =~= Seq::<Seq<u8>>::empty());
        }
        out
    }
}

/// Drains happen exactly once: the first flush hands back every buffered
/// candidate in arrival order, and any later flush hands back nothing.
pub proof fn lemma_flush_exactly_once(q: QueueModel)
    ensures
        spec_flush(q).1 == q.pending,
        spec_flush(spec_flush(q).0).1 =~= Seq::<Seq<u8>>::empty(),
{
}

/// Model of a flush: the buffer empties into the result and the queue
/// remembers that the remote description is set.
pub open spec fn spec_flush(q: QueueModel) -> (QueueModel, Seq<Seq<u8>>) {
    (QueueModel { pending: Seq::empty(), remote_set: true }, q.pending)
}

} // verus!
