//! Transactions for scripts.
//!
//! Scripts queue state mutations; a transaction remembers how many were queued when it
//! began. Committing keeps everything queued since; rolling back discards it. A
//! transaction that ends without a commit rolls back.

use vstd::prelude::*;

verus! {

/// The mutations a script has queued, oldest first.
pub struct MutationQueue<M> {
    pending: Vec<M>,
}

impl<M> MutationQueue<M> {
    /// The queued mutations.
    pub closed spec fn view(&self) -> Seq<M> {
        self.pending@
    }

    /// An empty queue.
    pub fn new() -> (r: Self)
        ensures
            r@ == Seq::<M>::empty(),
    {
        MutationQueue { pending: Vec::new() }
    }

    /// Queue a mutation.
    pub fn push(&mut self, m: M)
        ensures
            final(self)@ == old(self)@.push(m),
    {
        self.pending.push(m);
    }

    /// Number of queued mutations.
    pub fn pending_mutation_count(&self) -> (r: usize)
        ensures
            r == self@.len(),
    {
        self.pending.len()
    }

    /// Begin a transaction: the checkpoint is the number of mutations queued so far.
    pub fn begin_transaction(&self) -> (r: usize)
        ensures
            r == self@.len(),
    {
        self.pending.len()
    }

    /// Commit a transaction: the queued mutations stay.
    pub fn commit_transaction(&mut self)
        ensures
            final(self)@ == old(self)@,
    {
    }

    /// Discard every mutation queued after `checkpoint`.
    pub fn rollback_to_checkpoint(&mut self, checkpoint: usize)
        ensures
            checkpoint <= old(self)@.len() ==> final(self)@ == old(self)@.subrange(0, checkpoint as int),
            checkpoint > old(self)@.len() ==> final(self)@ == old(self)@,
    {
        self.pending.truncate(checkpoint);
    }

    /// Take all queued mutations, leaving the queue empty.
    pub fn take_mutations(&mut self) -> (r: Vec<M>)
        ensures
            r@ == old(self)@,
            final(self)@ == Seq::<M>::empty(),
    {
        let mut taken: Vec<M> = Vec::new();
        std::mem::swap(&mut taken, &mut self.pending);
        taken
    }

    /// Discard all queued mutations.
    pub fn clear_mutations(&mut self)
        ensures
            final(self)@ == Seq::<M>::empty(),
    {
        self.pending.clear();
    }
}

/// Transaction context for atomic script operations.
#[derive(Debug)]
pub struct TransactionContext {
    /// The number of queued mutations when the transaction started.
    checkpoint: usize,
    /// Whether `commit` was called.
    committed: bool,
    /// Whether the transaction has been committed or rolled back.
    finished: bool,
}

/// The queue after a transaction that began at `checkpoint` is rolled back.
pub open spec fn rolled_back<M>(q: Seq<M>, checkpoint: usize) -> Seq<M> {
    if checkpoint <= q.len() { q.subrange(0, checkpoint as int) } else { q }
}

impl TransactionContext {
    /// The checkpoint the transaction started at.
    pub closed spec fn checkpoint(&self) -> usize {
        self.checkpoint
    }

    /// Whether the transaction was committed.
    pub closed spec fn committed(&self) -> bool {
        self.committed
    }

    /// Whether the transaction is finished (committed or rolled back).
    pub closed spec fn finished(&self) -> bool {
        self.finished
    }

    /// A committed transaction is finished.
    pub closed spec fn wf(&self) -> bool {
        self.committed ==> self.finished
    }

    /// Begin a transaction on `queue`; without a queue the checkpoint is 0.
    pub fn new<M>(queue: Option<&MutationQueue<M>>) -> (r: Self)
        ensures
            r.wf(),
            !r.finished(),
            !r.committed(),
            r.checkpoint() == match queue {
                Some(q) => q@.len(),
                None => 0,
            },
    {
        let checkpoint = match queue {
            Some(q) => q.begin_transaction(),
            None => 0,
        };
        TransactionContext { checkpoint, committed: false, finished: false }
    }

    /// Commit: the mutations queued since the transaction began stay, and the queue is left
    /// as it is. Always true. A transaction that already finished stays as it was (in
    /// particular, one rolled back stays uncommitted).
    pub fn commit<M>(&mut self, queue: &mut MutationQueue<M>) -> (r: bool)
        requires
            old(self).wf(),
        ensures
            r,
            final(self).wf(),
            final(self).finished(),
            final(self).checkpoint() == old(self).checkpoint(),
            old(self).finished() ==> *final(self) == *old(self),
            !old(self).finished() ==> final(self).committed(),
            final(queue)@ == old(queue)@,
    {
        if self.finished {
            return true;
        }
        self.finished = true;
        self.committed = true;
        queue.commit_transaction();
        true
    }

    /// Roll back: the mutations queued since the transaction began are discarded, unless
    /// the transaction already finished, in which case nothing changes. A rolled-back
    /// transaction is not committed.
    pub fn rollback<M>(&mut self, queue: &mut MutationQueue<M>)
        requires
            old(self).wf(),
        ensures
            final(self).wf(),
            final(self).finished(),
            final(self).checkpoint() == old(self).checkpoint(),
            final(self).committed() == old(self).committed(),
            old(self).finished() ==> final(queue)@ == old(queue)@,
            !old(self).finished() ==> final(queue)@ == rolled_back(old(queue)@, old(self).checkpoint()),
    {
        if self.finished {
            return;
        }
        self.finished = true;
        queue.rollback_to_checkpoint(self.checkpoint);
    }

    /// Whether `commit` was called (a rolled-back transaction is not committed).
    pub fn is_committed(&self) -> (r: bool)
        ensures
            r == self.committed(),
    {
        self.committed
    }

    /// End the transaction: one that is not finished rolls back.
    pub fn end<M>(self, queue: &mut MutationQueue<M>)
        requires
            self.wf(),
        ensures
            self.finished() ==> final(queue)@ == old(queue)@,
            !self.finished() ==> final(queue)@ == rolled_back(old(queue)@, self.checkpoint()),
    {
        let mut t = self;
        t.rollback(queue);
    }
}

/// A committed transaction is finished, so committing it again or rolling it back changes
/// neither the transaction nor the queue (see `commit` and `rollback`): the mutations stay.
pub proof fn law_commit_is_final(t: TransactionContext)
    requires
        t.wf(),
        t.committed(),
    ensures
        t.finished(),
{
}

/// Rolling back undoes exactly the transaction's work: whatever is queued after the
/// transaction begins is discarded, and the queue is again what it was at the start.
pub proof fn law_rollback_restores_start<M>(start: Seq<M>, added: Seq<M>)
    requires
        start.len() <= usize::MAX,
    ensures
        rolled_back(start + added, start.len() as usize) == start,
{
    assert((start + added).subrange(0, start.len() as int) =~= start);
}

} // verus!
