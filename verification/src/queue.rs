//! The queue of submitted operations: handles leave it in the order in which
//! they entered, one per poll.

use std::collections::VecDeque;
use vstd::prelude::*;

verus! {

/// First-in-first-out queue of the handles of operations in flight.
pub struct OperationQueue<T> {
    pending: VecDeque<T>,
}

impl<T> View for OperationQueue<T> {
    type V = Seq<T>;

    closed spec fn view(&self) -> Seq<T> {
        self.pending@
    }
}

impl<T> OperationQueue<T> {
    /// An empty queue.
    pub fn new() -> (queue: Self)
        ensures
            queue@ == Seq::<T>::empty(),
    {
        OperationQueue { pending: VecDeque::new() }
    }

    /// Number of operations in flight.
    pub fn len(&self) -> (n: usize)
        ensures
            n == self@.len(),
    {
        self.pending.len()
    }

    /// Submits one operation on `session` and appends its handle, or does nothing
    /// where there is no session. `spawn` is invoked only in the first case, once,
    /// on the session and `payload`.
    pub fn enqueue<A, P, F: FnOnce(&A, P) -> T>(
        &mut self,
        spawn: F,
        session: Option<&A>,
        payload: P,
    ) -> (queued: bool)
        requires
            session matches Some(a) ==> spawn.requires((a, payload)),
        ensures
            queued == session.is_some(),
            queued ==> exists|handle: T| #[trigger]
                spawn.ensures((session.unwrap(), payload), handle) && final(self)@ == old(
                    self,
                )@.push(handle),
            !queued ==> final(self)@ == old(self)@,
    {
        match session {
            Some(a) => {
                let handle = spawn(a, payload);
                self.pending.push_back(handle);
                true
            },
            None => false,
        }
    }

    /// Removes the oldest operation, if there is one, and observes it. `join` is
    /// invoked only then, once, on the handle of that operation, and what it
    /// returns is handed on.
    pub fn poll_front<R, F: FnOnce(T) -> R>(&mut self, join: F) -> (outcome: Option<R>)
        requires
            old(self)@.len() > 0 ==> join.requires((old(self)@.first(),)),
        ensures
            match outcome {
                Some(r) => {
                    &&& old(self)@.len() > 0
                    &&& join.ensures((old(self)@.first(),), r)
                    &&& final(self)@ == old(self)@.drop_first()
                },
                None => old(self)@.len() == 0 && final(self)@ == old(self)@,
            },
    {
        match self.pending.pop_front() {
            Some(handle) => Some(join(handle)),
            None => None,
        }
    }
}

/// The queue `queue` after every handle of `handles` was appended, first to last.
pub open spec fn enqueue_all<T>(queue: Seq<T>, handles: Seq<T>) -> Seq<T>
    decreases handles.len(),
{
    if handles.len() == 0 {
        queue
    } else {
        enqueue_all(queue.push(handles.first()), handles.drop_first())
    }
}

/// The queue `queue` after `polls` polls.
pub open spec fn poll_times<T>(queue: Seq<T>, polls: nat) -> Seq<T>
    decreases polls,
{
    if polls == 0 || queue.len() == 0 {
        queue
    } else {
        poll_times(queue.drop_first(), (polls - 1) as nat)
    }
}

/// Appending one by one is concatenation.
pub proof fn lemma_enqueue_all_appends<T>(queue: Seq<T>, handles: Seq<T>)
    ensures
        enqueue_all(queue, handles) == queue + handles,
    decreases handles.len(),
{
    if handles.len() == 0 {
        assert(queue + handles =~= queue);
    } else {
        lemma_enqueue_all_appends(queue.push(handles.first()), handles.drop_first());
        assert(queue.push(handles.first()) + handles.drop_first() =~= queue + handles);
    }
}

/// Polling `polls` times drops the `polls` oldest entries, or all of them.
pub proof fn lemma_poll_times_skips<T>(queue: Seq<T>, polls: nat)
    ensures
        poll_times(queue, polls) == if polls <= queue.len() {
            queue.skip(polls as int)
        } else {
            Seq::<T>::empty()
        },
    decreases polls,
{
    if polls == 0 || queue.len() == 0 {
        assert(queue.skip(0) =~= queue);
        assert(queue.len() == 0 ==> queue =~= Seq::<T>::empty());
    } else {
        lemma_poll_times_skips(queue.drop_first(), (polls - 1) as nat);
        if polls <= queue.len() {
            assert(queue.drop_first().skip(polls - 1) =~= queue.skip(polls as int));
        }
    }
}

/// Operations are observed in the order of their submission: after any number of
/// operations was submitted to a queue, the poll that follows `queue.len() + k`
/// earlier polls observes the `k`-th of them, whatever the order in which the
/// background tasks finished.
pub proof fn lemma_fifo_order<T>(queue: Seq<T>, handles: Seq<T>, k: int)
    requires
        0 <= k < handles.len(),
    ensures
        poll_times(enqueue_all(queue, handles), (queue.len() + k) as nat).len() > 0,
        poll_times(enqueue_all(queue, handles), (queue.len() + k) as nat).first() == handles[k],
{
    lemma_enqueue_all_appends(queue, handles);
    lemma_poll_times_skips(queue + handles, (queue.len() + k) as nat);
}

} // verus!
