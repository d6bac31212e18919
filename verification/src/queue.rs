//! The message queue: a first-in, first-out buffer of messages.

use std::collections::VecDeque;
use vstd::prelude::*;
use crate::text::{trim, trim_spec};

verus! {

/// A first-in, first-out queue of messages.
///
/// Its view is the sequence of queued messages, oldest first.
pub struct MessageQueue<T> {
    messages: VecDeque<T>,
}

impl<T> View for MessageQueue<T> {
    type V = Seq<T>;

    closed spec fn view(&self) -> Seq<T> {
        self.messages@
    }
}

/// The queue `q` after `message` is pushed.
pub open spec fn after_push<T>(q: Seq<T>, message: T) -> Seq<T> {
    q.push(message)
}

/// What a pop on the queue `q` returns, and the queue it leaves.
pub open spec fn pop_outcome<T>(q: Seq<T>) -> (Option<T>, Seq<T>) {
    if q.len() == 0 {
        (None, q)
    } else {
        (Some(q[0]), q.drop_first())
    }
}

impl<T> MessageQueue<T> {
    /// An empty queue.
    pub fn new() -> (q: Self)
        ensures
            q@ == Seq::<T>::empty(),
    {
        MessageQueue { messages: VecDeque::new() }
    }

    /// Appends `message` at the back of the queue.
    pub fn push(&mut self, message: T)
        ensures
            final(self)@ == after_push(old(self)@, message),
    {
        self.messages.push_back(message);
    }

    /// Removes and returns the oldest message, or `None` when the queue is empty.
    pub fn pop(&mut self) -> (r: Option<T>)
        ensures
            (r, final(self)@) == pop_outcome(old(self)@),
    {
        self.messages.pop_front()
    }

    /// Whether no message is queued.
    pub fn is_empty(&self) -> (b: bool)
        ensures
            b == (self@.len() == 0),
    {
        self.messages.len() == 0
    }

    /// The number of queued messages.
    pub fn len(&self) -> (n: usize)
        ensures
            n == self@.len(),
    {
        self.messages.len()
    }
}

/// Queues a line received from a client, without its surrounding white space.
pub fn enqueue_line(queue: &mut MessageQueue<String>, line: &str)
    ensures
        final(queue)@.len() == old(queue)@.len() + 1,
        final(queue)@.drop_last() == old(queue)@,
        final(queue)@.last()@ == trim_spec(line@),
{
    let ghost before = queue@;
    let message = trim(line);
    queue.push(message);
    assert(queue@.drop_last() =~= before);
}

/// A message pushed on an empty queue is the next one popped, and the queue is
/// empty again after it.
pub proof fn lemma_push_pop_empty<T>(message: T)
    ensures
        pop_outcome(after_push(Seq::<T>::empty(), message)) == (Some(message), Seq::<T>::empty()),
{
    assert(after_push(Seq::<T>::empty(), message).drop_first() =~= Seq::<T>::empty());
}

/// First in, first out: pushing onto a non-empty queue does not change which
/// message is popped next, and the pushed message stays at the back.
pub proof fn lemma_fifo<T>(q: Seq<T>, message: T)
    requires
        q.len() > 0,
    ensures
        pop_outcome(after_push(q, message)).0 == pop_outcome(q).0,
        pop_outcome(after_push(q, message)).1 == after_push(pop_outcome(q).1, message),
{
    assert(q.push(message).drop_first() =~= q.drop_first().push(message));
}

/// Messages leave the queue in the order they entered it: popping as many times
/// as there are messages returns exactly the pushed sequence.
pub open spec fn drain<T>(q: Seq<T>, n: nat) -> Seq<T>
    decreases n,
{
    if n == 0 {
        Seq::empty()
    } else {
        match pop_outcome(q).0 {
            Some(m) => seq![m] + drain(pop_outcome(q).1, (n - 1) as nat),
            None => Seq::empty(),
        }
    }
}

/// Draining a queue by successive pops gives back its messages in order.
pub proof fn lemma_drain_in_order<T>(q: Seq<T>)
    ensures
        drain(q, q.len()) == q,
    decreases q.len(),
{
    if q.len() > 0 {
        lemma_drain_in_order(q.drop_first());
        assert(seq![q[0]] + q.drop_first() =~= q);
    }
}

} // verus!
