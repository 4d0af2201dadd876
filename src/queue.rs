//! The item queue: pending scan items in first-in, first-out order.

use crate::item::{realization_of, Realization, ScanItem};
use std::collections::VecDeque;
use vstd::prelude::*;

verus! {

/// Errors of the item queue and of materializing its items.
#[derive(Debug)]
pub enum QueueError {
    /// Reading a file item failed.
    IOError {
        /// The I/O error that stopped the read.
        source: std::io::Error,
    },
    /// A dequeue found the queue empty.
    QueueEmpty,
    /// A message could not be delivered to the queue.
    SendError,
    /// The queue is not running.
    NoGlobalQueue,
    /// The scripting host is not running.
    NoLuaVm,
}

impl QueueError {
    /// Creates a new [`QueueError::QueueEmpty`].
    pub fn empty() -> (r: QueueError)
        ensures
            r is QueueEmpty,
    {
        QueueError::QueueEmpty
    }
}

/// The outcome of a dequeue on a queue holding `q`: the item handed out,
/// or [`QueueError::QueueEmpty`], and what the queue holds afterwards.
pub open spec fn dequeue_outcome(q: Seq<ScanItem>) -> (Result<ScanItem, QueueError>, Seq<ScanItem>) {
    if q.len() == 0 {
        (Err(QueueError::QueueEmpty), q)
    } else {
        (Ok(q[0]), q.drop_first())
    }
}

/// A first-in, first-out queue of scan items. It owns each item until the
/// item is dequeued.
pub struct Queue {
    items: VecDeque<ScanItem>,
}

impl View for Queue {
    type V = Seq<ScanItem>;

    closed spec fn view(&self) -> Seq<ScanItem> {
        self.items@
    }
}

impl Queue {
    /// An empty queue.
    pub fn new() -> (r: Queue)
        ensures
            r@ == Seq::<ScanItem>::empty(),
    {
        Queue { items: VecDeque::new() }
    }

    /// An empty queue with room for `capacity` items before it reallocates.
    pub fn with_capacity(capacity: usize) -> (r: Queue)
        ensures
            r@ == Seq::<ScanItem>::empty(),
    {
        Queue { items: VecDeque::with_capacity(capacity) }
    }

    /// Append `item` at the back.
    pub fn enqueue(&mut self, item: ScanItem)
        ensures
            final(self)@ == old(self)@.push(item),
    {
        self.items.push_back(item);
    }

    /// Remove and return the item at the front, or fail with
    /// [`QueueError::QueueEmpty`] when there is none.
    pub fn dequeue(&mut self) -> (r: Result<ScanItem, QueueError>)
        ensures
            (r, final(self)@) == dequeue_outcome(old(self)@),
    {
        match self.items.pop_front() {
            Some(item) => Ok(item),
            None => Err(QueueError::empty()),
        }
    }

    /// The number of items waiting.
    pub fn len(&self) -> (r: usize)
        ensures
            r == self@.len(),
    {
        self.items.len()
    }
}

/// A request to append an item at the back of the queue. No reply.
pub struct Enqueue(pub ScanItem);

impl Enqueue {
    /// Create a new enqueue request for `item`.
    pub fn item(item: ScanItem) -> (r: Enqueue)
        ensures
            r.0 == item,
    {
        Enqueue(item)
    }
}

/// A request to remove the item at the front of the queue and materialize
/// it. The reply is its materialized form or a [`QueueError`].
pub struct Dequeue;

/// A request for the number of items in the queue.
pub struct GetLength;

/// An item enqueued on an empty queue is the one the next dequeue hands
/// back, and that dequeue leaves the queue empty, so a further dequeue finds
/// [`QueueError::QueueEmpty`]: the item comes out exactly once. An in-memory
/// item then materializes as its name, no path, and its content.
pub proof fn lemma_enqueue_then_dequeue(x: ScanItem)
    ensures
        dequeue_outcome(Seq::empty().push(x)) == (
            Ok::<ScanItem, QueueError>(x),
            Seq::<ScanItem>::empty(),
        ),
        dequeue_outcome(Seq::empty()) == (
            Err::<ScanItem, QueueError>(QueueError::QueueEmpty),
            Seq::<ScanItem>::empty(),
        ),
        x matches ScanItem::Raw(d) ==> realization_of(x) == Realization::Ready(
            (d.dname, None, d.content),
        ),
{
    assert(Seq::<ScanItem>::empty().push(x).drop_first() =~= Seq::<ScanItem>::empty());
}

} // verus!
