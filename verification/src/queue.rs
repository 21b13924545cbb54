//! The two bounded queues between the interrupt side, which produces, and
//! the foreground side, which consumes.
//!
//! Replies to commands travel through a queue of two slots, unsolicited
//! notifications through one of sixteen. Both are single-producer
//! single-consumer queues of the heapless crate. Each side holds only its
//! own ends and learns what the other side did from what a call returns: a
//! full queue hands the item back, an empty one hands nothing out.

use crate::protocol::Response;
use vstd::prelude::*;

verus! {

/// The queue of replies to commands: a heapless queue of 2 slots.
#[verifier::external_body]
pub struct ReplyQueue {
    queue: heapless::spsc::Queue<Response, heapless::consts::U2>,
}

/// The producing end of the reply queue.
#[verifier::external_body]
pub struct ReplyProducer<'a> {
    producer: heapless::spsc::Producer<'a, Response, heapless::consts::U2>,
}

/// The consuming end of the reply queue.
#[verifier::external_body]
pub struct ReplyConsumer<'a> {
    consumer: heapless::spsc::Consumer<'a, Response, heapless::consts::U2>,
}

/// The queue of unsolicited notifications: a heapless queue of 16 slots.
#[verifier::external_body]
pub struct NotificationQueue {
    queue: heapless::spsc::Queue<Response, heapless::consts::U16>,
}

/// The producing end of the notification queue.
#[verifier::external_body]
pub struct NotificationProducer<'a> {
    producer: heapless::spsc::Producer<'a, Response, heapless::consts::U16>,
}

/// The consuming end of the notification queue.
#[verifier::external_body]
pub struct NotificationConsumer<'a> {
    consumer: heapless::spsc::Consumer<'a, Response, heapless::consts::U16>,
}

/// The number of replies that the reply queue can hold.
pub const REPLY_SLOTS: usize = 2;

/// The number of notifications that the notification queue can hold.
pub const NOTIFICATION_SLOTS: usize = 16;

/// The replies that a queue which has not been split holds, oldest first.
pub uninterp spec fn replies_held(queue: ReplyQueue) -> Seq<Response>;

/// The number of replies that the queue was made to hold.
pub uninterp spec fn reply_slots(queue: ReplyQueue) -> nat;

/// The notifications that a queue which has not been split holds, oldest
/// first.
pub uninterp spec fn notifications_held(queue: NotificationQueue) -> Seq<Response>;

/// The number of notifications that the queue was made to hold.
pub uninterp spec fn notification_slots(queue: NotificationQueue) -> nat;

/// The replies that the queue has accepted from this end, oldest first.
pub uninterp spec fn replies_sent(producer: ReplyProducer) -> Seq<Response>;

/// The replies that this end has taken out of the queue, oldest first.
pub uninterp spec fn replies_taken(consumer: ReplyConsumer) -> Seq<Response>;

/// The notifications that the queue has accepted from this end, oldest
/// first.
pub uninterp spec fn notifications_sent(producer: NotificationProducer) -> Seq<Response>;

/// The notifications that this end has taken out of the queue, oldest
/// first.
pub uninterp spec fn notifications_taken(consumer: NotificationConsumer) -> Seq<Response>;

impl ReplyQueue {
    /// `heapless::spsc::Queue::new`: an empty queue of the fixed capacity
    /// that its type gives, which is 2.
    #[verifier::external_body]
    fn allocate() -> (queue: ReplyQueue)
        ensures
            replies_held(queue) == Seq::<Response>::empty(),
            reply_slots(queue) == REPLY_SLOTS,
    {
        ReplyQueue { queue: heapless::spsc::Queue::new() }
    }

    /// `heapless::spsc::Queue::split`: the two ends of the queue, which have
    /// sent and taken nothing yet.
    #[verifier::external_body]
    fn ends<'a>(&'a mut self) -> (ends: (ReplyProducer<'a>, ReplyConsumer<'a>))
        ensures
            replies_sent(ends.0) == Seq::<Response>::empty(),
            replies_taken(ends.1) == Seq::<Response>::empty(),
    {
        let (producer, consumer) = self.queue.split();
        (ReplyProducer { producer }, ReplyConsumer { consumer })
    }

    /// A queue of two slots that holds nothing.
    pub fn new() -> (queue: ReplyQueue)
        ensures
            replies_held(queue) == Seq::<Response>::empty(),
            reply_slots(queue) == REPLY_SLOTS,
    {
        ReplyQueue::allocate()
    }

    /// Splits the queue into the end that produces, for the interrupt side,
    /// and the end that consumes, for the foreground side. Nothing has been
    /// sent or taken through them yet.
    pub fn split<'a>(&'a mut self) -> (ends: (ReplyProducer<'a>, ReplyConsumer<'a>))
        ensures
            replies_sent(ends.0) == Seq::<Response>::empty(),
            replies_taken(ends.1) == Seq::<Response>::empty(),
    {
        self.ends()
    }
}

impl NotificationQueue {
    /// `heapless::spsc::Queue::new`: an empty queue of the fixed capacity
    /// that its type gives, which is 16.
    #[verifier::external_body]
    fn allocate() -> (queue: NotificationQueue)
        ensures
            notifications_held(queue) == Seq::<Response>::empty(),
            notification_slots(queue) == NOTIFICATION_SLOTS,
    {
        NotificationQueue { queue: heapless::spsc::Queue::new() }
    }

    /// `heapless::spsc::Queue::split`: the two ends of the queue, which have
    /// sent and taken nothing yet.
    #[verifier::external_body]
    fn ends<'a>(&'a mut self) -> (ends: (NotificationProducer<'a>, NotificationConsumer<'a>))
        ensures
            notifications_sent(ends.0) == Seq::<Response>::empty(),
            notifications_taken(ends.1) == Seq::<Response>::empty(),
    {
        let (producer, consumer) = self.queue.split();
        (NotificationProducer { producer }, NotificationConsumer { consumer })
    }

    /// A queue of sixteen slots that holds nothing.
    pub fn new() -> (queue: NotificationQueue)
        ensures
            notifications_held(queue) == Seq::<Response>::empty(),
            notification_slots(queue) == NOTIFICATION_SLOTS,
    {
        NotificationQueue::allocate()
    }

    /// Splits the queue into the end that produces, for the interrupt side,
    /// and the end that consumes, for the foreground side. Nothing has been
    /// sent or taken through them yet.
    pub fn split<'a>(&'a mut self) -> (ends: (NotificationProducer<'a>, NotificationConsumer<'a>))
        ensures
            notifications_sent(ends.0) == Seq::<Response>::empty(),
            notifications_taken(ends.1) == Seq::<Response>::empty(),
    {
        self.ends()
    }
}

impl<'a> ReplyProducer<'a> {
    /// `heapless::spsc::Producer::enqueue`: the item goes to the back of the
    /// queue, or comes back where the queue is full.
    #[verifier::external_body]
    pub(crate) fn enqueue(&mut self, item: Response) -> (enqueued: Result<(), Response>)
        ensures
            enqueued is Ok ==> replies_sent(*final(self)) == replies_sent(*old(self)).push(item),
            enqueued matches Err(back) ==> back == item && replies_sent(*final(self))
                == replies_sent(*old(self)),
    {
        self.producer.enqueue(item)
    }
}

impl<'a> NotificationProducer<'a> {
    /// `heapless::spsc::Producer::enqueue`: the item goes to the back of the
    /// queue, or comes back where the queue is full.
    #[verifier::external_body]
    pub(crate) fn enqueue(&mut self, item: Response) -> (enqueued: Result<(), Response>)
        ensures
            enqueued is Ok ==> notifications_sent(*final(self)) == notifications_sent(
                *old(self),
            ).push(item),
            enqueued matches Err(back) ==> back == item && notifications_sent(*final(self))
                == notifications_sent(*old(self)),
    {
        self.producer.enqueue(item)
    }
}

impl<'a> ReplyConsumer<'a> {
    /// `heapless::spsc::Consumer::dequeue`: the item at the front of the
    /// queue, or `None` where the queue is empty.
    #[verifier::external_body]
    pub(crate) fn dequeue(&mut self) -> (item: Option<Response>)
        ensures
            item matches Some(reply) ==> replies_taken(*final(self)) == replies_taken(
                *old(self),
            ).push(reply),
            item is None ==> replies_taken(*final(self)) == replies_taken(*old(self)),
    {
        self.consumer.dequeue()
    }
}

impl<'a> NotificationConsumer<'a> {
    /// `heapless::spsc::Consumer::dequeue`: the item at the front of the
    /// queue, or `None` where the queue is empty.
    #[verifier::external_body]
    pub(crate) fn dequeue(&mut self) -> (item: Option<Response>)
        ensures
            item matches Some(notification) ==> notifications_taken(*final(self))
                == notifications_taken(*old(self)).push(notification),
            item is None ==> notifications_taken(*final(self)) == notifications_taken(*old(self)),
    {
        self.consumer.dequeue()
    }
}

} // verus!
