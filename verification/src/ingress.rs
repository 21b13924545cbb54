//! The interrupt side: bytes from the receiver go into the buffer, and the
//! messages that the buffer yields go to the queue they belong to.

use crate::buffer::{pushed, Buffer, CAPACITY};
use crate::framing::{frames, lemma_message, residue};
use crate::protocol::{Response, Route};
use crate::queue::{notifications_sent, replies_sent, NotificationProducer, ReplyProducer};
use vstd::prelude::*;

verus! {

/// What the receiver handed back when it was asked for a byte.
#[derive(Debug, Clone, Copy, PartialEq, Eq)]
pub enum Received {
    /// A byte.
    Byte(u8),
    /// Nothing: no byte has arrived yet.
    WouldBlock,
    /// A fault of the receiver.
    Fault,
}

/// What the interrupt routine does after it has handled what the receiver
/// handed back.
#[derive(Debug, Clone, Copy, PartialEq, Eq)]
pub enum Drain {
    /// It asks the receiver for the next byte.
    Continue,
    /// It returns: the receiver is drained, or the buffer is full and the
    /// byte that it holds here is lost.
    Done(Result<(), u8>),
}

/// What became of one message that the buffer yielded.
#[derive(Clone, Copy, PartialEq, Eq)]
pub struct Dispatch {
    /// The message.
    pub response: Response,
    /// Whether a queue took it. A message that belongs to no queue is never
    /// delivered; one that belongs to a queue is lost where the queue is
    /// full.
    pub delivered: bool,
}

/// The messages of `report` that the queue behind `route` took, in order.
pub open spec fn delivered_to(report: Seq<Dispatch>, route: Route) -> Seq<Response>
    decreases report.len(),
{
    if report.len() == 0 {
        Seq::empty()
    } else {
        let before = delivered_to(report.drop_last(), route);
        let last = report.last();
        if last.delivered && last.response.route_of() == route {
            before.push(last.response)
        } else {
            before
        }
    }
}

/// A queue takes only messages that belong to it.
pub proof fn lemma_delivered_belong(report: Seq<Dispatch>, route: Route)
    ensures
        forall|i: int|
            0 <= i < delivered_to(report, route).len() ==> (#[trigger] delivered_to(
                report,
                route,
            )[i]).route_of() == route,
    decreases report.len(),
{
    if report.len() > 0 {
        lemma_delivered_belong(report.drop_last(), route);
    }
}

/// The messages of `report`, in order.
pub open spec fn responses_of(report: Seq<Dispatch>) -> Seq<Response> {
    Seq::new(report.len(), |i: int| report[i].response)
}

/// The producer of the two queues, with the buffer in which the bytes from
/// the wire collect.
pub struct Ingress<'a> {
    response_producer: ReplyProducer<'a>,
    notification_producer: NotificationProducer<'a>,
    buffer: Buffer,
}

impl<'a> Ingress<'a> {
    /// The bytes that have arrived and have not become a message yet.
    pub closed spec fn pending(&self) -> Seq<u8> {
        self.buffer@
    }

    /// The replies that the reply queue has accepted, oldest first.
    pub closed spec fn replies_sent(&self) -> Seq<Response> {
        replies_sent(self.response_producer)
    }

    /// The notifications that the notification queue has accepted, oldest
    /// first.
    pub closed spec fn notifications_sent(&self) -> Seq<Response> {
        notifications_sent(self.notification_producer)
    }

    /// An ingress with an empty buffer, which feeds the queues behind the
    /// two producers.
    pub fn new(
        response_producer: ReplyProducer<'a>,
        notification_producer: NotificationProducer<'a>,
    ) -> (ingress: Self)
        ensures
            ingress.pending() == Seq::<u8>::empty(),
            ingress.replies_sent() == replies_sent(response_producer),
            ingress.notifications_sent() == notifications_sent(notification_producer),
    {
        Ingress { response_producer, notification_producer, buffer: Buffer::new() }
    }

    /// One turn of the interrupt routine, which asks the receiver for bytes
    /// until none is left: handles what the receiver handed back, and says
    /// whether to ask again.
    ///
    /// A byte goes into the buffer; where the buffer is full the byte is
    /// lost, and the routine returns it as an error. A fault of the receiver
    /// is passed over. The routine is done when the receiver has no byte.
    pub fn isr(&mut self, received: Received) -> (next: Drain)
        ensures
            final(self).replies_sent() == old(self).replies_sent(),
            final(self).notifications_sent() == old(self).notifications_sent(),
            match received {
                Received::Byte(octet) => {
                    &&& final(self).pending() == pushed(old(self).pending(), octet)
                    &&& next == if old(self).pending().len() < CAPACITY {
                        Drain::Continue
                    } else {
                        Drain::Done(Err(octet))
                    }
                },
                Received::Fault => final(self).pending() == old(self).pending() && next
                    == Drain::Continue,
                Received::WouldBlock => final(self).pending() == old(self).pending() && next
                    == Drain::Done(Ok(())),
            },
    {
        match received {
            Received::Byte(octet) => match self.write(octet) {
                Ok(()) => Drain::Continue,
                Err(lost) => Drain::Done(Err(lost)),
            },
            Received::Fault => Drain::Continue,
            Received::WouldBlock => Drain::Done(Ok(())),
        }
    }

    /// Puts `octet` into the buffer. A full buffer rejects the byte, which
    /// comes back as the error, and keeps what it holds.
    pub fn write(&mut self, octet: u8) -> (written: Result<(), u8>)
        ensures
            old(self).pending().len() <= CAPACITY,
            final(self).pending() == pushed(old(self).pending(), octet),
            written == if old(self).pending().len() < CAPACITY {
                Ok::<(), u8>(())
            } else {
                Err::<(), u8>(octet)
            },
            final(self).replies_sent() == old(self).replies_sent(),
            final(self).notifications_sent() == old(self).notifications_sent(),
    {
        self.buffer.write(octet)
    }

    /// Hands `response` to the queue it belongs to, and says whether the
    /// queue took it.
    fn dispatch(&mut self, response: Response) -> (delivered: bool)
        ensures
            final(self).pending() == old(self).pending(),
            final(self).replies_sent() == if delivered && response.route_of() == Route::Reply {
                old(self).replies_sent().push(response)
            } else {
                old(self).replies_sent()
            },
            final(self).notifications_sent() == if delivered && response.route_of()
                == Route::Notification {
                old(self).notifications_sent().push(response)
            } else {
                old(self).notifications_sent()
            },
            delivered ==> response.route_of() != Route::Unrouted,
    {
        match response.route() {
            Route::Reply => self.response_producer.enqueue(response).is_ok(),
            Route::Notification => self.notification_producer.enqueue(response).is_ok(),
            Route::Unrouted => false,
        }
    }

    /// Digests the buffer: takes every whole message off its front, in
    /// order, and hands each to its queue.
    ///
    /// Replies to commands go to the reply queue, notifications, a connect
    /// among them, to the notification queue; the wifi state changes go to
    /// neither. A message whose queue is full is lost. The report lists the
    /// messages in the order in which they stood in the buffer, each with
    /// what became of it.
    pub fn digest(&mut self) -> (report: Vec<Dispatch>)
        ensures
            final(self).pending() == residue(old(self).pending()),
            responses_of(report@) == frames(old(self).pending()),
            final(self).replies_sent() == old(self).replies_sent() + delivered_to(
                report@,
                Route::Reply,
            ),
            final(self).notifications_sent() == old(self).notifications_sent() + delivered_to(
                report@,
                Route::Notification,
            ),
            forall|i: int|
                0 <= i < report@.len() && (#[trigger] report@[i]).delivered
                    ==> report@[i].response.route_of() != Route::Unrouted,
    {
        let mut report: Vec<Dispatch> = Vec::new();
        loop
            invariant
                responses_of(report@) + frames(self.pending()) == frames(old(self).pending()),
                residue(self.pending()) == residue(old(self).pending()),
                self.replies_sent() == old(self).replies_sent() + delivered_to(
                    report@,
                    Route::Reply,
                ),
                self.notifications_sent() == old(self).notifications_sent() + delivered_to(
                    report@,
                    Route::Notification,
                ),
                forall|i: int|
                    0 <= i < report@.len() && (#[trigger] report@[i]).delivered
                        ==> report@[i].response.route_of() != Route::Unrouted,
            ensures
                self.pending() == residue(old(self).pending()),
                responses_of(report@) == frames(old(self).pending()),
                self.replies_sent() == old(self).replies_sent() + delivered_to(
                    report@,
                    Route::Reply,
                ),
                self.notifications_sent() == old(self).notifications_sent() + delivered_to(
                    report@,
                    Route::Notification,
                ),
                forall|i: int|
                    0 <= i < report@.len() && (#[trigger] report@[i]).delivered
                        ==> report@[i].response.route_of() != Route::Unrouted,
            decreases self.pending().len(),
        {
            let ghost window = self.pending();
            let ghost before = report@;
            proof {
                lemma_message(window, Seq::empty());
            }
            let response = match self.buffer.parse() {
                Ok(response) => response,
                Err(_) => Response::Nothing,
            };
            if let Response::Nothing = response {
                break ;
            }
            let delivered = self.dispatch(response);
            report.push(Dispatch { response, delivered });
            assert(report@.drop_last() =~= before);
        }
        report
    }
}

} // verus!
