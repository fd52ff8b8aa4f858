//! Fan-out of update notifications. Each subscriber reads from its own
//! bounded queue; a subscriber that falls behind loses its oldest messages
//! and is told so, and publishing never waits for anyone.

use vstd::prelude::*;
use tokio::sync::broadcast::{Receiver, Sender};
use crate::model::Entry;
use crate::store::entries_of;

verus! {

/// The queue length each subscriber is given by the service.
pub const QUEUE_CAPACITY: usize = 256;

#[verifier::external_type_specification]
#[verifier::external_body]
#[verifier::reject_recursive_types(T)]
pub struct ExSender<T>(Sender<T>);

#[verifier::external_type_specification]
#[verifier::external_body]
#[verifier::reject_recursive_types(T)]
pub struct ExReceiver<T>(Receiver<T>);

/// The number of slots in the ring buffer a sender writes into.
pub uninterp spec fn sender_queue_len(tx: Sender<Vec<(String, String)>>) -> usize;

/// The number of slots in the ring buffer a receiver reads from.
pub uninterp spec fn receiver_queue_len(rx: Receiver<Vec<(String, String)>>) -> usize;

/// Relies on tokio's `broadcast::Sender::new`: a channel with no receivers
/// yet, whose ring buffer has `capacity` rounded up to a power of two slots,
/// so at least `capacity` and fewer than twice as many. It panics on a
/// capacity of zero or above `usize::MAX / 2`.
#[verifier::external_body]
fn open_channel(capacity: usize) -> (r: Sender<Vec<(String, String)>>)
    requires
        0 < capacity <= usize::MAX / 2,
    ensures
        capacity <= sender_queue_len(r) < 2 * capacity,
{
    Sender::new(capacity)
}

/// Relies on tokio's `broadcast::Sender::send`: `batch` is handed to the
/// channel once, going to every current receiver's queue without waiting; it
/// fails only when there is no receiver, which changes nothing for the
/// caller. The log of `hub` records the batch handed over.
#[verifier::external_body]
fn send_to_all(hub: &mut Broadcaster, batch: Vec<(String, String)>)
    ensures
        final(hub).sender == old(hub).sender,
        final(hub).capacity == old(hub).capacity,
        final(hub).sent@ == old(hub).sent@.push(entries_of(batch@)),
{
    let _ = hub.sender.send(batch);
}

/// Relies on tokio's `broadcast::Sender::subscribe`: a receiver of the
/// messages sent after this call, sharing the sender's ring buffer. It panics
/// only past `usize::MAX >> 2` receivers, more than memory can hold.
#[verifier::external_body]
fn subscribe_to(tx: &Sender<Vec<(String, String)>>) -> (r: Receiver<Vec<(String, String)>>)
    ensures
        receiver_queue_len(r) == sender_queue_len(*tx),
{
    tx.subscribe()
}

/// The publisher of update batches to every open stream.
pub struct Broadcaster {
    sender: Sender<Vec<(String, String)>>,
    capacity: usize,
    sent: Ghost<Seq<Seq<Entry>>>,
}

impl Broadcaster {
    /// The capacity the broadcaster was made with.
    pub closed spec fn spec_capacity(&self) -> usize {
        self.capacity
    }

    /// The number of unread batches each subscriber can hold before it lags.
    pub closed spec fn queue_len(&self) -> usize {
        sender_queue_len(self.sender)
    }

    /// The batches handed to the channel so far, oldest first.
    pub closed spec fn sent(&self) -> Seq<Seq<Entry>> {
        self.sent@
    }

    /// A broadcaster with no subscribers that has sent nothing. Each
    /// subscriber can hold `capacity` unread batches, rounded up to a power
    /// of two.
    pub fn new(capacity: usize) -> (r: Broadcaster)
        requires
            0 < capacity <= usize::MAX / 2,
        ensures
            r.spec_capacity() == capacity,
            capacity <= r.queue_len() < 2 * capacity,
            r.sent() == Seq::<Seq<Entry>>::empty(),
    {
        Broadcaster { sender: open_channel(capacity), capacity, sent: Ghost(Seq::empty()) }
    }

    /// The capacity the broadcaster was made with.
    pub fn capacity(&self) -> (r: usize)
        ensures
            r == self.spec_capacity(),
    {
        self.capacity
    }

    /// A new subscriber on this channel, which sees the batches published
    /// after this call and holds as many unread ones as the channel's queue.
    pub fn subscribe(&self) -> (r: Receiver<Vec<(String, String)>>)
        ensures
            receiver_queue_len(r) == self.queue_len(),
    {
        subscribe_to(&self.sender)
    }

    /// Publishes `batch` once to every subscriber, unless it is empty: an
    /// empty batch changed nothing, wakes nobody and is not sent. Returns
    /// whether it was sent.
    pub fn publish(&mut self, batch: Vec<(String, String)>) -> (r: bool)
        ensures
            r == (batch@.len() > 0),
            batch@.len() > 0 ==> final(self).sent() == old(self).sent().push(entries_of(batch@)),
            batch@.len() == 0 ==> final(self).sent() == old(self).sent(),
            final(self).spec_capacity() == old(self).spec_capacity(),
            final(self).queue_len() == old(self).queue_len(),
    {
        if batch.len() == 0 {
            false
        } else {
            send_to_all(self, batch);
            true
        }
    }
}

} // verus!
