//! The fan-out channel: one publisher, any number of subscribers, each with
//! a bounded queue of its own.
//!
//! A send to a bounded queue may have to wait, so the channel does not send
//! by itself. It says where the next copy of a message goes and takes note
//! of how the send went; whoever publishes walks it from position zero until
//! it names no target.

use tokio::sync::mpsc::{channel, Receiver, Sender};
use vstd::prelude::*;

use crate::outside::max_queue_capacity;

verus! {

/// The subscribers of a publisher, in the order in which a message goes out
/// to them.
#[verifier::reject_recursive_types(T)]
pub struct MultiReceiverChannel<T: Clone> {
    senders: Vec<Sender<T>>,
}

/// The subscribers among `subscribers` that take a message, in their order,
/// where `took` says of each subscriber whether it takes the message.
pub open spec fn takers<S>(subscribers: Seq<S>, took: spec_fn(S) -> bool) -> Seq<S>
    decreases subscribers.len(),
{
    if subscribers.len() == 0 {
        Seq::empty()
    } else if took(subscribers[0]) {
        seq![subscribers[0]] + takers(subscribers.drop_first(), took)
    } else {
        takers(subscribers.drop_first(), took)
    }
}

/// The subscribers that are left after a publish that stands at position
/// `at`: a subscriber that takes the message is passed, one that does not is
/// removed, until every subscriber has had its turn.
pub open spec fn after_publish<S>(subscribers: Seq<S>, at: int, took: spec_fn(S) -> bool) -> Seq<S>
    decreases subscribers.len() - at,
{
    if at < 0 || at >= subscribers.len() {
        subscribers
    } else if took(subscribers[at]) {
        after_publish(subscribers, at + 1, took)
    } else {
        after_publish(subscribers.remove(at), at, took)
    }
}

/// A publish removes the subscribers that do not take the message and no
/// others, and leaves the rest in their order: after a publish that has
/// reached position `at`, the subscribers before that position are as they
/// were, and of those from that position on the ones that take the message
/// are left.
pub proof fn lemma_publish_keeps_who_took<S>(subscribers: Seq<S>, at: int, took: spec_fn(S) -> bool)
    requires
        0 <= at <= subscribers.len(),
    ensures
        after_publish(subscribers, at, took) == subscribers.take(at) + takers(subscribers.skip(at), took),
        at == 0 ==> after_publish(subscribers, at, took) == takers(subscribers, took),
    decreases subscribers.len() - at,
{
    let rest = subscribers.skip(at);
    if at >= subscribers.len() {
        assert(subscribers.take(at) + takers(rest, took) =~= subscribers);
    } else if took(subscribers[at]) {
        lemma_publish_keeps_who_took(subscribers, at + 1, took);
        assert(rest.drop_first() =~= subscribers.skip(at + 1));
        assert(subscribers.take(at + 1) + takers(subscribers.skip(at + 1), took) =~= subscribers.take(at) + (
        seq![subscribers[at]] + takers(subscribers.skip(at + 1), took)));
    } else {
        let fewer = subscribers.remove(at);
        lemma_publish_keeps_who_took(fewer, at, took);
        assert(fewer.take(at) =~= subscribers.take(at));
        assert(fewer.skip(at) =~= subscribers.skip(at + 1));
        assert(rest.drop_first() =~= subscribers.skip(at + 1));
    }
    if at == 0 {
        assert(subscribers.skip(0) =~= subscribers);
        assert(subscribers.take(0) + takers(subscribers, took) =~= takers(subscribers, took));
    }
}

impl<T: Clone> MultiReceiverChannel<T> {
    /// The sending halves of the subscribed queues.
    pub closed spec fn subscribers(&self) -> Seq<Sender<T>> {
        self.senders@
    }

    /// A channel without subscribers.
    pub fn new() -> (channel: MultiReceiverChannel<T>)
        ensures
            channel.subscribers().len() == 0,
    {
        MultiReceiverChannel { senders: Vec::new() }
    }

    /// The number of subscribers.
    pub fn len(&self) -> (count: usize)
        ensures
            count == self.subscribers().len(),
    {
        self.senders.len()
    }

    /// Subscribes a new queue that holds up to `buffer` messages, behind the
    /// subscribers that are there, and returns its receiving half.
    pub fn create_receiver(&mut self, buffer: usize) -> (receiver: Receiver<T>)
        requires
            0 < buffer <= max_queue_capacity(),
        ensures
            final(self).subscribers().len() == old(self).subscribers().len() + 1,
            final(self).subscribers().drop_last() == old(self).subscribers(),
    {
        let (tx, rx) = channel(buffer);
        self.senders.push(tx);
        assert(self.senders@.drop_last() =~= old(self).senders@);
        rx
    }

    /// The subscriber at position `at` of a publish, to which the next copy
    /// of the message goes; none when the publish has reached every
    /// subscriber.
    pub fn send_target(&self, at: usize) -> (target: Option<&Sender<T>>)
        ensures
            at < self.subscribers().len() ==> target == Some(&self.subscribers()[at as int]),
            at >= self.subscribers().len() ==> target is None,
    {
        if at < self.senders.len() {
            Some(&self.senders[at])
        } else {
            None
        }
    }

    /// Takes note of how the send to the subscriber at position `at` went,
    /// and returns the position at which the publish goes on. A subscriber
    /// that took the message stays; one whose queue is gone is removed, those
    /// behind it move up, and the publish goes on at the same position.
    pub fn send_done(&mut self, at: usize, delivered: bool) -> (next: usize)
        ensures
            at < old(self).subscribers().len() && delivered ==> {
                &&& next == at + 1
                &&& final(self).subscribers() == old(self).subscribers()
            },
            at < old(self).subscribers().len() && !delivered ==> {
                &&& next == at
                &&& final(self).subscribers() == old(self).subscribers().remove(at as int)
            },
            at >= old(self).subscribers().len() ==> {
                &&& next == at
                &&& final(self).subscribers() == old(self).subscribers()
            },
    {
        if at >= self.senders.len() {
            at
        } else if delivered {
            at + 1
        } else {
            self.senders.remove(at);
            at
        }
    }
}

} // verus!
