//! The message bus: an in-process broker with one topic for quote requests
//! and one for quote results.
//!
//! Whoever subscribes to a topic gets a mailbox of its own. A message that is
//! published goes, as a copy, to the back of every mailbox of its topic, and
//! each subscriber takes its messages from the front of its own mailbox: no
//! two subscribers ever share a message.

use vstd::prelude::*;
use std::collections::VecDeque;
use crate::quote::{QuoteRequest, QuoteRequestView, QuoteResult, QuoteResultView};

verus! {

/// A value of which the bus can hand each subscriber a copy of its own.
pub trait Message: View + Sized {
    fn duplicate(&self) -> (copy: Self)
        ensures
            copy@ == self@,
    ;
}

impl Message for QuoteRequest {
    fn duplicate(&self) -> (copy: Self) {
        self.clone()
    }
}

impl<P: Copy> Message for QuoteResult<P> {
    fn duplicate(&self) -> (copy: Self) {
        self.clone()
    }
}

/// The mailboxes of a topic after `messages` have gone to each of them.
pub open spec fn delivered<V>(mailboxes: Seq<Seq<V>>, messages: Seq<V>) -> Seq<Seq<V>> {
    Seq::new(mailboxes.len(), |i: int| mailboxes[i] + messages)
}

/// What the messages in a mailbox say, oldest first.
pub open spec fn contents<M: Message>(mailbox: Seq<M>) -> Seq<M::V> {
    mailbox.map_values(|m: M| m@)
}

/// The mailboxes of the subscribers to one kind of message.
pub struct Topic<M> {
    mailboxes: Vec<VecDeque<M>>,
}

impl<M: Message> View for Topic<M> {
    type V = Seq<Seq<M::V>>;

    /// One sequence for each subscriber, in the order of subscription: what
    /// waits in its mailbox, oldest first.
    closed spec fn view(&self) -> Seq<Seq<M::V>> {
        Seq::new(self.mailboxes@.len(), |i: int| contents(self.mailboxes@[i]@))
    }
}

impl<M: Message> Topic<M> {
    /// A topic that nobody has subscribed to.
    pub fn new() -> (topic: Self)
        ensures
            topic@ == Seq::<Seq<M::V>>::empty(),
    {
        let topic = Topic { mailboxes: Vec::new() };
        assert(topic@ =~= Seq::<Seq<M::V>>::empty());
        topic
    }

    /// Adds a subscriber, with an empty mailbox, and returns its number.
    pub fn subscribe(&mut self) -> (subscriber: usize)
        ensures
            subscriber == old(self)@.len(),
            final(self)@ == old(self)@.push(Seq::empty()),
    {
        let subscriber: usize = self.mailboxes.len();
        self.mailboxes.push(VecDeque::new());
        assert(self@ =~~= old(self)@.push(Seq::empty()));
        subscriber
    }

    /// Puts a copy of `message` at the back of every mailbox.
    pub fn publish(&mut self, message: &M)
        ensures
            final(self)@ == delivered(old(self)@, seq![message@]),
    {
        let mut i: usize = 0;
        while i < self.mailboxes.len()
            invariant
                i <= self.mailboxes@.len(),
                self.mailboxes@.len() == old(self).mailboxes@.len(),
                forall|j: int| 0 <= j < i ==> contents(#[trigger] self.mailboxes@[j]@) == contents(old(self).mailboxes@[j]@).push(message@),
                forall|j: int| i <= j < self.mailboxes@.len() ==> #[trigger] self.mailboxes@[j] == old(self).mailboxes@[j],
            decreases self.mailboxes@.len() - i,
        {
            let copy = message.duplicate();
            let ghost before = self.mailboxes@[i as int]@;
            self.mailboxes[i].push_back(copy);
            assert(contents(before.push(copy)) =~= contents(before).push(message@));
            i = i + 1;
        }
        assert(self@ =~~= delivered(old(self)@, seq![message@]));
    }

    /// Takes the oldest message out of the mailbox of `subscriber`. There is
    /// none for a number that no subscriber has, nor in an empty mailbox.
    pub fn receive(&mut self, subscriber: usize) -> (message: Option<M>)
        ensures
            match message {
                Some(m) => {
                    &&& subscriber < old(self)@.len()
                    &&& old(self)@[subscriber as int].len() > 0
                    &&& m@ == old(self)@[subscriber as int].first()
                    &&& final(self)@ == old(self)@.update(subscriber as int, old(self)@[subscriber as int].drop_first())
                },
                None => {
                    &&& subscriber < old(self)@.len() ==> old(self)@[subscriber as int].len() == 0
                    &&& final(self)@ == old(self)@
                },
            },
    {
        if subscriber >= self.mailboxes.len() {
            return None;
        }
        let ghost before = self.mailboxes@[subscriber as int]@;
        let message = self.mailboxes[subscriber].pop_front();
        proof {
            if message is Some {
                assert(contents(before.subrange(1, before.len() as int)) =~= contents(before).drop_first());
                assert(self@ =~~= old(self)@.update(subscriber as int, old(self)@[subscriber as int].drop_first()));
            } else {
                assert(self@ =~~= old(self)@);
            }
        }
        message
    }
}

/// Why the bus did not take a message.
#[derive(Clone, Copy, Debug, PartialEq, Eq)]
pub enum BusError {
    /// The bus has been shut down.
    Closed,
}

/// The bus itself: the two topics, and whether it still takes messages.
pub struct Bus<P> {
    open: bool,
    requests: Topic<QuoteRequest>,
    results: Topic<QuoteResult<P>>,
}

/// The state of a [`Bus`]: for each topic what waits in the mailbox of each
/// subscriber, oldest first.
pub struct BusView<P> {
    pub open: bool,
    pub requests: Seq<Seq<QuoteRequestView>>,
    pub results: Seq<Seq<QuoteResultView<P>>>,
}

impl<P: Copy> View for Bus<P> {
    type V = BusView<P>;

    closed spec fn view(&self) -> BusView<P> {
        BusView { open: self.open, requests: self.requests@, results: self.results@ }
    }
}

impl<P: Copy> Bus<P> {
    /// An open bus without subscribers.
    pub fn new() -> (bus: Self)
        ensures
            bus@ == (BusView::<P> { open: true, requests: Seq::empty(), results: Seq::empty() }),
    {
        Bus { open: true, requests: Topic::new(), results: Topic::new() }
    }

    /// Whether the bus still takes messages.
    pub fn is_open(&self) -> (open: bool)
        ensures
            open == self@.open,
    {
        self.open
    }

    /// Stops the bus for good: from now on it takes no message. What waits in
    /// the mailboxes stays there and can still be taken out.
    pub fn shut_down(&mut self)
        ensures
            final(self)@ == (BusView { open: false, ..old(self)@ }),
    {
        self.open = false;
    }

    /// Adds a subscriber to the requests and returns its number.
    pub fn subscribe_requests(&mut self) -> (subscriber: usize)
        ensures
            subscriber == old(self)@.requests.len(),
            final(self)@ == (BusView {
                requests: old(self)@.requests.push(Seq::empty()),
                ..old(self)@
            }),
    {
        self.requests.subscribe()
    }

    /// Adds a subscriber to the results and returns its number.
    pub fn subscribe_results(&mut self) -> (subscriber: usize)
        ensures
            subscriber == old(self)@.results.len(),
            final(self)@ == (BusView {
                results: old(self)@.results.push(Seq::empty()),
                ..old(self)@
            }),
    {
        self.results.subscribe()
    }

    /// Hands a copy of `request` to every subscriber to the requests. A bus
    /// that was shut down refuses, and nothing changes.
    pub fn publish_request(&mut self, request: &QuoteRequest) -> (done: Result<(), BusError>)
        ensures
            old(self)@.open ==> done == Ok::<(), BusError>(()) && final(self)@ == (BusView {
                requests: delivered(old(self)@.requests, seq![request@]),
                ..old(self)@
            }),
            !old(self)@.open ==> done == Err::<(), BusError>(BusError::Closed) && final(self)@ == old(
                self,
            )@,
    {
        if !self.open {
            return Err(BusError::Closed);
        }
        self.requests.publish(request);
        Ok(())
    }

    /// Hands a copy of `result` to every subscriber to the results. A bus
    /// that was shut down refuses, and nothing changes.
    pub fn publish_result(&mut self, result: &QuoteResult<P>) -> (done: Result<(), BusError>)
        ensures
            old(self)@.open ==> done == Ok::<(), BusError>(()) && final(self)@ == (BusView {
                results: delivered(old(self)@.results, seq![result@]),
                ..old(self)@
            }),
            !old(self)@.open ==> done == Err::<(), BusError>(BusError::Closed) && final(self)@ == old(
                self,
            )@,
    {
        if !self.open {
            return Err(BusError::Closed);
        }
        self.results.publish(result);
        Ok(())
    }

    /// Takes the oldest request that waits for `subscriber`, if there is one.
    pub fn next_request(&mut self, subscriber: usize) -> (request: Option<QuoteRequest>)
        ensures
            match request {
                Some(r) => {
                    &&& subscriber < old(self)@.requests.len()
                    &&& old(self)@.requests[subscriber as int].len() > 0
                    &&& r@ == old(self)@.requests[subscriber as int].first()
                    &&& final(self)@ == (BusView {
                        requests: old(self)@.requests.update(
                            subscriber as int,
                            old(self)@.requests[subscriber as int].drop_first(),
                        ),
                        ..old(self)@
                    })
                },
                None => {
                    &&& subscriber < old(self)@.requests.len() ==> old(self)@.requests[subscriber as int].len()
                        == 0
                    &&& final(self)@ == old(self)@
                },
            },
    {
        self.requests.receive(subscriber)
    }

    /// Takes the oldest result that waits for `subscriber`, if there is one.
    pub fn next_result(&mut self, subscriber: usize) -> (result: Option<QuoteResult<P>>)
        ensures
            match result {
                Some(r) => {
                    &&& subscriber < old(self)@.results.len()
                    &&& old(self)@.results[subscriber as int].len() > 0
                    &&& r@ == old(self)@.results[subscriber as int].first()
                    &&& final(self)@ == (BusView {
                        results: old(self)@.results.update(
                            subscriber as int,
                            old(self)@.results[subscriber as int].drop_first(),
                        ),
                        ..old(self)@
                    })
                },
                None => {
                    &&& subscriber < old(self)@.results.len() ==> old(self)@.results[subscriber as int].len()
                        == 0
                    &&& final(self)@ == old(self)@
                },
            },
    {
        self.results.receive(subscriber)
    }
}

} // verus!
