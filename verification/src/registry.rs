//! The registry of outbound channels: one channel per registered
//! connection, oldest first. A broadcast offers one response to every
//! channel and drops, in the same pass, each channel that did not take it.

use crate::domain::{
    kept, lemma_after, lemma_global_order, lemma_no_replay, lemma_run_in_parts,
    lemma_silent_once_gone, responses, took, Domain, Event,
};
use std::sync::mpsc::Sender;
use vstd::prelude::*;

verus! {

/// The sending half of a connection's outbound channel. Nothing inside it is
/// visible to the proofs: it is carried from registration to delivery.
#[verifier::external_type_specification]
#[verifier::external_body]
#[verifier::reject_recursive_types(T)]
pub struct ExSender<T>(Sender<T>);

/// Calls `std::sync::mpsc::Sender::send`, which never blocks, and tells
/// whether the channel took the value. Whether it does depends on the
/// receiving half, so nothing is promised of the answer.
#[verifier::external_body]
fn offer<R>(channel: &Sender<R>, response: R) -> (accepted: bool) {
    channel.send(response).is_ok()
}

/// Removes from `items` every item whose attempt was not accepted.
fn retain_accepted<T>(items: &mut Vec<T>, accepted: &Vec<bool>)
    ensures
        final(items)@ == kept(old(items)@, accepted@),
{
    let ghost before = items@;
    let total = items.len();
    let mut seen: usize = 0;
    let mut at: usize = 0;
    while seen < total
        invariant
            total == before.len(),
            at <= seen <= total,
            at == kept(before.take(seen as int), accepted@).len(),
            items@ == kept(before.take(seen as int), accepted@) + before.skip(seen as int),
        decreases total - seen,
    {
        proof {
            assert(before.take(seen + 1).drop_last() =~= before.take(seen as int));
            assert(before.skip(seen as int) =~= seq![before[seen as int]] + before.skip(seen + 1));
        }
        if seen < accepted.len() && accepted[seen] {
            at += 1;
        } else {
            items.remove(at);
        }
        seen += 1;
        assert(items@ =~= kept(before.take(seen as int), accepted@) + before.skip(seen as int));
    }
    assert(before.take(total as int) =~= before);
}

/// The outbound channels of the registered connections with their
/// identifiers, and a record of everything that happened to them.
#[verifier::reject_recursive_types(R)]
pub struct Registry<R> {
    ids: Vec<u64>,
    channels: Vec<Sender<R>>,
    next_id: u64,
    history: Ghost<Seq<Event<R>>>,
}

impl<R> View for Registry<R> {
    type V = Domain;

    /// The registered connections and the number of identifiers issued.
    closed spec fn view(&self) -> Domain {
        Domain { live: self.ids@, issued: self.next_id as nat }
    }
}

impl<R> Registry<R> {
    /// The registered channels, in the order of `self@.live`.
    pub closed spec fn channels(&self) -> Seq<Sender<R>> {
        self.channels@
    }

    /// Every event since the registry was made, oldest first.
    pub closed spec fn history(&self) -> Seq<Event<R>> {
        self.history@
    }

    /// Holds of every registry: every connection has its channel, and the
    /// registered connections are those that the recorded events leave.
    #[verifier::type_invariant]
    closed spec fn inv(&self) -> bool {
        &&& self.ids.len() == self.channels.len()
        &&& self@.wf()
        &&& self@ == Domain::empty().run(self.history@)
    }

    /// The invariant of a registry in public terms. The functions of this
    /// type state it of what they return or leave behind.
    pub open spec fn wf(&self) -> bool {
        &&& self@.wf()
        &&& self.channels().len() == self@.live.len()
        &&& self@ == Domain::empty().run(self.history())
    }

    /// Every response relayed so far, oldest first.
    pub open spec fn relayed(&self) -> Seq<R> {
        responses(self.history())
    }

    /// The responses that connection `id` has taken so far, oldest first.
    pub open spec fn observed(&self, id: u64) -> Seq<R> {
        Domain::empty().observed(self.history(), id)
    }

    /// A registry without connections.
    pub fn new() -> (registry: Registry<R>)
        ensures
            registry.wf(),
            registry@ == Domain::empty(),
            registry.channels() == Seq::<Sender<R>>::empty(),
            registry.history() == Seq::<Event<R>>::empty(),
    {
        Registry {
            ids: Vec::new(),
            channels: Vec::new(),
            next_id: 0,
            history: Ghost(Seq::empty()),
        }
    }

    /// The number of registered connections.
    pub fn len(&self) -> (n: usize)
        ensures
            n == self@.live.len(),
    {
        self.ids.len()
    }

    /// Whether no connection is registered.
    pub fn is_empty(&self) -> (none: bool)
        ensures
            none == (self@.live.len() == 0),
    {
        self.ids.len() == 0
    }

    /// The identifiers of the registered connections, oldest first.
    pub fn ids(&self) -> (ids: Vec<u64>)
        ensures
            ids@ == self@.live,
    {
        let mut ids: Vec<u64> = Vec::new();
        let mut i: usize = 0;
        while i < self.ids.len()
            invariant
                i <= self.ids.len(),
                ids@ == self.ids@.take(i as int),
            decreases self.ids.len() - i,
        {
            ids.push(self.ids[i]);
            i += 1;
            assert(ids@ =~= self.ids@.take(i as int));
        }
        assert(self.ids@.take(self.ids.len() as int) =~= self.ids@);
        ids
    }

    /// Whether connection `id` is registered.
    pub fn contains(&self, id: u64) -> (found: bool)
        ensures
            found == self@.live.contains(id),
    {
        let mut i: usize = 0;
        while i < self.ids.len()
            invariant
                i <= self.ids.len(),
                forall|j: int| 0 <= j < i ==> self.ids@[j] != id,
            decreases self.ids.len() - i,
        {
            if self.ids[i] == id {
                return true;
            }
            i += 1;
        }
        false
    }

    /// Registers the outbound channel of a newly accepted connection and
    /// returns the connection's identifier: the number of connections
    /// accepted before it. Returns `None`, and registers nothing, when every
    /// identifier has been issued.
    pub fn register(&mut self, channel: Sender<R>) -> (id: Option<u64>)
        ensures
            old(self).wf(),
            final(self).wf(),
            id is Some <==> old(self)@.has_room(),
            final(self)@ == old(self)@.join(),
            id matches Some(id) ==> {
                &&& id == old(self)@.issued
                &&& final(self).channels() == old(self).channels().push(channel)
                &&& final(self).history() == old(self).history().push(Event::Join)
            },
            id is None ==> {
                &&& final(self).channels() == old(self).channels()
                &&& final(self).history() == old(self).history()
            },
    {
        proof {
            use_type_invariant(&*self);
        }
        if self.next_id == u64::MAX {
            return None;
        }
        let ghost before = self@;
        let mut taken = Registry::new();
        std::mem::swap(self, &mut taken);
        let Registry { mut ids, mut channels, next_id, history } = taken;
        ids.push(next_id);
        channels.push(channel);
        proof {
            assert(history@.push(Event::<R>::Join).drop_last() =~= history@);
            lemma_after(before, Event::<R>::Join);
        }
        *self = Registry {
            ids,
            channels,
            next_id: next_id + 1,
            history: Ghost(history@.push(Event::Join)),
        };
        Some(next_id)
    }

    /// Offers a copy of `response` to every registered channel, oldest first,
    /// one attempt each, and returns the outcomes in that order.
    fn offer_all(&self, response: &R) -> (accepted: Vec<bool>) where R: Clone
        ensures
            accepted.len() == self.channels().len(),
    {
        let mut accepted: Vec<bool> = Vec::new();
        let mut i: usize = 0;
        while i < self.channels.len()
            invariant
                i <= self.channels.len(),
                accepted.len() == i,
            decreases self.channels.len() - i,
        {
            let taken = offer(&self.channels[i], response.clone());
            accepted.push(taken);
            i += 1;
        }
        accepted
    }

    /// Records one round of delivery: `response` was offered to every
    /// registered channel and `accepted[i]` tells whether the `i`-th took
    /// it. The channels that took it stay, in their order; every other
    /// channel is removed now. A channel without an outcome counts as one
    /// that did not take the response.
    pub fn settle(&mut self, response: &R, accepted: &Vec<bool>)
        ensures
            old(self).wf(),
            final(self).wf(),
            final(self)@ == old(self)@.relay(accepted@),
            final(self).channels() == kept(old(self).channels(), accepted@),
            final(self).history() == old(self).history().push(
                Event::Relay { response: *response, accepted: accepted@ },
            ),
            final(self).relayed() == old(self).relayed().push(*response),
            forall|id: u64|
                #[trigger] final(self).observed(id) == if took(old(self)@.live, accepted@, id) {
                    old(self).observed(id).push(*response)
                } else {
                    old(self).observed(id)
                },
    {
        proof {
            use_type_invariant(&*self);
        }
        let ghost before = self@;
        let ghost event = Event::Relay { response: *response, accepted: accepted@ };
        let mut taken = Registry::new();
        std::mem::swap(self, &mut taken);
        let Registry { mut ids, mut channels, next_id, history } = taken;
        proof {
            assert(history@.push(event).drop_last() =~= history@);
            lemma_after(before, event);
            lemma_kept_len(ids@, channels@, accepted@);
        }
        retain_accepted(&mut ids, accepted);
        retain_accepted(&mut channels, accepted);
        *self = Registry { ids, channels, next_id, history: Ghost(history@.push(event)) };
    }

    /// One broadcast: offers a copy of `response` to every registered
    /// channel, one attempt each, and removes in the same pass every channel
    /// that did not take it. Returns the outcomes, one per channel that was
    /// registered, oldest first. What each outcome is depends on the
    /// receiving side alone.
    pub fn broadcast(&mut self, response: &R) -> (accepted: Vec<bool>) where R: Clone
        ensures
            old(self).wf(),
            final(self).wf(),
            accepted.len() == old(self)@.live.len(),
            final(self)@ == old(self)@.relay(accepted@),
            final(self).channels() == kept(old(self).channels(), accepted@),
            final(self).history() == old(self).history().push(
                Event::Relay { response: *response, accepted: accepted@ },
            ),
            final(self).relayed() == old(self).relayed().push(*response),
            forall|id: u64|
                #[trigger] final(self).observed(id) == if took(old(self)@.live, accepted@, id) {
                    old(self).observed(id).push(*response)
                } else {
                    old(self).observed(id)
                },
    {
        proof {
            use_type_invariant(&*self);
        }
        let accepted = self.offer_all(response);
        self.settle(response, &accepted);
        accepted
    }
}

/// Global order, of a registry at two moments of its life. A connection that
/// is registered at both has observed, between them, every response relayed
/// between them, each once and in the order of the relay. So all such
/// connections have observed the same responses in the same order.
pub proof fn lemma_observed_while_registered<R>(
    before: Registry<R>,
    after: Registry<R>,
    between: Seq<Event<R>>,
    id: u64,
)
    requires
        before.wf(),
        after.wf(),
        after.history() == before.history() + between,
        before@.live.contains(id),
        after@.live.contains(id),
    ensures
        after.observed(id) == before.observed(id) + responses(between),
        after.relayed() == before.relayed() + responses(between),
{
    lemma_run_in_parts(Domain::empty(), before.history(), between, id);
    lemma_global_order(before@, between, id);
}

/// No replay, of a registry at two moments of its life. A connection whose
/// identifier was not yet issued at the first has observed nothing until
/// then, and at the second only responses relayed between the two.
pub proof fn lemma_nothing_before_joining<R>(
    before: Registry<R>,
    after: Registry<R>,
    between: Seq<Event<R>>,
    id: u64,
)
    requires
        before.wf(),
        after.history() == before.history() + between,
        before@.issued <= id,
    ensures
        before.observed(id) == Seq::<R>::empty(),
        after.observed(id) == before@.observed(between, id),
{
    lemma_no_replay(Domain::empty(), before.history(), between, id);
}

/// No delivery after removal, of a registry at two moments of its life. A
/// connection that had been registered and was gone at the first has
/// observed nothing more at the second.
pub proof fn lemma_nothing_after_leaving<R>(
    before: Registry<R>,
    after: Registry<R>,
    between: Seq<Event<R>>,
    id: u64,
)
    requires
        before.wf(),
        after.history() == before.history() + between,
        id < before@.issued,
        !before@.live.contains(id),
    ensures
        after.observed(id) == before.observed(id),
{
    lemma_run_in_parts(Domain::empty(), before.history(), between, id);
    lemma_silent_once_gone(before@, between, id);
}

/// Two sequences of one length keep equally many items.
proof fn lemma_kept_len<A, B>(a: Seq<A>, b: Seq<B>, accepted: Seq<bool>)
    requires
        a.len() == b.len(),
    ensures
        kept(a, accepted).len() == kept(b, accepted).len(),
    decreases a.len(),
{
    if a.len() > 0 {
        lemma_kept_len(a.drop_last(), b.drop_last(), accepted);
    }
}

} // verus!
