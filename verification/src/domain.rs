//! The broadcast domain as mathematics: which connections are registered,
//! what one round of delivery does to them, and what each connection has
//! observed after any run of events.
//!
//! Connections are named by the order in which they were accepted. A round
//! offers one response to every member; the members that take it stay, the
//! others leave in the same round and never come back.

use vstd::prelude::*;

verus! {

/// One thing that happens to a broadcast domain.
pub enum Event<R> {
    /// A connection is accepted and receives the next identifier.
    Join,
    /// One response is offered to every member, oldest first. `accepted[i]`
    /// tells whether the `i`-th member took it.
    Relay { response: R, accepted: Seq<bool> },
}

/// The items of `items` whose attempt was accepted, in their old order. An
/// item without an outcome counts as refused.
pub open spec fn kept<T>(items: Seq<T>, accepted: Seq<bool>) -> Seq<T>
    decreases items.len(),
{
    if items.len() == 0 {
        Seq::empty()
    } else {
        let earlier = kept(items.drop_last(), accepted);
        if items.len() <= accepted.len() && accepted[items.len() - 1] {
            earlier.push(items.last())
        } else {
            earlier
        }
    }
}

/// `item` stands at a position of `items` whose attempt was accepted.
pub open spec fn took<T>(items: Seq<T>, accepted: Seq<bool>, item: T) -> bool {
    exists|i: int|
        0 <= i < items.len() && i < accepted.len() && accepted[i] && #[trigger] items[i] == item
}

/// Every identifier is smaller than the ones after it.
pub open spec fn ascending(ids: Seq<u64>) -> bool {
    forall|i: int, j: int| 0 <= i < j < ids.len() ==> ids[i] < ids[j]
}

/// The responses that a run of events relays, in the order of the run.
pub open spec fn responses<R>(events: Seq<Event<R>>) -> Seq<R>
    decreases events.len(),
{
    if events.len() == 0 {
        Seq::empty()
    } else {
        let earlier = responses(events.drop_last());
        match events.last() {
            Event::Join => earlier,
            Event::Relay { response, accepted } => earlier.push(response),
        }
    }
}

/// The registered connections, oldest first, and the number of identifiers
/// issued so far.
#[verifier::ext_equal]
pub struct Domain {
    pub live: Seq<u64>,
    pub issued: nat,
}

impl Domain {
    /// The domain before any connection was accepted.
    pub open spec fn empty() -> Domain {
        Domain { live: Seq::empty(), issued: 0 }
    }

    /// Identifiers are issued in increasing order and never twice.
    pub open spec fn wf(self) -> bool {
        &&& self.issued <= u64::MAX
        &&& forall|i: int| 0 <= i < self.live.len() ==> (#[trigger] self.live[i]) < self.issued
        &&& ascending(self.live)
    }

    /// An identifier is left for one more connection.
    pub open spec fn has_room(self) -> bool {
        self.issued < u64::MAX
    }

    /// The domain after one more connection was accepted. Without room it
    /// stays as it is.
    pub open spec fn join(self) -> Domain {
        if self.has_room() {
            Domain { live: self.live.push(self.issued as u64), issued: self.issued + 1 }
        } else {
            self
        }
    }

    /// The domain after one round of delivery with the given outcomes.
    pub open spec fn relay(self, accepted: Seq<bool>) -> Domain {
        Domain { live: kept(self.live, accepted), issued: self.issued }
    }

    /// The domain after one event.
    pub open spec fn after<R>(self, event: Event<R>) -> Domain {
        match event {
            Event::Join => self.join(),
            Event::Relay { response, accepted } => self.relay(accepted),
        }
    }

    /// The domain after a run of events.
    pub open spec fn run<R>(self, events: Seq<Event<R>>) -> Domain
        decreases events.len(),
    {
        if events.len() == 0 {
            self
        } else {
            self.run(events.drop_last()).after(events.last())
        }
    }

    /// The responses that connection `id` took during a run of events that
    /// starts in this domain, in the order in which it took them.
    pub open spec fn observed<R>(self, events: Seq<Event<R>>, id: u64) -> Seq<R>
        decreases events.len(),
    {
        if events.len() == 0 {
            Seq::empty()
        } else {
            let earlier = self.observed(events.drop_last(), id);
            match events.last() {
                Event::Join => earlier,
                Event::Relay { response, accepted } => {
                    if took(self.run(events.drop_last()).live, accepted, id) {
                        earlier.push(response)
                    } else {
                        earlier
                    }
                },
            }
        }
    }
}

/// What `kept` keeps is exactly what `took` says, and nothing is kept twice
/// over.
pub proof fn lemma_kept_members<T>(items: Seq<T>, accepted: Seq<bool>, item: T)
    ensures
        kept(items, accepted).contains(item) <==> took(items, accepted, item),
        kept(items, accepted).len() <= items.len(),
    decreases items.len(),
{
    if items.len() > 0 {
        let front = items.drop_last();
        let last = items.len() - 1;
        lemma_kept_members(front, accepted, item);
        let earlier = kept(front, accepted);
        if took(items, accepted, item) {
            let i = choose|i: int|
                0 <= i < items.len() && i < accepted.len() && accepted[i] && #[trigger] items[i]
                    == item;
            if i < last {
                assert(front[i] == item);
                assert(took(front, accepted, item));
                assert(earlier.contains(item));
                if last < accepted.len() && accepted[last] {
                    assert(earlier.push(items.last())[earlier.index_of(item)] == item);
                }
            } else {
                assert(earlier.push(items.last())[earlier.len() as int] == item);
            }
        }
        if kept(items, accepted).contains(item) {
            let k = kept(items, accepted).index_of(item);
            if k < earlier.len() {
                assert(earlier[k] == item);
                assert(earlier.contains(item));
                let i = choose|i: int|
                    0 <= i < front.len() && i < accepted.len() && accepted[i] && #[trigger] front[i]
                        == item;
                assert(items[i] == item);
            } else {
                assert(items[last] == item);
            }
        }
    }
}

/// What is kept of an ascending sequence is ascending.
pub proof fn lemma_kept_ascending(ids: Seq<u64>, accepted: Seq<bool>)
    requires
        ascending(ids),
    ensures
        ascending(kept(ids, accepted)),
    decreases ids.len(),
{
    if ids.len() > 0 {
        let front = ids.drop_last();
        lemma_kept_ascending(front, accepted);
        let earlier = kept(front, accepted);
        assert forall|i: int| 0 <= i < earlier.len() implies earlier[i] < ids.last() by {
            lemma_kept_members(front, accepted, earlier[i]);
            assert(earlier.contains(earlier[i]));
            let j = choose|j: int|
                0 <= j < front.len() && j < accepted.len() && accepted[j] && #[trigger] front[j]
                    == earlier[i];
            assert(ids[j] < ids[ids.len() - 1]);
        }
    }
}

/// One event keeps a domain well formed, forgets no issued identifier, and
/// brings back no connection that had left.
pub proof fn lemma_after<R>(domain: Domain, event: Event<R>)
    requires
        domain.wf(),
    ensures
        domain.after(event).wf(),
        domain.issued <= domain.after(event).issued,
        forall|id: u64|
            id < domain.issued && !domain.live.contains(id) ==> !(#[trigger] domain.after(
                event,
            ).live.contains(id)),
{
    let next = domain.after(event);
    match event {
        Event::Join => {
            if domain.has_room() {
                assert forall|i: int, j: int| 0 <= i < j < next.live.len() implies next.live[i]
                    < next.live[j] by {
                    assert(next.live[i] == domain.live[i]);
                }
                assert forall|id: u64| id < domain.issued && !domain.live.contains(id) implies !(
                #[trigger] next.live.contains(id)) by {
                    if next.live.contains(id) {
                        let k = next.live.index_of(id);
                        if k < domain.live.len() {
                            assert(domain.live[k] == id);
                        }
                    }
                }
            }
        },
        Event::Relay { response, accepted } => {
            lemma_kept_ascending(domain.live, accepted);
            assert forall|i: int| 0 <= i < next.live.len() implies (#[trigger] next.live[i])
                < next.issued by {
                lemma_kept_members(domain.live, accepted, next.live[i]);
                assert(next.live.contains(next.live[i]));
            }
            assert forall|id: u64| id < domain.issued && !domain.live.contains(id) implies !(
            #[trigger] next.live.contains(id)) by {
                lemma_kept_members(domain.live, accepted, id);
            }
        },
    }
}

/// A run of events keeps a domain well formed and forgets no issued
/// identifier.
pub proof fn lemma_run<R>(start: Domain, events: Seq<Event<R>>)
    requires
        start.wf(),
    ensures
        start.run(events).wf(),
        start.issued <= start.run(events).issued,
    decreases events.len(),
{
    if events.len() > 0 {
        lemma_run(start, events.drop_last());
        lemma_after(start.run(events.drop_last()), events.last());
    }
}

/// A connection that has left stays away: no later event registers its
/// identifier again.
pub proof fn lemma_gone_stays_gone<R>(start: Domain, events: Seq<Event<R>>, id: u64)
    requires
        start.wf(),
        id < start.issued,
        !start.live.contains(id),
    ensures
        !start.run(events).live.contains(id),
    decreases events.len(),
{
    if events.len() > 0 {
        let before = start.run(events.drop_last());
        lemma_gone_stays_gone(start, events.drop_last(), id);
        lemma_run(start, events.drop_last());
        lemma_after(before, events.last());
    }
}

/// A run in two parts: the second part starts where the first one ended, and
/// what a connection observed is what it observed in the first part followed
/// by what it observed in the second.
pub proof fn lemma_run_in_parts<R>(
    start: Domain,
    earlier: Seq<Event<R>>,
    later: Seq<Event<R>>,
    id: u64,
)
    ensures
        start.run(earlier + later) == start.run(earlier).run(later),
        start.observed(earlier + later, id) == start.observed(earlier, id) + start.run(
            earlier,
        ).observed(later, id),
        responses(earlier + later) == responses(earlier) + responses(later),
    decreases later.len(),
{
    if later.len() == 0 {
        assert(earlier + later =~= earlier);
    } else {
        assert((earlier + later).drop_last() =~= earlier + later.drop_last());
        assert((earlier + later).last() == later.last());
        lemma_run_in_parts(start, earlier, later.drop_last(), id);
    }
}

/// Global order. A connection that is registered before a run of events and
/// still registered after it has observed every response of the run, each
/// once, in the order in which the server relayed them. So all such
/// connections have observed the same sequence.
pub proof fn lemma_global_order<R>(start: Domain, events: Seq<Event<R>>, id: u64)
    requires
        start.wf(),
        start.live.contains(id),
        start.run(events).live.contains(id),
    ensures
        start.observed(events, id) == responses(events),
    decreases events.len(),
{
    if events.len() > 0 {
        let front = events.drop_last();
        let before = start.run(front);
        lemma_run(start, front);
        lemma_after(before, events.last());
        assert(id < start.issued) by {
            assert(start.live[start.live.index_of(id)] == id);
        }
        assert(before.live.contains(id));
        lemma_global_order(start, front, id);
        match events.last() {
            Event::Join => {},
            Event::Relay { response, accepted } => {
                lemma_kept_members(before.live, accepted, id);
            },
        }
    }
}

/// No replay. A connection whose identifier is not yet issued when a run of
/// events ends has observed nothing of that run: whatever it observes later
/// comes from later events only.
pub proof fn lemma_no_replay<R>(
    start: Domain,
    earlier: Seq<Event<R>>,
    later: Seq<Event<R>>,
    id: u64,
)
    requires
        start.wf(),
        start.run(earlier).issued <= id,
    ensures
        start.observed(earlier, id) == Seq::<R>::empty(),
        start.observed(earlier + later, id) == start.run(earlier).observed(later, id),
    decreases earlier.len(),
{
    if earlier.len() > 0 {
        let front = earlier.drop_last();
        let before = start.run(front);
        lemma_run(start, front);
        lemma_after(before, earlier.last());
        lemma_no_replay(start, front, Seq::<Event<R>>::empty(), id);
        match earlier.last() {
            Event::Join => {},
            Event::Relay { response, accepted } => {
                if took(before.live, accepted, id) {
                    let i = choose|i: int|
                        0 <= i < before.live.len() && i < accepted.len() && accepted[i]
                            && #[trigger] before.live[i] == id;
                    assert(before.live[i] < before.issued);
                }
            },
        }
    }
    lemma_run_in_parts(start, earlier, later, id);
}

/// No delivery after removal. A connection that has left the domain when a
/// run of events begins observes nothing of that run.
pub proof fn lemma_silent_once_gone<R>(start: Domain, events: Seq<Event<R>>, id: u64)
    requires
        start.wf(),
        id < start.issued,
        !start.live.contains(id),
    ensures
        start.observed(events, id) == Seq::<R>::empty(),
    decreases events.len(),
{
    if events.len() > 0 {
        let front = events.drop_last();
        let before = start.run(front);
        lemma_silent_once_gone(start, front, id);
        lemma_gone_stays_gone(start, front, id);
        match events.last() {
            Event::Join => {},
            Event::Relay { response, accepted } => {
                if took(before.live, accepted, id) {
                    let i = choose|i: int|
                        0 <= i < before.live.len() && i < accepted.len() && accepted[i]
                            && #[trigger] before.live[i] == id;
                    assert(before.live.contains(id));
                }
            },
        }
    }
}

/// Pruning. After a round, the registered connections are exactly the members
/// that took the response, in their old order; a member whose attempt failed
/// is gone with that round, and every later event leaves it out.
pub proof fn lemma_round_prunes<R>(
    domain: Domain,
    accepted: Seq<bool>,
    later: Seq<Event<R>>,
    i: int,
)
    requires
        domain.wf(),
        0 <= i < domain.live.len(),
    ensures
        domain.relay(accepted).wf(),
        (i < accepted.len() && accepted[i]) <==> domain.relay(accepted).live.contains(
            domain.live[i],
        ),
        !(i < accepted.len() && accepted[i]) ==> !domain.relay(accepted).run(later).live.contains(
            domain.live[i],
        ),
{
    let id = domain.live[i];
    let next = domain.relay(accepted);
    lemma_after(domain, Event::Relay { response: arbitrary::<R>(), accepted });
    assert(next == domain.after(Event::Relay { response: arbitrary::<R>(), accepted }));
    lemma_kept_members(domain.live, accepted, id);
    if took(domain.live, accepted, id) {
        let j = choose|j: int|
            0 <= j < domain.live.len() && j < accepted.len() && accepted[j]
                && #[trigger] domain.live[j] == id;
        if j < i {
            assert(domain.live[j] < domain.live[i]);
        }
        if i < j {
            assert(domain.live[i] < domain.live[j]);
        }
    }
    if !(i < accepted.len() && accepted[i]) {
        lemma_gone_stays_gone(next, later, id);
    }
}

} // verus!
