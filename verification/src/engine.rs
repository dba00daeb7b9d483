//! The server's engine: one consumer that answers every inbound message
//! once, in the order in which it takes them, and broadcasts each answer
//! before it takes the next message.

use crate::domain::{kept, took, Event};
use crate::registry::Registry;
use vstd::prelude::*;

verus! {

/// What the hosting application supplies to a server: the function that
/// turns one inbound message into the response that every client receives.
pub trait ShellServer<M, R> {
    /// The response to `input`.
    fn process_input(&self, input: M) -> R;
}

/// The response to one message, computed and not yet broadcast.
pub struct Answered<R> {
    response: R,
}

/// What one turn of the engine did.
pub struct Relayed<R> {
    /// The response that was computed and offered.
    pub response: R,
    /// One outcome per connection that was registered, oldest first: whether
    /// its channel took the response.
    pub accepted: Vec<bool>,
}

/// The first half of a turn: computes the response to `input` with one call
/// of `process_input`. What comes back holds what that call gave for this
/// input. No registry is needed for it.
pub fn answer<S, M, R>(server: &S, input: M) -> (answered: Answered<R>) where S: ShellServer<M, R>
    ensures
        call_ensures(S::process_input, (server, input), answered.response()),
{
    Answered { response: server.process_input(input) }
}

impl<R> Answered<R> {
    /// The response that was computed.
    pub closed spec fn response(&self) -> R {
        self.response
    }

    /// The second half of a turn: broadcasts the response to every
    /// registered connection, one attempt each, and drops in the same pass
    /// each connection that did not take it. The registry is needed for the
    /// time of this pass only.
    pub fn relay(self, registry: &mut Registry<R>) -> (relayed: Relayed<R>) where R: Clone
        ensures
            relayed.response == self.response(),
            final(registry).wf(),
            relayed.accepted.len() == old(registry)@.live.len(),
            final(registry)@ == old(registry)@.relay(relayed.accepted@),
            final(registry).channels() == kept(old(registry).channels(), relayed.accepted@),
            final(registry).history() == old(registry).history().push(
                Event::Relay { response: relayed.response, accepted: relayed.accepted@ },
            ),
            final(registry).relayed() == old(registry).relayed().push(relayed.response),
            forall|id: u64|
                #[trigger] final(registry).observed(id) == if took(
                    old(registry)@.live,
                    relayed.accepted@,
                    id,
                ) {
                    old(registry).observed(id).push(relayed.response)
                } else {
                    old(registry).observed(id)
                },
    {
        let Answered { response } = self;
        let accepted = registry.broadcast(&response);
        Relayed { response, accepted }
    }
}

/// One turn of the engine: computes the response to `input` with one call of
/// `process_input`, then broadcasts what that call gave to every registered
/// connection and drops, in the same pass, each connection that did not take
/// it.
pub fn serve<S, M, R>(server: &S, registry: &mut Registry<R>, input: M) -> (relayed: Relayed<R>)
    where S: ShellServer<M, R>, R: Clone
    ensures
        call_ensures(S::process_input, (server, input), relayed.response),
        final(registry).wf(),
        relayed.accepted.len() == old(registry)@.live.len(),
        final(registry)@ == old(registry)@.relay(relayed.accepted@),
        final(registry).channels() == kept(old(registry).channels(), relayed.accepted@),
        final(registry).history() == old(registry).history().push(
            Event::Relay { response: relayed.response, accepted: relayed.accepted@ },
        ),
        final(registry).relayed() == old(registry).relayed().push(relayed.response),
        forall|id: u64|
            #[trigger] final(registry).observed(id) == if took(
                old(registry)@.live,
                relayed.accepted@,
                id,
            ) {
                old(registry).observed(id).push(relayed.response)
            } else {
                old(registry).observed(id)
            },
{
    let answered = answer(server, input);
    answered.relay(registry)
}

} // verus!
