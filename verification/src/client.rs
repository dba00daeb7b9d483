//! The client's event loop. Two sources feed it, the keyboard and the
//! connection. The loop itself touches neither the application nor the
//! connection: for everything that happens it hands out the steps to take,
//! in order, as plain values, and the host takes them. Which hook runs
//! when, what is sent and when the loop ends is decided here.

use vstd::prelude::*;

verus! {

/// A key press, as the terminal reports it.
#[derive(Debug, Clone, Copy, PartialEq, Eq)]
pub enum Key {
    Backspace,
    Left,
    Right,
    Up,
    Down,
    Home,
    End,
    PageUp,
    PageDown,
    BackTab,
    Delete,
    Insert,
    /// A function key, by its number.
    F(u8),
    /// A character key.
    Char(char),
    /// A character key pressed with Alt.
    Alt(char),
    /// A character key pressed with Ctrl.
    Ctrl(char),
    /// The null byte.
    Null,
    Esc,
}

/// What `ShellClient::on_key` asks of the loop after a key press.
#[derive(Debug, Clone, PartialEq, Eq)]
pub enum KeyAction<M> {
    DoNothing,
    /// Leave the shared terminal.
    Exit,
    /// Send the message to the server.
    SendMessage(M),
}

/// What the hosting application supplies to a client: how it reacts to keys
/// and responses, and how it draws itself. The host calls these hooks as
/// the steps of the loop tell it to.
pub trait ShellClient<M, R> {
    /// Reacts to one key press and tells the loop what to do next.
    fn on_key(&mut self, key: Key) -> KeyAction<M>;

    /// Takes in one response that the server broadcast.
    fn receive_response(&mut self, response: R);

    /// Sets the display up, once, before the first event.
    fn first_draw(&mut self);

    /// Brings the display up to date, once after every event.
    fn draw(&mut self);

    /// Restores the terminal, once, when the loop has ended.
    fn last_draw(&mut self);
}

/// One event of the loop, from whichever source was first.
#[derive(Debug, Clone, PartialEq, Eq)]
pub enum ClientEvent<R> {
    /// A key was pressed.
    Key(Key),
    /// The server broadcast a response.
    Response(R),
    /// The connection has ended: no response will come any more.
    Closed,
}

/// One thing for the host to do: call a hook with what is given, or hand a
/// message to the connection.
#[derive(Debug, Clone, PartialEq, Eq)]
pub enum Step<M, R> {
    /// Call `first_draw`.
    FirstDraw,
    /// Call `on_key` with this key and give the answer to `on_answer`.
    OnKey(Key),
    /// Call `receive_response` with this response.
    ReceiveResponse(R),
    /// Send this message over the connection, and wait until it is sent.
    Send(M),
    /// Call `draw`.
    Draw,
    /// Call `last_draw`.
    LastDraw,
}

/// Where the loop stands.
#[derive(Debug, Clone, Copy, PartialEq, Eq)]
pub enum Phase {
    /// It waits for the next event.
    Waiting,
    /// It has handed this key to `on_key` and waits for the answer.
    Asking(Key),
    /// It has ended.
    Ended,
}

/// What the loop did with one thing that happened: where it stands now, and
/// the steps for the host to take, in this order, before anything else.
#[derive(Debug, Clone, PartialEq, Eq)]
pub struct Turn<M, R> {
    pub phase: Phase,
    pub steps: Vec<Step<M, R>>,
}

impl<M, R> View for Turn<M, R> {
    type V = (Phase, Seq<Step<M, R>>);

    open spec fn view(&self) -> (Phase, Seq<Step<M, R>>) {
        (self.phase, self.steps@)
    }
}

/// One thing that happens to the loop: an event, or the answer of `on_key`
/// to the key it was last asked about.
pub enum Input<M, R> {
    Event(ClientEvent<R>),
    Answer(KeyAction<M>),
}

/// The start of a loop whose connection stands: the first draw, then it
/// waits.
pub open spec fn started<M, R>() -> (Phase, Seq<Step<M, R>>) {
    (Phase::Waiting, seq![Step::FirstDraw])
}

/// What a loop does with an event. While it waits, a key goes to `on_key`
/// and the loop asks; a response goes to `receive_response` and is drawn;
/// the end of the connection ends the loop with the last draw. A loop that
/// asks or has ended takes no event: nothing is done and nothing changes.
pub open spec fn after_event<M, R>(phase: Phase, event: ClientEvent<R>) -> (
    Phase,
    Seq<Step<M, R>>,
) {
    match phase {
        Phase::Waiting => match event {
            ClientEvent::Key(key) => (Phase::Asking(key), seq![Step::OnKey(key)]),
            ClientEvent::Response(response) => (
                Phase::Waiting,
                seq![Step::ReceiveResponse(response), Step::Draw],
            ),
            ClientEvent::Closed => (Phase::Ended, seq![Step::LastDraw]),
        },
        _ => (phase, Seq::empty()),
    }
}

/// What a loop does with the answer of `on_key`. While it asks: on
/// `DoNothing` it draws and waits; on `SendMessage` the message is sent,
/// then it draws and waits; on `Exit` it ends with the last draw. A loop
/// that did not ask takes no answer.
pub open spec fn after_answer<M, R>(phase: Phase, action: KeyAction<M>) -> (
    Phase,
    Seq<Step<M, R>>,
) {
    match phase {
        Phase::Asking(key) => match action {
            KeyAction::DoNothing => (Phase::Waiting, seq![Step::Draw]),
            KeyAction::SendMessage(message) => (
                Phase::Waiting,
                seq![Step::Send(message), Step::Draw],
            ),
            KeyAction::Exit => (Phase::Ended, seq![Step::LastDraw]),
        },
        _ => (phase, Seq::empty()),
    }
}

/// What a loop does with one input.
pub open spec fn after<M, R>(phase: Phase, input: Input<M, R>) -> (Phase, Seq<Step<M, R>>) {
    match input {
        Input::Event(event) => after_event(phase, event),
        Input::Answer(action) => after_answer(phase, action),
    }
}

/// Where a loop stands after a run of inputs, and every step it handed out
/// for them, oldest first.
pub open spec fn run<M, R>(phase: Phase, inputs: Seq<Input<M, R>>) -> (Phase, Seq<Step<M, R>>)
    decreases inputs.len(),
{
    if inputs.len() == 0 {
        (phase, Seq::empty())
    } else {
        let before = run(phase, inputs.drop_last());
        let last = after(before.0, inputs.last());
        (last.0, before.1 + last.1)
    }
}

/// The messages among the steps that are to be sent, oldest first.
pub open spec fn sent<M, R>(steps: Seq<Step<M, R>>) -> Seq<M>
    decreases steps.len(),
{
    if steps.len() == 0 {
        Seq::empty()
    } else {
        let earlier = sent(steps.drop_last());
        match steps.last() {
            Step::Send(message) => earlier.push(message),
            _ => earlier,
        }
    }
}

/// The messages that `on_key` asked to send during a run of inputs, oldest
/// first: those of the answers `SendMessage` that the loop took.
pub open spec fn asked<M, R>(phase: Phase, inputs: Seq<Input<M, R>>) -> Seq<M>
    decreases inputs.len(),
{
    if inputs.len() == 0 {
        Seq::empty()
    } else {
        let earlier = asked(phase, inputs.drop_last());
        match (run(phase, inputs.drop_last()).0, inputs.last()) {
            (Phase::Asking(key), Input::Answer(KeyAction::SendMessage(message))) => earlier.push(
                message,
            ),
            _ => earlier,
        }
    }
}

/// Starts the loop, given how the attempt to connect went. If a connection
/// was made, the first draw is to be done and the loop waits. If none was
/// made, the error goes to the caller as it came: there is no step, so no
/// hook runs, and nothing is tried again.
pub fn connect<M, R, E>(attempt: Result<(), E>) -> (begun: Result<Turn<M, R>, E>)
    ensures
        match attempt {
            Ok(made) => begun matches Ok(turn) && turn@ == started::<M, R>(),
            Err(cause) => begun == Err::<Turn<M, R>, E>(cause),
        },
{
    match attempt {
        Ok(made) => {
            let mut steps: Vec<Step<M, R>> = Vec::new();
            steps.push(Step::FirstDraw);
            assert(steps@ =~= seq![Step::FirstDraw]);
            Ok(Turn { phase: Phase::Waiting, steps })
        },
        Err(cause) => Err(cause),
    }
}

/// Handles one event: tells where the loop stands after it and which steps
/// the host is to take for it, as `after_event` says.
pub fn on_event<M, R>(phase: Phase, event: ClientEvent<R>) -> (turn: Turn<M, R>)
    ensures
        turn@ == after_event::<M, R>(phase, event),
{
    let mut steps: Vec<Step<M, R>> = Vec::new();
    match phase {
        Phase::Waiting => match event {
            ClientEvent::Key(key) => {
                steps.push(Step::OnKey(key));
                assert(steps@ =~= seq![Step::OnKey(key)]);
                Turn { phase: Phase::Asking(key), steps }
            },
            ClientEvent::Response(response) => {
                steps.push(Step::ReceiveResponse(response));
                steps.push(Step::Draw);
                assert(steps@ =~= seq![Step::ReceiveResponse(response), Step::Draw]);
                Turn { phase: Phase::Waiting, steps }
            },
            ClientEvent::Closed => {
                steps.push(Step::LastDraw);
                assert(steps@ =~= seq![Step::LastDraw]);
                Turn { phase: Phase::Ended, steps }
            },
        },
        _ => Turn { phase, steps },
    }
}

/// Handles the answer of `on_key` to the key the loop asked about: tells
/// where the loop stands after it and which steps the host is to take, as
/// `after_answer` says.
pub fn on_answer<M, R>(phase: Phase, action: KeyAction<M>) -> (turn: Turn<M, R>)
    ensures
        turn@ == after_answer::<M, R>(phase, action),
{
    let mut steps: Vec<Step<M, R>> = Vec::new();
    match phase {
        Phase::Asking(key) => match action {
            KeyAction::DoNothing => {
                steps.push(Step::Draw);
                assert(steps@ =~= seq![Step::Draw]);
                Turn { phase: Phase::Waiting, steps }
            },
            KeyAction::SendMessage(message) => {
                steps.push(Step::Send(message));
                steps.push(Step::Draw);
                assert(steps@ =~= seq![Step::Send(message), Step::Draw]);
                Turn { phase: Phase::Waiting, steps }
            },
            KeyAction::Exit => {
                steps.push(Step::LastDraw);
                assert(steps@ =~= seq![Step::LastDraw]);
                Turn { phase: Phase::Ended, steps }
            },
        },
        _ => Turn { phase, steps },
    }
}

/// When the loop ends. One input ends a running loop exactly if it is the
/// end of the connection, taken while the loop waits, or the answer `Exit`,
/// taken while it asks. No key, no response, and neither `DoNothing` nor
/// `SendMessage` ends it. The last draw is handed out exactly then.
pub proof fn lemma_when_ended<M, R>(phase: Phase, input: Input<M, R>)
    ensures
        after(phase, input).0 is Ended <==> {
            ||| phase is Ended
            ||| phase is Waiting && input == Input::<M, R>::Event(ClientEvent::Closed)
            ||| phase is Asking && input == Input::<M, R>::Answer(KeyAction::Exit)
        },
        after(phase, input).1.contains(Step::LastDraw) <==> !(phase is Ended) && after(
            phase,
            input,
        ).0 is Ended,
{
    let steps = after(phase, input).1;
    if !(phase is Ended) && after(phase, input).0 is Ended {
        assert(steps[0] == Step::<M, R>::LastDraw);
    }
}

/// An ended loop stays ended: whatever comes, it hands out no step.
pub proof fn lemma_ended_for_good<M, R>(inputs: Seq<Input<M, R>>)
    ensures
        run(Phase::Ended, inputs) == (Phase::Ended, Seq::<Step<M, R>>::empty()),
    decreases inputs.len(),
{
    if inputs.len() > 0 {
        lemma_ended_for_good(inputs.drop_last());
        assert(Seq::<Step<M, R>>::empty() + Seq::<Step<M, R>>::empty() =~= Seq::<
            Step<M, R>,
        >::empty());
    }
}

/// The messages to send among two runs of steps are those of the first
/// followed by those of the second.
pub proof fn lemma_sent_of_both<M, R>(first: Seq<Step<M, R>>, second: Seq<Step<M, R>>)
    ensures
        sent(first + second) == sent(first) + sent(second),
    decreases second.len(),
{
    if second.len() == 0 {
        assert(first + second =~= first);
        assert(sent(first) + sent(second) =~= sent(first));
    } else {
        assert((first + second).drop_last() =~= first + second.drop_last());
        lemma_sent_of_both(first, second.drop_last());
        match second.last() {
            Step::Send(message) => {
                assert(sent(first) + sent(second.drop_last()).push(message) =~= (sent(first)
                    + sent(second.drop_last())).push(message));
            },
            _ => {},
        }
    }
}

/// What is sent is what was asked. Over any run of inputs, the messages
/// that the loop hands out to be sent are exactly the messages that `on_key`
/// answered with `SendMessage`, in the order of the keys, each once; and
/// each is followed at once by the draw of its key.
pub proof fn lemma_sent_is_asked<M, R>(phase: Phase, inputs: Seq<Input<M, R>>)
    ensures
        sent(run(phase, inputs).1) == asked(phase, inputs),
        forall|i: int|
            0 <= i < run(phase, inputs).1.len() && (#[trigger] run(phase, inputs).1[i]) is Send
                ==> i + 1 < run(phase, inputs).1.len() && run(phase, inputs).1[i + 1] is Draw,
    decreases inputs.len(),
{
    reveal_with_fuel(sent, 3);
    if inputs.len() > 0 {
        let before = run(phase, inputs.drop_last());
        let last = after(before.0, inputs.last());
        lemma_sent_is_asked(phase, inputs.drop_last());
        lemma_sent_of_both(before.1, last.1);
        assert(sent(last.1) =~= match (before.0, inputs.last()) {
            (Phase::Asking(key), Input::Answer(KeyAction::SendMessage(message))) => seq![message],
            _ => Seq::empty(),
        }) by {
            if last.1.len() == 2 {
                assert(last.1.drop_last().drop_last() =~= Seq::<Step<M, R>>::empty());
            }
            if last.1.len() == 1 {
                assert(last.1.drop_last() =~= Seq::<Step<M, R>>::empty());
            }
        }
        let all = before.1 + last.1;
        assert forall|i: int| 0 <= i < all.len() && (#[trigger] all[i]) is Send implies i + 1
            < all.len() && all[i + 1] is Draw by {
            if i < before.1.len() {
                assert(before.1[i] is Send);
                assert(all[i + 1] == before.1[i + 1]);
            } else {
                assert(last.1[i - before.1.len()] is Send);
                assert(all[i + 1] == last.1[i + 1 - before.1.len()]);
            }
        }
    }
}

/// The last draw is the last step. Over any run of inputs from a running
/// loop, the last draw is handed out at most once, as the very last step,
/// and only by a loop that has ended.
pub proof fn lemma_last_draw_is_last<M, R>(phase: Phase, inputs: Seq<Input<M, R>>, i: int)
    requires
        !(phase is Ended),
        0 <= i < run(phase, inputs).1.len(),
        run(phase, inputs).1[i] is LastDraw,
    ensures
        i == run(phase, inputs).1.len() - 1,
        run(phase, inputs).0 is Ended,
    decreases inputs.len(),
{
    if inputs.len() > 0 {
        let front = inputs.drop_last();
        let before = run(phase, front);
        let last = after(before.0, inputs.last());
        if i < before.1.len() {
            lemma_last_draw_is_last(phase, front, i);
            assert(last.1 =~= Seq::<Step<M, R>>::empty());
        } else {
            assert(last.1[i - before.1.len()] is LastDraw);
        }
    }
}

} // verus!
