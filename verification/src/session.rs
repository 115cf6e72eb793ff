//! The decisions of the session: what a command, the answer to a connection
//! attempt, or the outcome of a decoding asks the program to do. The program
//! performs the effects; nothing here touches the outside world.

use crate::command::{Command, CommandView};
use crate::error::ProtocolError;
use crate::frame::{fits_frame, frame_of, send_register_username, send_text};
use crate::message::{Message, MessageView};
use vstd::prelude::*;

verus! {

/// Whether the session has an active connection.
#[derive(Debug, Clone, Copy, PartialEq, Eq, Structural)]
pub enum SessionState {
    /// No connection: no stream, no receive loop.
    Disconnected,
    /// One connection: a stream, and one receive loop that reads from it.
    Connected,
}

/// One thing that the program is asked to do.
#[derive(Debug, PartialEq, Eq)]
pub enum Effect {
    /// Write these bytes to the stream of the active connection.
    Transmit(Vec<u8>),
    /// Tell the user what went wrong.
    Report(ProtocolError),
    /// Try to open a stream to this address, then call [`connect`] with the
    /// answer.
    Dial(String),
    /// Raise the stop flag of the running receive loop.
    SignalStop,
    /// Wait until the running receive loop has ended.
    AwaitReceiver,
    /// Release the stream of the connection that is being closed.
    ReleaseStream,
    /// Start a receive loop on a duplicate of the stream that was opened
    /// last, with a fresh stop flag, and keep that stream for sending.
    StartReceiver,
    /// Leave the session loop.
    Leave,
}

/// The mathematical value of an [`Effect`].
pub enum EffectView {
    Transmit(Seq<u8>),
    Report(ProtocolError),
    Dial(Seq<char>),
    SignalStop,
    AwaitReceiver,
    ReleaseStream,
    StartReceiver,
    Leave,
}

impl View for Effect {
    type V = EffectView;

    open spec fn view(&self) -> EffectView {
        match self {
            Effect::Transmit(bytes) => EffectView::Transmit(bytes@),
            Effect::Report(error) => EffectView::Report(*error),
            Effect::Dial(address) => EffectView::Dial(address@),
            Effect::SignalStop => EffectView::SignalStop,
            Effect::AwaitReceiver => EffectView::AwaitReceiver,
            Effect::ReleaseStream => EffectView::ReleaseStream,
            Effect::StartReceiver => EffectView::StartReceiver,
            Effect::Leave => EffectView::Leave,
        }
    }
}

/// The mathematical value of a list of effects, in order.
pub open spec fn plan_view(plan: Vec<Effect>) -> Seq<EffectView> {
    plan@.map_values(|effect: Effect| effect@)
}

impl SessionState {
    /// What closes the connection, if there is one: the receive loop is told
    /// to stop and has ended before the stream is released.
    pub open spec fn teardown(self) -> Seq<EffectView> {
        match self {
            SessionState::Connected => seq![
                EffectView::SignalStop,
                EffectView::AwaitReceiver,
                EffectView::ReleaseStream,
            ],
            SessionState::Disconnected => Seq::empty(),
        }
    }

    /// What sends `message`: its frame goes out over the active connection;
    /// without one the failure is reported.
    pub open spec fn sending(self, message: MessageView) -> Seq<EffectView> {
        match self {
            SessionState::Disconnected => seq![EffectView::Report(ProtocolError::NotConnected)],
            SessionState::Connected => if fits_frame(message) {
                seq![EffectView::Transmit(frame_of(message))]
            } else {
                seq![EffectView::Report(ProtocolError::Malformed)]
            },
        }
    }

    /// What a command asks for in this state.
    pub open spec fn plan(self, command: CommandView) -> Seq<EffectView> {
        match command {
            CommandView::Text(text) => self.sending(MessageView::UserText(text)),
            CommandView::RegisterUsername(name) => self.sending(
                MessageView::RegisterUsername(name),
            ),
            CommandView::Connect(address) => seq![EffectView::Dial(address)],
            CommandView::Disconnect => self.teardown(),
            CommandView::Quit => self.teardown().push(EffectView::Leave),
        }
    }

    /// The state after a command.
    pub open spec fn after(self, command: CommandView) -> SessionState {
        match command {
            CommandView::Disconnect => SessionState::Disconnected,
            CommandView::Quit => SessionState::Disconnected,
            _ => self,
        }
    }

    /// What the answer to a connection attempt asks for: a stream that was
    /// opened takes the place of the connection that was active, which is
    /// closed first; a failure is reported.
    pub open spec fn connecting(self, opened: bool) -> Seq<EffectView> {
        if opened {
            self.teardown().push(EffectView::StartReceiver)
        } else {
            seq![EffectView::Report(ProtocolError::ConnectFailed)]
        }
    }

    /// The state after the answer to a connection attempt.
    pub open spec fn after_connecting(self, opened: bool) -> SessionState {
        if opened {
            SessionState::Connected
        } else {
            self
        }
    }
}

impl SessionState {
    /// The number of receive loops that run in this state.
    pub open spec fn receivers(self) -> int {
        match self {
            SessionState::Connected => 1,
            SessionState::Disconnected => 0,
        }
    }
}

/// The number of receive loops that run once `effect` has been performed,
/// where `running` ran before: starting one adds it, and one whose end has
/// been awaited runs no more.
pub open spec fn receivers_after(running: int, effect: EffectView) -> int {
    match effect {
        EffectView::StartReceiver => running + 1,
        EffectView::AwaitReceiver => running - 1,
        _ => running,
    }
}

/// The number of receive loops that run once the first `done` effects of
/// `plan` have been performed in order, where `running` ran before.
pub open spec fn receivers_during(running: int, plan: Seq<EffectView>, done: int) -> int
    decreases done,
{
    if done <= 0 {
        running
    } else {
        receivers_after(receivers_during(running, plan, done - 1), plan[done - 1])
    }
}

/// While the effects of a command are performed, never more than one
/// receive loop runs, none is awaited that does not run, and at the end one
/// runs exactly if the session is connected.
pub proof fn lemma_one_receiver_on_command(state: SessionState, command: CommandView, done: int)
    requires
        0 <= done <= state.plan(command).len(),
    ensures
        0 <= receivers_during(state.receivers(), state.plan(command), done) <= 1,
        receivers_during(state.receivers(), state.plan(command), state.plan(command).len() as int)
            == state.after(command).receivers(),
{
    reveal_with_fuel(receivers_during, 5);
}

/// While the effects of the answer to a connection attempt are performed,
/// never more than one receive loop runs: the loop of the connection that
/// is replaced has ended before the new one starts. At the end one runs
/// exactly if the session is connected.
pub proof fn lemma_one_receiver_on_connect(state: SessionState, opened: bool, done: int)
    requires
        0 <= done <= state.connecting(opened).len(),
    ensures
        0 <= receivers_during(state.receivers(), state.connecting(opened), done) <= 1,
        receivers_during(
            state.receivers(),
            state.connecting(opened),
            state.connecting(opened).len() as int,
        ) == state.after_connecting(opened).receivers(),
{
    reveal_with_fuel(receivers_during, 5);
}

/// Closes the connection, if there is one.
///
/// The effects stop the receive loop, wait for its end and release the
/// stream, in this order. Without a connection there is nothing to do.
pub fn disconnect(state: SessionState) -> (next: (SessionState, Vec<Effect>))
    ensures
        next.0 == SessionState::Disconnected,
        plan_view(next.1) == state.teardown(),
{
    let mut plan: Vec<Effect> = Vec::new();
    match state {
        SessionState::Connected => {
            plan.push(Effect::SignalStop);
            plan.push(Effect::AwaitReceiver);
            plan.push(Effect::ReleaseStream);
        },
        SessionState::Disconnected => {},
    }
    assert(plan_view(plan) =~= state.teardown());
    (SessionState::Disconnected, plan)
}

/// Takes the answer to a connection attempt.
///
/// A stream that was opened becomes the connection: a connection that was
/// active is closed first, then the receive loop is started on the new
/// stream. A failure is reported and leaves the state as it was.
pub fn connect(state: SessionState, opened: bool) -> (next: (SessionState, Vec<Effect>))
    ensures
        next.0 == state.after_connecting(opened),
        plan_view(next.1) == state.connecting(opened),
{
    if opened {
        let (_, mut plan) = disconnect(state);
        plan.push(Effect::StartReceiver);
        assert(plan_view(plan) =~= state.connecting(opened));
        (SessionState::Connected, plan)
    } else {
        let mut plan: Vec<Effect> = Vec::new();
        plan.push(Effect::Report(ProtocolError::ConnectFailed));
        assert(plan_view(plan) =~= state.connecting(opened));
        (state, plan)
    }
}

/// The effects of an attempt to send: the bytes that the attempt wrote go
/// out, a failure is reported.
fn transmission(stream: Option<Vec<u8>>, result: Result<(), ProtocolError>) -> (plan: Vec<Effect>)
    ensures
        plan_view(plan) == match (result, stream) {
            (Ok(_), Some(bytes)) => seq![EffectView::Transmit(bytes@)],
            (Ok(_), None) => Seq::empty(),
            (Err(error), _) => seq![EffectView::Report(error)],
        },
{
    let mut plan: Vec<Effect> = Vec::new();
    match result {
        Ok(_) => {
            if let Some(bytes) = stream {
                plan.push(Effect::Transmit(bytes));
                assert(plan_view(plan) =~= seq![EffectView::Transmit(bytes@)]);
            } else {
                assert(plan_view(plan) =~= Seq::empty());
            }
        },
        Err(error) => {
            plan.push(Effect::Report(error));
            assert(plan_view(plan) =~= seq![EffectView::Report(error)]);
        },
    }
    plan
}

/// An empty stream where the session is connected, none where it is not.
fn outbound(state: SessionState) -> (stream: Option<Vec<u8>>)
    ensures
        state == SessionState::Disconnected ==> stream is None,
        state == SessionState::Connected ==> (stream matches Some(bytes) && bytes@ == Seq::<
            u8,
        >::empty()),
{
    match state {
        SessionState::Connected => Some(Vec::new()),
        SessionState::Disconnected => None,
    }
}

/// Takes one command and says what the program is to do and in which state
/// the session then is.
///
/// A chat line or a registration goes out over the active connection, or is
/// reported as not sent. A connect command asks for a connection attempt,
/// whose answer goes to [`connect`]. Disconnecting closes the connection;
/// quitting closes it and leaves the loop.
pub fn dispatch(state: SessionState, command: Command) -> (next: (SessionState, Vec<Effect>))
    ensures
        next.0 == state.after(command@),
        plan_view(next.1) == state.plan(command@),
{
    match command {
        Command::Text(v) => {
            let mut stream = outbound(state);
            let result = send_text(v, &mut stream);
            assert(Seq::<u8>::empty() + frame_of(MessageView::UserText(v@)) =~= frame_of(
                MessageView::UserText(v@),
            ));
            (state, transmission(stream, result))
        },
        Command::RegisterUsername(v) => {
            let mut stream = outbound(state);
            let result = send_register_username(v, &mut stream);
            assert(Seq::<u8>::empty() + frame_of(MessageView::RegisterUsername(v@)) =~= frame_of(
                MessageView::RegisterUsername(v@),
            ));
            (state, transmission(stream, result))
        },
        Command::Connect(v) => {
            let mut plan: Vec<Effect> = Vec::new();
            plan.push(Effect::Dial(v));
            assert(plan_view(plan) =~= state.plan(command@));
            (state, plan)
        },
        Command::Disconnect => disconnect(state),
        Command::Quit => {
            let (next, mut plan) = disconnect(state);
            plan.push(Effect::Leave);
            assert(plan_view(plan) =~= state.plan(command@));
            (next, plan)
        },
    }
}

} // verus!
