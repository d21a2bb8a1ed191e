//! The session manager: the life of one client's streaming connection, and
//! the two operations that the transport calls.
//!
//! Connecting registers the client's outbound channel and leaves the session
//! active. From then on a pump moves messages from the channel to the client's
//! stream. The pump waits on the channel and on the stream, which only the
//! caller can do; what to do after each such step is decided here, by
//! [`Session::step`].

use crate::broadcast::FanOut;
use crate::message::{Message, SendError, SendRequest};
use crate::registry::{order_with, order_without, Registry};
use crate::CHANNEL_CAPACITY;
use tokio::sync::mpsc::{Receiver, Sender};
use vstd::prelude::*;

verus! {

/// Where a session stands.
#[derive(Clone, Copy, Debug, PartialEq, Eq, Structural)]
pub enum SessionState {
    /// Registered; the pump is running.
    Active,
    /// Forwarding to the client failed: the identity is to be deregistered
    /// and the pump has stopped. Nothing follows.
    Terminating,
    /// The outbound channel was closed from the registry's side, by a later
    /// connection under the same identity or by a deregistration. The pump
    /// has stopped. Nothing follows.
    Closed,
}

/// What happened to the pump's last action.
#[derive(Debug, PartialEq, Eq)]
pub enum PumpEvent {
    /// The outbound channel handed over a message.
    Received(Message),
    /// The client's stream took the forwarded message.
    Forwarded,
    /// The client's stream did not take the forwarded message.
    ForwardFailed,
    /// The outbound channel is closed and empty.
    ChannelClosed,
}

/// What the pump does next.
#[derive(Debug, PartialEq, Eq)]
pub enum PumpAction {
    /// Wait for the next message on the outbound channel.
    Receive,
    /// Forward this message to the client's stream.
    Forward(Message),
    /// Deregister the session's identity, then stop.
    Deregister,
    /// Stop.
    Stop,
}

/// The session's next state and the pump's next action, for a state and what
/// happened in it.
pub open spec fn transition(state: SessionState, event: PumpEvent) -> (SessionState, PumpAction) {
    match state {
        SessionState::Active => match event {
            PumpEvent::Received(message) => (SessionState::Active, PumpAction::Forward(message)),
            PumpEvent::Forwarded => (SessionState::Active, PumpAction::Receive),
            PumpEvent::ForwardFailed => (SessionState::Terminating, PumpAction::Deregister),
            PumpEvent::ChannelClosed => (SessionState::Closed, PumpAction::Stop),
        },
        SessionState::Terminating => (SessionState::Terminating, PumpAction::Stop),
        SessionState::Closed => (SessionState::Closed, PumpAction::Stop),
    }
}

/// The state after a run of events, one after the other.
pub open spec fn state_after(state: SessionState, events: Seq<PumpEvent>) -> SessionState
    decreases events.len(),
{
    if events.len() == 0 {
        state
    } else {
        transition(state_after(state, events.drop_last()), events.last()).0
    }
}

/// One client's streaming connection.
pub struct Session {
    identity: String,
    state: SessionState,
}

impl Session {
    /// The identity that the client connected under.
    pub closed spec fn identity(&self) -> Seq<char> {
        self.identity@
    }

    /// Where the session stands.
    pub closed spec fn state(&self) -> SessionState {
        self.state
    }

    /// Connects a client: creates its outbound channel, registers the
    /// channel's sending half under `identity`, displacing a channel
    /// registered under it before, and starts the session. The receiving
    /// half goes to the pump, whose first action is to wait for a message.
    /// Every other registration stays as it is.
    pub fn connect(identity: String, registry: &mut Registry<Sender<Message>>) -> (opened: (
        Session,
        Receiver<Message>,
    ))
        ensures
            opened.0.identity() == identity@,
            opened.0.state() == SessionState::Active,
            final(registry)@.contains_key(identity@),
            final(registry)@ == old(registry)@.insert(identity@, final(registry)@[identity@]),
            final(registry).order() == order_with(old(registry).order(), identity@),
            final(registry).consistent(),
    {
        let (sender, receiver) = tokio::sync::mpsc::channel(CHANNEL_CAPACITY);
        let session = Session::connect_with(identity, sender, registry);
        (session, receiver)
    }

    /// Connects a client whose outbound channel exists already: registers
    /// `channel` under `identity`, displacing a channel registered under it
    /// before, and starts the session.
    pub fn connect_with<C>(identity: String, channel: C, registry: &mut Registry<C>) -> (session:
        Session)
        ensures
            session.identity() == identity@,
            session.state() == SessionState::Active,
            final(registry)@ == old(registry)@.insert(identity@, channel),
            final(registry).order() == order_with(old(registry).order(), identity@),
            final(registry).consistent(),
    {
        let name = identity.clone();
        let _ = registry.register(identity, channel);
        Session { identity: name, state: SessionState::Active }
    }

    /// The identity that the client connected under.
    pub fn name(&self) -> (identity: &String)
        ensures
            identity@ == self.identity(),
    {
        &self.identity
    }

    /// Where the session stands.
    pub fn current_state(&self) -> (state: SessionState)
        ensures
            state == self.state(),
    {
        self.state
    }

    /// Takes what happened to the pump's last action and decides the next one.
    pub fn step(&mut self, event: PumpEvent) -> (action: PumpAction)
        ensures
            final(self).identity() == old(self).identity(),
            (final(self).state(), action) == transition(old(self).state(), event),
    {
        match self.state {
            SessionState::Active => match event {
                PumpEvent::Received(message) => PumpAction::Forward(message),
                PumpEvent::Forwarded => PumpAction::Receive,
                PumpEvent::ForwardFailed => {
                    self.state = SessionState::Terminating;
                    PumpAction::Deregister
                },
                PumpEvent::ChannelClosed => {
                    self.state = SessionState::Closed;
                    PumpAction::Stop
                },
            },
            SessionState::Terminating => PumpAction::Stop,
            SessionState::Closed => PumpAction::Stop,
        }
    }

    /// Carries out the cleanup that a terminating session owes: removes its
    /// identity from `registry` and hands back the channel found there. In
    /// any other state, and where the identity is no longer registered,
    /// nothing changes.
    pub fn cleanup<C>(&self, registry: &mut Registry<C>) -> (removed: Option<C>)
        ensures
            self.state() == SessionState::Terminating ==> {
                &&& final(registry)@ == old(registry)@.remove(self.identity())
                &&& final(registry).order() == order_without(old(registry).order(), self.identity())
                &&& removed == (if old(registry)@.contains_key(self.identity()) {
                    Some(old(registry)@[self.identity()])
                } else {
                    None
                })
            },
            self.state() != SessionState::Terminating ==> {
                &&& final(registry)@ == old(registry)@
                &&& final(registry).order() == old(registry).order()
                &&& removed is None
            },
    {
        match self.state {
            SessionState::Terminating => registry.deregister(&self.identity),
            _ => None,
        }
    }
}

/// Takes a request to send: a request without a message is turned down, and
/// for any other the broadcast of its message to everybody in `registry`
/// starts. The registry is only read.
pub fn send<'a, C>(registry: &'a Registry<C>, request: SendRequest) -> (outcome: Result<
    FanOut<'a, C>,
    SendError,
>)
    ensures
        request.message is None ==> outcome == Err::<FanOut<'a, C>, SendError>(
            SendError::InvalidArgument,
        ),
        request.message is Some ==> {
            &&& outcome is Ok
            &&& (outcome->Ok_0).message() == request.message->0
            &&& (outcome->Ok_0).recipients() == registry.order()
            &&& (outcome->Ok_0).channels() == registry@
            &&& (outcome->Ok_0).outcomes() == Seq::<bool>::empty()
        },
{
    match request.validate() {
        Ok(message) => Ok(registry.broadcast(message)),
        Err(error) => Err(error),
    }
}

/// Once the pump has stopped it stays stopped: in a final state every event
/// leaves the state as it is and asks for nothing but to stop.
pub proof fn lemma_final_states_stay(state: SessionState, events: Seq<PumpEvent>)
    requires
        state != SessionState::Active,
    ensures
        state_after(state, events) == state,
        forall|event: PumpEvent| transition(state, event) == (state, PumpAction::Stop),
    decreases events.len(),
{
    if events.len() > 0 {
        lemma_final_states_stay(state, events.drop_last());
    }
}

/// A forwarding failure is the only trigger for cleanup: the pump is asked to
/// deregister exactly when the session is active and forwarding failed, and
/// a session that is not terminating becomes so exactly then.
pub proof fn lemma_cleanup_follows_forwarding_failure_only(state: SessionState, event: PumpEvent)
    ensures
        transition(state, event).1 == PumpAction::Deregister <==> state == SessionState::Active
            && event == PumpEvent::ForwardFailed,
        state != SessionState::Terminating ==> (transition(state, event).0
            == SessionState::Terminating <==> state == SessionState::Active && event
            == PumpEvent::ForwardFailed),
{
}

/// An active session forwards what it receives, unchanged, and goes on
/// receiving after each message that the client took.
pub proof fn lemma_active_session_forwards(message: Message)
    ensures
        transition(SessionState::Active, PumpEvent::Received(message)) == (
            SessionState::Active,
            PumpAction::Forward(message),
        ),
        transition(SessionState::Active, PumpEvent::Forwarded) == (
            SessionState::Active,
            PumpAction::Receive,
        ),
{
}

} // verus!
