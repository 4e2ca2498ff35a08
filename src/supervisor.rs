//! The reconnect loop of one host, as a state machine.
//!
//! The driver of the loop performs each action that `step` returns (open a
//! connection, publish the new session, forward an event, sleep) and hands
//! back what came of it as the next input. The session handle `H` and the
//! event `E` are carried through untouched.
use vstd::prelude::*;

verus! {

/// Whether a live session exists, and its handle if so.
#[derive(Debug)]
pub enum ConnectionState<H> {
    Disconnected,
    Connected(H),
}

/// Where the reconnect loop stands.
#[derive(Clone, Copy, Debug, PartialEq, Eq, Structural)]
pub enum LoopPhase {
    /// The loop has not been started.
    Idle,
    /// A connect attempt is under way.
    Connecting,
    /// A session is live and its events are being read.
    Streaming,
    /// The retry interval is running.
    Sleeping,
}

/// What the driver reports back to the loop.
#[derive(Debug)]
pub enum LoopInput<H, E> {
    /// The loop is started.
    Start,
    /// A connect attempt produced a session.
    ConnectSucceeded(H),
    /// A connect attempt failed.
    ConnectFailed,
    /// The session produced an event other than its closure.
    Event(E),
    /// The session reported that it closed.
    Closed,
    /// The session's event stream ended without a closure notice.
    StreamEnded,
    /// The retry interval has run out.
    RetryElapsed,
}

/// What the driver is to do next.
#[derive(Debug)]
pub enum LoopAction<E> {
    /// Start a connect attempt.
    Connect,
    /// Wake everyone waiting for a session: one is now live.
    Publish,
    /// Hand this event to every event consumer.
    Forward(E),
    /// Sleep for the retry interval.
    Sleep,
    /// The input does not belong to the current phase; nothing changes.
    Nothing,
}

/// The state of one host's reconnect loop.
#[derive(Debug)]
pub struct Supervisor<H> {
    pub state: ConnectionState<H>,
    pub phase: LoopPhase,
}

impl<H> Supervisor<H> {
    /// A session is live exactly while its events are being read.
    pub open spec fn wf(self) -> bool {
        (self.phase == LoopPhase::Streaming) <==> (self.state is Connected)
    }

    pub open spec fn connected(self) -> bool {
        self.state is Connected
    }

    /// The handle that a waiter is given at once, if any.
    pub open spec fn handle(self) -> Option<H> {
        match self.state {
            ConnectionState::Connected(h) => Some(h),
            ConnectionState::Disconnected => None,
        }
    }

    /// The state after `input`, and the action that the driver takes.
    pub open spec fn next<E>(self, input: LoopInput<H, E>) -> (Supervisor<H>, LoopAction<E>) {
        let down = |phase: LoopPhase| Supervisor { state: ConnectionState::Disconnected, phase };
        match input {
            LoopInput::Start => if self.phase == LoopPhase::Idle {
                (down(LoopPhase::Connecting), LoopAction::Connect)
            } else {
                (self, LoopAction::Nothing)
            },
            LoopInput::ConnectSucceeded(h) => if self.phase == LoopPhase::Connecting {
                (
                    Supervisor { state: ConnectionState::Connected(h), phase: LoopPhase::Streaming },
                    LoopAction::Publish,
                )
            } else {
                (self, LoopAction::Nothing)
            },
            LoopInput::ConnectFailed => if self.phase == LoopPhase::Connecting {
                (down(LoopPhase::Sleeping), LoopAction::Sleep)
            } else {
                (self, LoopAction::Nothing)
            },
            LoopInput::Event(e) => if self.phase == LoopPhase::Streaming {
                (self, LoopAction::Forward(e))
            } else {
                (self, LoopAction::Nothing)
            },
            LoopInput::Closed | LoopInput::StreamEnded => if self.phase == LoopPhase::Streaming {
                (down(LoopPhase::Sleeping), LoopAction::Sleep)
            } else {
                (self, LoopAction::Nothing)
            },
            LoopInput::RetryElapsed => if self.phase == LoopPhase::Sleeping {
                (down(LoopPhase::Connecting), LoopAction::Connect)
            } else {
                (self, LoopAction::Nothing)
            },
        }
    }

    /// A loop that has not been started, with no session.
    pub fn new() -> (r: Self)
        ensures
            r.wf(),
            r.phase == LoopPhase::Idle,
            !r.connected(),
    {
        Supervisor { state: ConnectionState::Disconnected, phase: LoopPhase::Idle }
    }

    /// Whether a session is live now.
    pub fn is_connected(&self) -> (r: bool)
        ensures
            r == self.connected(),
    {
        match &self.state {
            ConnectionState::Connected(_) => true,
            ConnectionState::Disconnected => false,
        }
    }

    /// The live session's handle, if there is one.
    pub fn client(&self) -> (r: Option<&H>)
        ensures
            r is Some <==> self.connected(),
            r is Some ==> self.handle() == Some(*r->Some_0),
    {
        match &self.state {
            ConnectionState::Connected(h) => Some(h),
            ConnectionState::Disconnected => None,
        }
    }

    /// Takes one input of the loop and returns what the driver does next.
    pub fn step<E>(&mut self, input: LoopInput<H, E>) -> (action: LoopAction<E>)
        requires
            old(self).wf(),
        ensures
            final(self).wf(),
            (*final(self), action) == old(self).next(input),
    {
        match input {
            LoopInput::Start => {
                if self.phase == LoopPhase::Idle {
                    self.state = ConnectionState::Disconnected;
                    self.phase = LoopPhase::Connecting;
                    LoopAction::Connect
                } else {
                    LoopAction::Nothing
                }
            },
            LoopInput::ConnectSucceeded(h) => {
                if self.phase == LoopPhase::Connecting {
                    self.state = ConnectionState::Connected(h);
                    self.phase = LoopPhase::Streaming;
                    LoopAction::Publish
                } else {
                    LoopAction::Nothing
                }
            },
            LoopInput::ConnectFailed => {
                if self.phase == LoopPhase::Connecting {
                    self.state = ConnectionState::Disconnected;
                    self.phase = LoopPhase::Sleeping;
                    LoopAction::Sleep
                } else {
                    LoopAction::Nothing
                }
            },
            LoopInput::Event(e) => {
                if self.phase == LoopPhase::Streaming {
                    LoopAction::Forward(e)
                } else {
                    LoopAction::Nothing
                }
            },
            LoopInput::Closed | LoopInput::StreamEnded => {
                if self.phase == LoopPhase::Streaming {
                    self.state = ConnectionState::Disconnected;
                    self.phase = LoopPhase::Sleeping;
                    LoopAction::Sleep
                } else {
                    LoopAction::Nothing
                }
            },
            LoopInput::RetryElapsed => {
                if self.phase == LoopPhase::Sleeping {
                    self.state = ConnectionState::Disconnected;
                    self.phase = LoopPhase::Connecting;
                    LoopAction::Connect
                } else {
                    LoopAction::Nothing
                }
            },
        }
    }
}

/// The state reached from `s` after `inputs`, and the actions taken on the way.
pub open spec fn run<H, E>(s: Supervisor<H>, inputs: Seq<LoopInput<H, E>>) -> (
    Supervisor<H>,
    Seq<LoopAction<E>>,
)
    decreases inputs.len(),
{
    if inputs.len() == 0 {
        (s, Seq::empty())
    } else {
        let (t, acts) = run(s, inputs.drop_last());
        let (u, a) = t.next(inputs.last());
        (u, acts.push(a))
    }
}

/// Every step keeps the loop well formed.
pub proof fn lemma_run_wf<H, E>(s: Supervisor<H>, inputs: Seq<LoopInput<H, E>>)
    requires
        s.wf(),
    ensures
        run(s, inputs).0.wf(),
        run(s, inputs).1.len() == inputs.len(),
    decreases inputs.len(),
{
    if inputs.len() > 0 {
        lemma_run_wf(s, inputs.drop_last());
    }
}

/// A host whose connect attempts never succeed is never reported connected
/// and never offers a handle to a waiter, however long the loop runs, and
/// no session is ever published.
pub proof fn lemma_no_session_without_success<H, E>(s: Supervisor<H>, inputs: Seq<LoopInput<H, E>>)
    requires
        s.wf(),
        !s.connected(),
        forall|i: int| 0 <= i < inputs.len() ==> !(inputs[i] is ConnectSucceeded),
    ensures
        !run(s, inputs).0.connected(),
        run(s, inputs).0.handle() is None,
        forall|i: int| 0 <= i < inputs.len() ==> !(run(s, inputs).1[i] is Publish),
    decreases inputs.len(),
{
    if inputs.len() > 0 {
        let rest = inputs.drop_last();
        lemma_no_session_without_success(s, rest);
        lemma_run_wf(s, rest);
    }
}

/// A successful connect makes the host connected at once, and the handle
/// that any waiter is then given is the new session's.
pub proof fn lemma_success_is_visible<H, E>(s: Supervisor<H>, h: H)
    requires
        s.wf(),
        s.phase == LoopPhase::Connecting,
    ensures
        s.next(LoopInput::<H, E>::ConnectSucceeded(h)).0.connected(),
        s.next(LoopInput::<H, E>::ConnectSucceeded(h)).0.handle() == Some(h),
        s.next(LoopInput::<H, E>::ConnectSucceeded(h)).1 is Publish,
{
}

/// The host is reported disconnected before any connect attempt starts, and
/// from the moment its session closes or its event stream ends.
pub proof fn lemma_disconnect_precedes_connect<H, E>(s: Supervisor<H>, input: LoopInput<H, E>)
    requires
        s.wf(),
    ensures
        s.next(input).1 is Connect ==> !s.connected() && !s.next(input).0.connected(),
        (input is Closed || input is StreamEnded) ==> !s.next(input).0.connected(),
{
}

/// Events read from a live session are forwarded, all of them and in the
/// order they came, and the session's handle stays the one offered.
pub proof fn lemma_events_forwarded_in_order<H, E>(s: Supervisor<H>, events: Seq<E>)
    requires
        s.wf(),
        s.phase == LoopPhase::Streaming,
    ensures
        run(s, events.map_values(|e: E| LoopInput::<H, E>::Event(e))) == (
            s,
            events.map_values(|e: E| LoopAction::Forward(e)),
        ),
    decreases events.len(),
{
    let inputs = events.map_values(|e: E| LoopInput::<H, E>::Event(e));
    if events.len() > 0 {
        let rest = events.drop_last();
        lemma_events_forwarded_in_order::<H, E>(s, rest);
        assert(inputs.drop_last() =~= rest.map_values(|e: E| LoopInput::<H, E>::Event(e)));
        assert(events.map_values(|e: E| LoopAction::Forward(e)) =~= rest.map_values(
            |e: E| LoopAction::Forward(e),
        ).push(LoopAction::Forward(events.last())));
    }
}


} // verus!
