//! Per-session finite state machine.
use vstd::prelude::*;
use std::time::Instant;

verus! {

/// All possible states a session can be in.
#[derive(Debug, Clone, Copy, PartialEq, Eq, Structural)]
pub enum SessionState {
    /// Transport connected, waiting for Handshake.
    Connected,
    /// Handshake received, pairing required before proceeding.
    PairingRequired,
    /// Host has presented a PIN, waiting for agent to confirm.
    PairingPending,
    /// Fully paired and authenticated.
    Established,
    /// Session is shutting down.
    Terminating,
    /// Terminal state — connection closed.
    Closed,
}

/// Events that drive the session FSM.
#[derive(Debug, Clone)]
pub enum SessionEvent {
    HandshakeReceived { device_id: String, version: u32 },
    NeedsPairing,
    PairingStarted,
    PairingSucceeded,
    PairingFailed,
    SessionReady,
    TerminateRequested,
    TransportClosed,
}

/// The state that follows `s` on event `e`; an event that does not apply in `s`
/// leaves the state unchanged.
pub open spec fn next_state(s: SessionState, e: SessionEvent) -> SessionState {
    if e is TransportClosed {
        SessionState::Closed
    } else {
        match s {
            SessionState::Connected => if e is NeedsPairing {
                SessionState::PairingRequired
            } else if e is SessionReady {
                SessionState::Established
            } else {
                SessionState::Connected
            },
            SessionState::PairingRequired => if e is PairingStarted {
                SessionState::PairingPending
            } else {
                SessionState::PairingRequired
            },
            SessionState::PairingPending => if e is PairingSucceeded {
                SessionState::Established
            } else if e is PairingFailed {
                SessionState::PairingRequired
            } else {
                SessionState::PairingPending
            },
            SessionState::Established => if e is TerminateRequested {
                SessionState::Terminating
            } else {
                SessionState::Established
            },
            _ => s,
        }
    }
}

/// Per-session finite state machine.
pub struct SessionFsm {
    pub device_id: String,
    pub state: SessionState,
    /// When the session first reached `Established`.
    pub established_at: Option<Instant>,
}

impl SessionFsm {
    pub fn new(device_id: String) -> (r: Self)
        ensures
            r.device_id == device_id,
            r.state == SessionState::Connected,
            r.established_at is None,
    {
        SessionFsm { device_id, state: SessionState::Connected, established_at: None }
    }

    /// Apply an event, transitioning to the next state.
    /// Returns the new state, or the unchanged state if the event is not
    /// applicable in the current state.
    pub fn apply(&mut self, event: SessionEvent) -> (r: SessionState)
        ensures
            r == next_state(old(self).state, event),
            final(self).state == r,
            final(self).device_id == old(self).device_id,
            old(self).established_at is Some ==> final(self).established_at
                == old(self).established_at,
            final(self).established_at is Some <==> (old(self).established_at is Some || r
                == SessionState::Established),
    {
        let next = match event {
            SessionEvent::TransportClosed => SessionState::Closed,
            SessionEvent::HandshakeReceived { .. } => self.state,
            SessionEvent::NeedsPairing => match self.state {
                SessionState::Connected => SessionState::PairingRequired,
                cur => cur,
            },
            SessionEvent::SessionReady => match self.state {
                SessionState::Connected => SessionState::Established,
                cur => cur,
            },
            SessionEvent::PairingStarted => match self.state {
                SessionState::PairingRequired => SessionState::PairingPending,
                cur => cur,
            },
            SessionEvent::PairingSucceeded => match self.state {
                SessionState::PairingPending => SessionState::Established,
                cur => cur,
            },
            SessionEvent::PairingFailed => match self.state {
                SessionState::PairingPending => SessionState::PairingRequired,
                cur => cur,
            },
            SessionEvent::TerminateRequested => match self.state {
                SessionState::Established => SessionState::Terminating,
                cur => cur,
            },
        };
        if next == SessionState::Established && self.established_at.is_none() {
            self.established_at = Some(crate::clock::now());
        }
        self.state = next;
        next
    }

    pub fn is_established(&self) -> (r: bool)
        ensures
            r == (self.state == SessionState::Established),
    {
        self.state == SessionState::Established
    }

    pub fn is_closed(&self) -> (r: bool)
        ensures
            r == (self.state == SessionState::Closed),
    {
        self.state == SessionState::Closed
    }
}

/// A closed transport ends the session from any state.
pub proof fn lemma_transport_closed_closes(s: SessionState, e: SessionEvent)
    requires
        e is TransportClosed,
    ensures
        next_state(s, e) == SessionState::Closed,
{
}

/// `Closed` is terminal: no event leads out of it.
pub proof fn lemma_closed_is_terminal(e: SessionEvent)
    ensures
        next_state(SessionState::Closed, e) == SessionState::Closed,
{
}

/// The only ways into `Established` are a ready session straight from
/// `Connected` or a successful pairing from `PairingPending`.
pub proof fn lemma_established_entry(s: SessionState, e: SessionEvent)
    requires
        s != SessionState::Established,
        next_state(s, e) == SessionState::Established,
    ensures
        (s == SessionState::Connected && e is SessionReady) || (s == SessionState::PairingPending
            && e is PairingSucceeded),
{
}

/// The pairing path used by a host for an untrusted device reaches
/// `Established` after a successful PIN, and falls back to `PairingRequired`
/// after a failed one.
pub proof fn lemma_pairing_path(ok: SessionEvent, fail: SessionEvent, s1: SessionEvent, s2: SessionEvent)
    requires
        s1 is NeedsPairing,
        s2 is PairingStarted,
        ok is PairingSucceeded,
        fail is PairingFailed,
    ensures
        next_state(next_state(next_state(SessionState::Connected, s1), s2), ok)
            == SessionState::Established,
        next_state(next_state(next_state(SessionState::Connected, s1), s2), fail)
            == SessionState::PairingRequired,
{
}

} // verus!
