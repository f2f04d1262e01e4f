//! The connection slot: at most one attempt in flight, at most one session.

use vstd::prelude::*;

verus! {

/// Lifecycle of the connection slot. `C` is the handle of an attempt in flight,
/// `A` the established session.
pub enum ConnectionState<C, A> {
    /// No session and no attempt in flight.
    Disconnected,
    /// Exactly one attempt is in flight; the slot owns its handle.
    Connecting(C),
    /// A session is established.
    Connected(A),
}

/// What one poll of the connection slot observed.
#[derive(Debug, PartialEq, Eq)]
pub enum ConnectionOutcome<E> {
    /// No attempt was in flight; nothing was awaited.
    NoOp,
    /// The attempt in flight resolved to a session.
    Connected,
    /// The attempt in flight failed; the slot is free again.
    Failed(E),
}

impl<C, A> ConnectionState<C, A> {
    /// Whether a request to connect is accepted in this state.
    pub open spec fn accepts_connect(self) -> bool {
        self is Disconnected
    }

    /// The state after a request to connect, where `handle` is the attempt that
    /// the request starts if it is accepted.
    pub open spec fn begun(self, handle: C) -> Self {
        if self.accepts_connect() {
            ConnectionState::Connecting(handle)
        } else {
            self
        }
    }

    /// The state after the attempt in flight, if any, has resolved to `result`.
    pub open spec fn resolved<E>(self, result: Result<A, E>) -> Self {
        match (self, result) {
            (ConnectionState::Connecting(_), Ok(session)) => ConnectionState::Connected(session),
            (ConnectionState::Connecting(_), Err(_)) => ConnectionState::Disconnected,
            _ => self,
        }
    }

    /// What a poll reports when the attempt in flight, if any, has resolved to
    /// `result`.
    pub open spec fn outcome<E>(self, result: Result<A, E>) -> ConnectionOutcome<E> {
        match (self, result) {
            (ConnectionState::Connecting(_), Ok(_)) => ConnectionOutcome::Connected,
            (ConnectionState::Connecting(_), Err(e)) => ConnectionOutcome::Failed(e),
            _ => ConnectionOutcome::NoOp,
        }
    }

    /// The state after one request to connect for each entry of `handles`, first
    /// to last, where an entry is the attempt that its request starts if it is
    /// accepted.
    pub open spec fn begun_all(self, handles: Seq<C>) -> Self
        decreases handles.len(),
    {
        if handles.len() == 0 {
            self
        } else {
            self.begun(handles.first()).begun_all(handles.drop_first())
        }
    }

    /// How many of these requests to connect are accepted, that is, start an
    /// attempt.
    pub open spec fn attempts_started(self, handles: Seq<C>) -> nat
        decreases handles.len(),
    {
        if handles.len() == 0 {
            0
        } else {
            let first: nat = if self.accepts_connect() {
                1
            } else {
                0
            };
            first + self.begun(handles.first()).attempts_started(handles.drop_first())
        }
    }
}

/// At most one attempt is in flight: of any sequence of requests to connect only
/// the first can start one, and only where the slot is free. A request made while
/// an attempt is in flight or a session is established starts nothing and leaves
/// the state as it is.
pub proof fn lemma_single_connect_in_flight<C, A>(state: ConnectionState<C, A>, handles: Seq<C>)
    ensures
        state.attempts_started(handles) <= 1,
        state is Connecting || state is Connected ==> state.attempts_started(handles) == 0
            && state.begun_all(handles) == state,
        state is Disconnected && handles.len() > 0 ==> state.attempts_started(handles) == 1
            && state.begun_all(handles) == ConnectionState::<C, A>::Connecting(handles.first()),
    decreases handles.len(),
{
    if handles.len() > 0 {
        lemma_single_connect_in_flight(state.begun(handles.first()), handles.drop_first());
    }
}

/// Exactly one of the three states holds.
pub proof fn lemma_state_exclusive<C, A>(state: ConnectionState<C, A>)
    ensures
        state is Disconnected || state is Connecting || state is Connected,
        !(state is Disconnected && state is Connecting),
        !(state is Disconnected && state is Connected),
        !(state is Connecting && state is Connected),
        state is Disconnected <==> state.accepts_connect(),
{
}

/// An established session stays: neither a request to connect nor the result of
/// an attempt changes a connected state.
pub proof fn lemma_connected_stays<C, A, E>(
    state: ConnectionState<C, A>,
    handle: C,
    result: Result<A, E>,
)
    requires
        state is Connected,
    ensures
        state.begun(handle) == state,
        state.resolved(result) == state,
        state.outcome(result) is NoOp,
{
}

/// No handle outlives its attempt: once the attempt in flight has resolved, in
/// success or in failure, the state is no longer connecting.
pub proof fn lemma_resolved_not_connecting<C, A, E>(
    state: ConnectionState<C, A>,
    result: Result<A, E>,
)
    requires
        state is Connecting,
    ensures
        result is Ok ==> state.resolved(result) == ConnectionState::<C, A>::Connected(result->Ok_0),
        result is Err ==> state.resolved(result) is Disconnected,
        !(state.resolved(result) is Connecting),
{
}

/// Owner of the connection slot.
pub struct ConnectionManager<C, A> {
    state: ConnectionState<C, A>,
}

impl<C, A> View for ConnectionManager<C, A> {
    type V = ConnectionState<C, A>;

    closed spec fn view(&self) -> ConnectionState<C, A> {
        self.state
    }
}

impl<C, A> ConnectionManager<C, A> {
    /// A manager with a free slot.
    pub fn new() -> (manager: Self)
        ensures
            manager@ is Disconnected,
    {
        ConnectionManager { state: ConnectionState::Disconnected }
    }

    /// Whether a session is established.
    pub fn is_connected(&self) -> (b: bool)
        ensures
            b == (self@ is Connected),
    {
        match &self.state {
            ConnectionState::Connected(_) => true,
            _ => false,
        }
    }

    /// Whether an attempt is in flight.
    pub fn is_connecting(&self) -> (b: bool)
        ensures
            b == (self@ is Connecting),
    {
        match &self.state {
            ConnectionState::Connecting(_) => true,
            _ => false,
        }
    }

    /// The established session, shared with the caller.
    pub fn session(&self) -> (session: Option<&A>)
        ensures
            match session {
                Some(a) => self@ == ConnectionState::<C, A>::Connected(*a),
                None => !(self@ is Connected),
            },
    {
        match &self.state {
            ConnectionState::Connected(a) => Some(a),
            _ => None,
        }
    }

    /// Starts a connection attempt if the slot is free, and does nothing
    /// otherwise. `spawn` is invoked only in the first case, once, on `config`;
    /// the handle it returns becomes the attempt in flight.
    pub fn begin_connect<G, F: FnOnce(&G) -> C>(&mut self, spawn: F, config: &G) -> (started: bool)
        requires
            old(self)@.accepts_connect() ==> spawn.requires((config,)),
        ensures
            started == old(self)@.accepts_connect(),
            started ==> exists|handle: C| #[trigger]
                spawn.ensures((config,), handle) && final(self)@ == old(self)@.begun(handle),
            !started ==> final(self)@ == old(self)@,
    {
        match &self.state {
            ConnectionState::Disconnected => {
                let handle = spawn(config);
                self.state = ConnectionState::Connecting(handle);
                true
            },
            _ => false,
        }
    }

    /// Observes the attempt in flight, if there is one. `join` is invoked only
    /// then, once, on the handle of that attempt; on `Ok` the session is
    /// established, on `Err` the slot is free again. How long `join` waits is
    /// the caller's choice: what it returns settles the attempt.
    pub fn poll_connect<E, F: FnOnce(C) -> Result<A, E>>(&mut self, join: F) -> (outcome:
        ConnectionOutcome<E>)
        requires
            old(self)@ is Connecting ==> join.requires((old(self)@->Connecting_0,)),
        ensures
            !(old(self)@ is Connecting) ==> outcome is NoOp && final(self)@ == old(self)@,
            old(self)@ is Connecting ==> exists|result: Result<A, E>| #[trigger]
                join.ensures((old(self)@->Connecting_0,), result)
                && final(self)@ == old(self)@.resolved(result)
                && outcome == old(self)@.outcome(result),
    {
        let mut state = ConnectionState::Disconnected;
        core::mem::swap(&mut self.state, &mut state);
        match state {
            ConnectionState::Connecting(handle) => {
                match join(handle) {
                    Ok(session) => {
                        self.state = ConnectionState::Connected(session);
                        ConnectionOutcome::Connected
                    },
                    Err(e) => ConnectionOutcome::Failed(e),
                }
            },
            other => {
                self.state = other;
                ConnectionOutcome::NoOp
            },
        }
    }
}

} // verus!
