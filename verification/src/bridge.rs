//! The connection resource and the three operations of the host on it: start a
//! connection attempt, submit a transaction, and reconcile once per tick.

use crate::config::DefaultStarknetConfig;
use crate::connection::{ConnectionManager, ConnectionOutcome, ConnectionState};
use crate::queue::OperationQueue;
use vstd::prelude::*;

verus! {

/// Connection state and pending transactions, as one resource of the host.
/// `C` is the handle of a connection attempt, `A` the session (an account), `T`
/// the handle of a submitted transaction.
pub struct StarknetConnection<C, A, T> {
    connection: ConnectionManager<C, A>,
    pending_txs: OperationQueue<T>,
}

/// Model of a [`StarknetConnection`]: the state of the connection slot and the
/// handles of the pending transactions, oldest first.
pub struct StarknetConnectionView<C, A, T> {
    pub connection: ConnectionState<C, A>,
    pub pending: Seq<T>,
}

/// What one tick observed.
#[derive(Debug, PartialEq, Eq)]
pub struct TickReport<E, R> {
    /// What became of the connection attempt in flight, if there was one.
    pub connection: ConnectionOutcome<E>,
    /// The result of the oldest pending transaction, if one was awaited.
    pub transaction: Option<R>,
}

impl<C, A, T> StarknetConnectionView<C, A, T> {
    /// The model after a request to connect, where `handle` is the attempt that
    /// the request starts if it is accepted.
    pub open spec fn connect_begun(self, handle: C) -> Self {
        StarknetConnectionView { connection: self.connection.begun(handle), ..self }
    }

    /// The model after a transaction was submitted, where `handle` is the task
    /// that the submission starts if there is a session.
    pub open spec fn submitted(self, handle: T) -> Self {
        if self.connection is Connected {
            StarknetConnectionView { pending: self.pending.push(handle), ..self }
        } else {
            self
        }
    }

    /// The model after the connection attempt in flight, if any, has resolved to
    /// `result`.
    pub open spec fn connect_resolved<E>(self, result: Result<A, E>) -> Self {
        StarknetConnectionView { connection: self.connection.resolved(result), ..self }
    }

    /// Whether a tick that finds this model after its connection step awaits a
    /// transaction.
    pub open spec fn awaits_front(self) -> bool {
        self.connection is Connected && self.pending.len() > 0
    }

    /// The model after the queue step of a tick.
    pub open spec fn front_polled(self) -> Self {
        if self.awaits_front() {
            StarknetConnectionView { pending: self.pending.drop_first(), ..self }
        } else {
            self
        }
    }

    /// Transactions are pending only under an established connection.
    pub open spec fn pending_only_connected(self) -> bool {
        self.pending.len() > 0 ==> self.connection is Connected
    }
}

/// Transactions are pending only under an established connection: a new
/// resource has none, and every operation keeps it so.
pub proof fn lemma_pending_only_connected<C, A, T, E>(
    view: StarknetConnectionView<C, A, T>,
    attempt: C,
    transaction: T,
    result: Result<A, E>,
)
    requires
        view.pending_only_connected(),
    ensures
        view.connect_begun(attempt).pending_only_connected(),
        view.submitted(transaction).pending_only_connected(),
        view.connect_resolved(result).pending_only_connected(),
        view.front_polled().pending_only_connected(),
{
}

/// One tick awaits at most one transaction: its queue step removes the oldest
/// pending transaction or none, whatever the connection step observed, and
/// leaves the connection state alone.
pub proof fn lemma_tick_bounded<C, A, T, E>(
    view: StarknetConnectionView<C, A, T>,
    result: Result<A, E>,
)
    ensures
        ({
            let middle = view.connect_resolved(result);
            let after = middle.front_polled();
            &&& middle.pending == view.pending
            &&& after.connection == middle.connection
            &&& after.pending == view.pending || after.pending == view.pending.drop_first()
            &&& view.pending.len() <= after.pending.len() + 1
        }),
{
}

impl<C, A, T> View for StarknetConnection<C, A, T> {
    type V = StarknetConnectionView<C, A, T>;

    closed spec fn view(&self) -> StarknetConnectionView<C, A, T> {
        StarknetConnectionView { connection: self.connection@, pending: self.pending_txs@ }
    }
}

impl<C, A, T> StarknetConnection<C, A, T> {
    /// A resource with no session, no attempt in flight and no pending
    /// transaction.
    pub fn new() -> (sn: Self)
        ensures
            sn@.connection is Disconnected,
            sn@.pending == Seq::<T>::empty(),
    {
        StarknetConnection { connection: ConnectionManager::new(), pending_txs: OperationQueue::new() }
    }

    /// Returns true if the connection is established.
    pub fn is_connected(&self) -> (b: bool)
        ensures
            b == (self@.connection is Connected),
    {
        self.connection.is_connected()
    }

    /// Returns true if currently trying to establish a connection.
    pub fn is_connecting(&self) -> (b: bool)
        ensures
            b == (self@.connection is Connecting),
    {
        self.connection.is_connecting()
    }

    /// Returns the number of pending transactions.
    pub fn pending_tx_count(&self) -> (n: usize)
        ensures
            n == self@.pending.len(),
    {
        self.pending_txs.len()
    }

    /// The account of the established connection, shared with the caller.
    pub fn account(&self) -> (account: Option<&A>)
        ensures
            match account {
                Some(a) => self@.connection == ConnectionState::<C, A>::Connected(*a),
                None => !(self@.connection is Connected),
            },
    {
        self.connection.session()
    }
}

impl<C, A, T> Default for StarknetConnection<C, A, T> {
    fn default() -> (sn: Self)
        ensures
            sn@.connection is Disconnected,
            sn@.pending == Seq::<T>::empty(),
    {
        StarknetConnection::new()
    }
}

/// Initialize a connection: where there is neither a session nor an attempt in
/// flight, `spawn` starts the connect task for `config` and its handle is kept;
/// otherwise nothing happens. Returns whether an attempt was started.
pub fn init_starknet_connection<C, A, T, F: FnOnce(&DefaultStarknetConfig) -> C>(
    spawn: F,
    config: &DefaultStarknetConfig,
    sn: &mut StarknetConnection<C, A, T>,
) -> (started: bool)
    requires
        old(sn)@.connection.accepts_connect() ==> spawn.requires((config,)),
    ensures
        started == old(sn)@.connection.accepts_connect(),
        started ==> exists|handle: C| #[trigger]
            spawn.ensures((config,), handle) && final(sn)@ == old(sn)@.connect_begun(handle),
        !started ==> final(sn)@ == old(sn)@,
{
    sn.connection.begin_connect(spawn, config)
}

/// Execute a transaction: where a connection is established, `spawn` starts the
/// task that submits `calls` on its account, and the handle joins the pending
/// transactions at the tail. Returns `false`, and does nothing, where there is no
/// connection.
pub fn execute_transaction<C, A, T, P, F: FnOnce(&A, P) -> T>(
    spawn: F,
    sn: &mut StarknetConnection<C, A, T>,
    calls: P,
) -> (queued: bool)
    requires
        old(sn)@.connection matches ConnectionState::Connected(a) ==> spawn.requires((&a, calls)),
    ensures
        queued == (old(sn)@.connection is Connected),
        queued ==> exists|handle: T| #[trigger]
            spawn.ensures((&old(sn)@.connection->Connected_0, calls), handle) && final(sn)@ == old(
                sn,
            )@.submitted(handle),
        !queued ==> final(sn)@ == old(sn)@,
{
    let account = sn.connection.session();
    sn.pending_txs.enqueue(spawn, account, calls)
}

/// Checks the status of the background tasks, once per tick. First the
/// connection attempt in flight, if there is one, is awaited with `join_connect`
/// and the connection state follows its result. Then, if a connection is
/// established and a transaction is pending, the oldest one leaves the queue and
/// is awaited with `join_tx`. Nothing else is awaited.
pub fn check_sn_task<C, A, T, E, R, JC: FnOnce(C) -> Result<A, E>, JT: FnOnce(T) -> R>(
    join_connect: JC,
    join_tx: JT,
    sn: &mut StarknetConnection<C, A, T>,
) -> (report: TickReport<E, R>)
    requires
        old(sn)@.connection is Connecting ==> join_connect.requires(
            (old(sn)@.connection->Connecting_0,),
        ),
        old(sn)@.pending.len() > 0 ==> join_tx.requires((old(sn)@.pending.first(),)),
    ensures
        !(old(sn)@.connection is Connecting) ==> report.connection is NoOp && final(sn)@ == old(
            sn,
        )@.front_polled(),
        old(sn)@.connection is Connecting ==> exists|result: Result<A, E>| #[trigger]
            join_connect.ensures((old(sn)@.connection->Connecting_0,), result)
            && report.connection == old(sn)@.connection.outcome(result)
            && final(sn)@ == old(sn)@.connect_resolved(result).front_polled(),
        match report.transaction {
            Some(r) => {
                &&& final(sn)@.connection is Connected
                &&& old(sn)@.pending.len() > 0
                &&& join_tx.ensures((old(sn)@.pending.first(),), r)
            },
            None => !(final(sn)@.connection is Connected && old(sn)@.pending.len() > 0),
        },
        old(sn)@.pending.len() <= final(sn)@.pending.len() + 1,
{
    let connection = sn.connection.poll_connect(join_connect);
    let transaction = if sn.connection.is_connected() && sn.pending_txs.len() > 0 {
        sn.pending_txs.poll_front(join_tx)
    } else {
        None
    };
    TickReport { connection, transaction }
}

} // verus!
