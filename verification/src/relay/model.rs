//! The relay of one connection as a mathematical model: its state, the events
//! that reach it, the actions it answers with, and the step that takes state
//! and event to next state and action.

use crate::error::{ProtocolFault, RelayError};
use crate::fee::{holds, unexpired, without, distinct_ids, FeeJobRecordView, FeeState};
use crate::protocol::object::{default_worker_name, dialect_of, wallet_of, Dialect};
use crate::protocol::stratum::{
    forwarded_login, StraumMiningNotifyView, StraumResultView, StraumResultWorkNotifyView,
    StraumRootView,
};
use crate::remap::{RequestKind, TableModel};
use crate::worker::{identity_of, WorkerView};
use vstd::prelude::*;

verus! {

/// What happened on a connection, as the model sees it.
pub enum EventView {
    /// The client sent a request.
    ClientRequest(StraumRootView),
    /// The client sent a well-formed frame that is no request.
    ClientOther(Seq<u8>),
    /// The client sent a frame that cannot be read.
    ClientMalformed,
    /// The client closed its side.
    ClientEof,
    /// The pool sent a result.
    PoolResult(StraumResultView),
    /// The pool sent a result of another shape: its id, and the frame as it
    /// came.
    PoolReply { id: i64, frame: Seq<u8> },
    /// The pool sent a job with three strings and a flag.
    PoolWorkNotify(StraumResultWorkNotifyView),
    /// The pool sent a job with a list of strings.
    PoolMiningNotify(StraumMiningNotifyView),
    /// The pool sent a well-formed frame of no known shape.
    PoolOther(Seq<u8>),
    /// The pool closed its side.
    PoolEof,
    /// Reading from or writing to a socket failed.
    TransportFailed,
    /// The job queue published a job.
    JobBroadcast(StraumMiningNotifyView),
    /// Time has passed.
    Tick,
    /// The share that was handed over for sending is on its way to the pool.
    FeeSent,
}

/// What the caller is to do, as the model sees it.
pub enum ActionView {
    /// Nothing: the event was absorbed.
    Nothing,
    /// Register the worker and send the login to the pool.
    Register(WorkerView, StraumRootView),
    /// Send the request to the pool.
    ToPool(StraumRootView),
    /// Send the frame to the pool as it came.
    RawToPool(Seq<u8>),
    /// Send the relay's own share to the pool, in line with the client's.
    InjectFee(StraumRootView),
    /// Send the result to the client.
    ToClient(StraumResultView),
    /// Send the frame to the client with `id` in the place of its id.
    ReplyToClient { id: i64, frame: Seq<u8> },
    /// Send the job to the client.
    WorkToClient(StraumResultWorkNotifyView),
    /// Send the job to the client.
    JobToClient(StraumMiningNotifyView),
    /// Send the frame to the client as it came.
    RawToClient(Seq<u8>),
    /// Shut down the writer that faces the pool.
    ShutdownPool,
    /// Shut down the writer that faces the client.
    ShutdownClient,
}

/// What a step yields: an action, or the error that ends the connection.
pub type Outcome = Result<ActionView, RelayError>;

/// True when `o` puts anything on the stream that the client reads.
pub open spec fn reaches_client(o: Outcome) -> bool {
    match o {
        Ok(ActionView::ToClient(_)) => true,
        Ok(ActionView::ReplyToClient { .. }) => true,
        Ok(ActionView::WorkToClient(_)) => true,
        Ok(ActionView::JobToClient(_)) => true,
        Ok(ActionView::RawToClient(_)) => true,
        _ => false,
    }
}

/// True when `o` puts anything on the stream that the pool reads.
pub open spec fn reaches_pool(o: Outcome) -> bool {
    match o {
        Ok(ActionView::Register(_, _)) => true,
        Ok(ActionView::ToPool(_)) => true,
        Ok(ActionView::RawToPool(_)) => true,
        Ok(ActionView::InjectFee(_)) => true,
        _ => false,
    }
}

/// The share that the relay submits for itself: a submit under `id` whose
/// parameters are the wallet to credit and then those of the job.
pub open spec fn fee_request(id: i64, wallet: Seq<char>, job: Seq<Seq<char>>) -> StraumRootView {
    StraumRootView { id, method: "submit"@, params: seq![wallet] + job }
}

/// The pool-facing id of an answer of the pool: of a result of either shape.
pub open spec fn answer_of(e: EventView) -> Option<i64> {
    match e {
        EventView::PoolResult(r) => Some(r.id),
        EventView::PoolReply { id, .. } => Some(id),
        _ => None,
    }
}

/// The id under which `o` delivers an answer of the pool to the client.
pub open spec fn delivered_id(o: Outcome) -> Option<i64> {
    match o {
        Ok(ActionView::ToClient(r)) => Some(r.id),
        Ok(ActionView::ReplyToClient { id, .. }) => Some(id),
        _ => None,
    }
}

/// The state of one connection.
pub struct ContextView {
    /// True once either side has closed or the connection has failed.
    pub closed: bool,
    /// The identity that the client logged in with, once it has.
    pub worker: Option<WorkerView>,
    /// The full login string of that identity; empty before the login.
    pub worker_name: Seq<char>,
    /// True once the pool has sent its first message.
    pub pool_greeted: bool,
    /// The id remap table.
    pub table: TableModel,
    /// Where the cycle of relay-originated shares stands.
    pub fee_state: FeeState,
    /// The relay-originated shares in flight.
    pub fee_jobs: Seq<FeeJobRecordView>,
    /// The parameters of the job that was seen last.
    pub latest_job: Option<Seq<Seq<char>>>,
    /// The wallet that relay-originated shares credit.
    pub fee_wallet: Seq<char>,
    /// How long the relay waits between two of its own shares.
    pub fee_window: u64,
    /// How long the relay waits for the reply to one of them.
    pub fee_reply_timeout: u64,
}

impl ContextView {
    /// The invariant of a connection's state.
    pub open spec fn wf(self) -> bool {
        &&& self.table.wf()
        &&& distinct_ids(self.fee_jobs)
    }

    /// The state of a connection on which nothing has happened yet.
    pub open spec fn initial(
        table: TableModel,
        fee_wallet: Seq<char>,
        fee_window: u64,
        fee_reply_timeout: u64,
    ) -> ContextView {
        ContextView {
            closed: false,
            worker: None,
            worker_name: Seq::empty(),
            pool_greeted: false,
            table,
            fee_state: FeeState::Idle,
            fee_jobs: Seq::empty(),
            latest_job: None,
            fee_wallet,
            fee_window,
            fee_reply_timeout,
        }
    }

    /// This state, closed.
    pub open spec fn shut(self) -> ContextView {
        ContextView { closed: true, ..self }
    }

    /// This state after the pool's first message was found to acknowledge the
    /// login.
    pub open spec fn greeted(self) -> ContextView {
        ContextView {
            pool_greeted: true,
            worker: match self.worker {
                Some(w) => Some(WorkerView { login_completed: true, ..w }),
                None => None,
            },
            ..self
        }
    }

    /// A request of the client.
    ///
    /// The first one has to be a login: it establishes the worker and goes to
    /// the pool under a fresh id, its login string completed. Later requests
    /// of a known shape go to the pool under a fresh id each; requests of no
    /// known shape go as they are.
    pub open spec fn on_client_request(self, m: StraumRootView) -> (ContextView, Outcome) {
        if self.worker is None {
            match wallet_of(m) {
                None => (
                    self.shut(),
                    Err(RelayError::ProtocolError(ProtocolFault::MissingWallet)),
                ),
                Some(login) => if self.table.can_allocate() {
                    let w = identity_of(login, default_worker_name());
                    (
                        ContextView {
                            worker: Some(w),
                            worker_name: w.login,
                            table: self.table.after_allocate(m.id),
                            ..self
                        },
                        Ok(ActionView::Register(w, forwarded_login(m, self.table.next_id as i64))),
                    )
                } else {
                    (self.shut(), Err(RelayError::IdsExhausted))
                },
            }
        } else if dialect_of(m) == Dialect::Unrecognized {
            (self, Ok(ActionView::ToPool(m)))
        } else if self.table.can_allocate() {
            (
                ContextView { table: self.table.after_allocate(m.id), ..self },
                Ok(ActionView::ToPool(forwarded_login(m, self.table.next_id as i64))),
            )
        } else {
            (self.shut(), Err(RelayError::IdsExhausted))
        }
    }

    /// A well-formed frame of the client that is no request: before the login
    /// it counts as a login without a wallet; after it, it goes to the pool as
    /// it came.
    pub open spec fn on_client_other(self, frame: Seq<u8>) -> (ContextView, Outcome) {
        if self.worker is None {
            (self.shut(), Err(RelayError::ProtocolError(ProtocolFault::MissingWallet)))
        } else {
            (self, Ok(ActionView::RawToPool(frame)))
        }
    }

    /// An answer of the pool under the pool-facing id `pool_id`, of whatever
    /// shape its result is.
    ///
    /// As the pool's first message it acknowledges the login. Where `pool_id`
    /// stands in the table for an ordinary request, the answer is the
    /// client's: it is to be delivered under the id that the client chose,
    /// and the request is pending no more. Every other answer is dropped in
    /// silence, together with what the table and the records of shares in
    /// flight hold under its id. The second component is the id to deliver
    /// the answer under, where it is to be delivered.
    pub open spec fn on_answer(self, pool_id: i64, now: u64) -> (ContextView, Option<i64>) {
        let c = self.greeted();
        let found = c.table.lookup(pool_id);
        if found is Some && found->0.kind == RequestKind::Ordinary {
            (
                ContextView { table: c.table.after_resolve(pool_id), ..c },
                Some(found->0.client_id),
            )
        } else {
            (
                ContextView {
                    table: c.table.after_resolve(pool_id),
                    fee_jobs: without(c.fee_jobs, pool_id),
                    fee_state: c.fee_state.finished(pool_id, now),
                    ..c
                },
                None,
            )
        }
    }

    /// A result of the pool: an answer under its id; where it is the
    /// client's, it goes to the client with the client's id in the place of
    /// its own and is otherwise unchanged.
    pub open spec fn on_pool_result(self, r: StraumResultView, now: u64) -> (ContextView, Outcome) {
        let (c, deliver) = self.on_answer(r.id, now);
        (
            c,
            Ok(
                match deliver {
                    Some(id) => ActionView::ToClient(StraumResultView { id, ..r }),
                    None => ActionView::Nothing,
                },
            ),
        )
    }

    /// A result of the pool of another shape: an answer under its id; where
    /// it is the client's, its frame goes to the client with the client's id
    /// in the place of its own.
    pub open spec fn on_pool_reply(self, pool_id: i64, frame: Seq<u8>, now: u64) -> (
        ContextView,
        Outcome,
    ) {
        let (c, deliver) = self.on_answer(pool_id, now);
        (
            c,
            Ok(
                match deliver {
                    Some(id) => ActionView::ReplyToClient { id, frame },
                    None => ActionView::Nothing,
                },
            ),
        )
    }

    /// A message of the pool that is no result: as the pool's first message
    /// it rejects the login; later it is handled as `then` says.
    pub open spec fn unless_first(self, then: (ContextView, Outcome)) -> (ContextView, Outcome) {
        if self.pool_greeted {
            then
        } else {
            (self.shut(), Err(RelayError::LoginRejected))
        }
    }

    /// A job, from the pool or from the job queue: its parameters are
    /// remembered as the latest job, and `forward` is done unless one of the
    /// relay's own shares is being built or is in flight.
    pub open spec fn on_job(self, job: Seq<Seq<char>>, forward: ActionView) -> (
        ContextView,
        Outcome,
    ) {
        (
            ContextView { latest_job: Some(job), ..self },
            Ok(
                if self.fee_state.suppressing() {
                    ActionView::Nothing
                } else {
                    forward
                },
            ),
        )
    }

    /// True when one of the relay's own shares can be built: the client has
    /// logged in, the pool has answered, a job is known and a reserved id is
    /// left.
    pub open spec fn can_inject(self) -> bool {
        &&& self.worker is Some
        &&& self.pool_greeted
        &&& self.latest_job is Some
        &&& self.table.can_allocate_fee()
    }

    /// The passing of time.
    ///
    /// Records of shares that have waited out the reply timeout are dropped.
    /// Then the cycle moves on where it can: from idle to the wait for the
    /// window; when the window has passed and a share can be built, to
    /// injecting, with the share as the action; and from the wait for a reply
    /// whose record is gone back to the wait for the next window.
    pub open spec fn on_tick(self, now: u64) -> (ContextView, Outcome) {
        let c = ContextView {
            fee_jobs: unexpired(self.fee_jobs, now, self.fee_reply_timeout),
            ..self
        };
        match self.fee_state {
            FeeState::Idle => (
                ContextView { fee_state: self.fee_state.armed(now), ..c },
                Ok(ActionView::Nothing),
            ),
            FeeState::AwaitingWindow { .. } => if self.fee_state.window_passed(
                now,
                self.fee_window,
            ) && self.can_inject() {
                let id = self.table.next_fee_id as i64;
                (
                    ContextView {
                        table: self.table.after_allocate_fee(),
                        fee_state: self.fee_state.injecting(id),
                        ..c
                    },
                    Ok(
                        ActionView::InjectFee(
                            fee_request(id, self.fee_wallet, self.latest_job->0),
                        ),
                    ),
                )
            } else {
                (c, Ok(ActionView::Nothing))
            },
            FeeState::Injecting { .. } => (c, Ok(ActionView::Nothing)),
            FeeState::AwaitingReply { pool_id } => if holds(c.fee_jobs, pool_id) {
                (c, Ok(ActionView::Nothing))
            } else {
                (
                    ContextView {
                        table: self.table.after_resolve(pool_id),
                        fee_state: self.fee_state.finished(pool_id, now),
                        ..c
                    },
                    Ok(ActionView::Nothing),
                )
            },
        }
    }

    /// The share that was handed over is on its way: it is recorded as in
    /// flight, and its reply is awaited.
    pub open spec fn on_fee_sent(self, now: u64) -> (ContextView, Outcome) {
        match self.fee_state {
            FeeState::Injecting { pool_id } => (
                ContextView {
                    fee_jobs: without(self.fee_jobs, pool_id).push(
                        FeeJobRecordView {
                            pool_id,
                            submitted_at: now,
                            wallet: self.fee_wallet,
                        },
                    ),
                    fee_state: self.fee_state.sent(),
                    ..self
                },
                Ok(ActionView::Nothing),
            ),
            _ => (self, Ok(ActionView::Nothing)),
        }
    }

    /// One step of the relay: the state after the event `e` at the time `now`,
    /// and what the caller is to do. A closed connection absorbs every event.
    pub open spec fn step(self, e: EventView, now: u64) -> (ContextView, Outcome) {
        if self.closed {
            (self, Ok(ActionView::Nothing))
        } else {
            match e {
                EventView::ClientRequest(m) => self.on_client_request(m),
                EventView::ClientOther(frame) => self.on_client_other(frame),
                EventView::ClientMalformed => (
                    self.shut(),
                    Err(RelayError::ProtocolError(ProtocolFault::Malformed)),
                ),
                EventView::ClientEof => (
                    ContextView { table: self.table.after_discard(), ..self.shut() },
                    Ok(ActionView::ShutdownPool),
                ),
                EventView::PoolResult(r) => self.on_pool_result(r, now),
                EventView::PoolReply { id, frame } => self.on_pool_reply(id, frame, now),
                EventView::PoolWorkNotify(n) => self.unless_first(
                    self.on_job(
                        seq![n.params.0, n.params.1, n.params.2],
                        ActionView::WorkToClient(n),
                    ),
                ),
                EventView::PoolMiningNotify(n) => self.unless_first(
                    self.on_job(n.params, ActionView::JobToClient(n)),
                ),
                EventView::PoolOther(frame) => self.unless_first(
                    (self, Ok(ActionView::RawToClient(frame))),
                ),
                EventView::PoolEof => (self.shut(), Ok(ActionView::ShutdownClient)),
                EventView::TransportFailed => (self.shut(), Err(RelayError::TransportError)),
                EventView::JobBroadcast(n) => self.on_job(n.params, ActionView::JobToClient(n)),
                EventView::Tick => self.on_tick(now),
                EventView::FeeSent => self.on_fee_sent(now),
            }
        }
    }
}

/// An event together with the time at which it is handled.
pub struct TimedEvent {
    pub event: EventView,
    pub now: u64,
}

/// The state of a connection that began in `c` after the events of `events`,
/// first to last.
pub open spec fn run(c: ContextView, events: Seq<TimedEvent>) -> ContextView
    decreases events.len(),
{
    if events.len() == 0 {
        c
    } else {
        run(c, events.drop_last()).step(events.last().event, events.last().now).0
    }
}

/// What the step for the event at position `k` of `events` yields on a
/// connection that began in `c`.
pub open spec fn outcome_at(c: ContextView, events: Seq<TimedEvent>, k: int) -> Outcome {
    run(c, events.take(k)).step(events[k].event, events[k].now).1
}

/// The pool-facing id that a step gives out: the id under which it forwards
/// a request of a known shape or sends a share of the relay's own.
pub open spec fn issued_id(c: ContextView, e: EventView, now: u64) -> Option<i64> {
    match c.step(e, now).1 {
        Ok(ActionView::Register(_, m)) => Some(m.id),
        Ok(ActionView::InjectFee(m)) => Some(m.id),
        Ok(ActionView::ToPool(m)) => if e is ClientRequest && dialect_of(e->ClientRequest_0)
            != Dialect::Unrecognized {
            Some(m.id)
        } else {
            None
        },
        _ => None,
    }
}

/// True when one of the first `k` events of `events` is a request of the
/// client that carries `id`.
pub open spec fn client_sent(events: Seq<TimedEvent>, k: int, id: i64) -> bool {
    exists|j: int|
        0 <= j < k && j < events.len() && (#[trigger] events[j]).event is ClientRequest
            && events[j].event->ClientRequest_0.id == id
}

/// True when every ordinary entry of the table of `c` carries an id that
/// the client sent among the first `k` events of `events`.
pub open spec fn entries_from_client(c: ContextView, events: Seq<TimedEvent>, k: int) -> bool {
    forall|i: int|
        0 <= i < c.table.entries.len() && (#[trigger] c.table.entries[i]).kind
            == RequestKind::Ordinary ==> client_sent(events, k, c.table.entries[i].client_id)
}

/// What a read from the client's socket stands for.
///
/// `frame` is what the read gave, `request` the request that it was parsed
/// as, if it could be, and `well_formed` says whether it is a well-formed
/// frame at all. A read that gave nothing is the end of the stream; otherwise a
/// frame that parsed is a request, one that is well-formed but no request is
/// carried as it came, and any other is malformed.
pub open spec fn client_event_of(
    frame: Seq<u8>,
    request: Option<StraumRootView>,
    well_formed: bool,
) -> EventView {
    if frame.len() == 0 {
        EventView::ClientEof
    } else if request is Some {
        EventView::ClientRequest(request->0)
    } else if well_formed {
        EventView::ClientOther(frame)
    } else {
        EventView::ClientMalformed
    }
}

/// What a read from the pool's socket stands for.
///
/// `frame` is what the read gave; `result`, `work` and `mining` are what it
/// was parsed as, shape by shape; `id` is the id that it carries, if it
/// carries one, and `has_result` says whether it carries a result at all. A
/// read that gave nothing is the end of the stream. Otherwise the frame is a
/// result where it parsed as one; a result of another shape where it carries
/// an id and a result; else a job of the shape it parsed as; and where it is
/// none of these it is carried as it came.
pub open spec fn pool_event_of(
    frame: Seq<u8>,
    result: Option<StraumResultView>,
    id: Option<i64>,
    has_result: bool,
    work: Option<StraumResultWorkNotifyView>,
    mining: Option<StraumMiningNotifyView>,
) -> EventView {
    if frame.len() == 0 {
        EventView::PoolEof
    } else if result is Some {
        EventView::PoolResult(result->0)
    } else if has_result && id is Some {
        EventView::PoolReply { id: id->0, frame }
    } else if work is Some {
        EventView::PoolWorkNotify(work->0)
    } else if mining is Some {
        EventView::PoolMiningNotify(mining->0)
    } else {
        EventView::PoolOther(frame)
    }
}

/// The writers that are to be shut down.
#[derive(Clone, Copy, Debug, PartialEq, Eq, Structural)]
pub struct Teardown {
    /// The writer that faces the client.
    pub client_writer: bool,
    /// The writer that faces the pool.
    pub pool_writer: bool,
}

/// The writers that `o` asks to be shut down. The two directions of a
/// connection fail together: an error shuts both writers, so that the
/// direction that did not fail reads the end of its stream; the orderly end of
/// one side shuts the writer that faces the other.
pub open spec fn teardown_of(o: Outcome) -> Teardown {
    match o {
        Err(_) => Teardown { client_writer: true, pool_writer: true },
        Ok(ActionView::ShutdownPool) => Teardown { client_writer: false, pool_writer: true },
        Ok(ActionView::ShutdownClient) => Teardown { client_writer: true, pool_writer: false },
        Ok(_) => Teardown { client_writer: false, pool_writer: false },
    }
}

} // verus!
