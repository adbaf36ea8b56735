//! The state that the two directions of one connection share, and the
//! executable step.

use crate::error::{ProtocolFault, RelayError};
use crate::fee::{FeeJobRecord, FeeJobs, FeeState};
use crate::protocol::object::{Dialect, ProtocolObject};
use crate::protocol::stratum::{
    clone_strings, login, StraumMiningNotify, StraumResult, StraumResultWorkNotify, StraumRoot,
};
use crate::relay::laws::law_step_keeps_invariant;
use crate::relay::model::{
    client_event_of, fee_request, pool_event_of, teardown_of, ActionView, ContextView,
    EventView, Outcome, Teardown,
};
use crate::remap::{IdRemapTable, RequestKind, TableModel};
use crate::worker::Worker;
use vstd::prelude::*;
use vstd::string::*;

verus! {

/// What happened on a connection.
#[derive(Debug, PartialEq)]
pub enum Event {
    /// The client sent a request.
    ClientRequest(StraumRoot),
    /// The client sent a well-formed frame that is no request.
    ClientOther(Vec<u8>),
    /// The client sent a frame that cannot be read.
    ClientMalformed,
    /// The client closed its side.
    ClientEof,
    /// The pool sent a result.
    PoolResult(StraumResult),
    /// The pool sent a result of another shape: its id, and the frame as it
    /// came.
    PoolReply { id: i64, frame: Vec<u8> },
    /// The pool sent a job with three strings and a flag.
    PoolWorkNotify(StraumResultWorkNotify),
    /// The pool sent a job with a list of strings.
    PoolMiningNotify(StraumMiningNotify),
    /// The pool sent a well-formed frame of no known shape.
    PoolOther(Vec<u8>),
    /// The pool closed its side.
    PoolEof,
    /// Reading from or writing to a socket failed.
    TransportFailed,
    /// The job queue published a job.
    JobBroadcast(StraumMiningNotify),
    /// Time has passed.
    Tick,
    /// The share that was handed over for sending is on its way to the pool.
    FeeSent,
}

impl View for Event {
    type V = EventView;

    open spec fn view(&self) -> EventView {
        match self {
            Event::ClientRequest(m) => EventView::ClientRequest(m@),
            Event::ClientOther(frame) => EventView::ClientOther(frame@),
            Event::ClientMalformed => EventView::ClientMalformed,
            Event::ClientEof => EventView::ClientEof,
            Event::PoolResult(r) => EventView::PoolResult(r@),
            Event::PoolReply { id, frame } => EventView::PoolReply { id: *id, frame: frame@ },
            Event::PoolWorkNotify(n) => EventView::PoolWorkNotify(n@),
            Event::PoolMiningNotify(n) => EventView::PoolMiningNotify(n@),
            Event::PoolOther(frame) => EventView::PoolOther(frame@),
            Event::PoolEof => EventView::PoolEof,
            Event::TransportFailed => EventView::TransportFailed,
            Event::JobBroadcast(n) => EventView::JobBroadcast(n@),
            Event::Tick => EventView::Tick,
            Event::FeeSent => EventView::FeeSent,
        }
    }
}

/// What the caller is to do.
#[derive(Debug, PartialEq)]
pub enum Action {
    /// Nothing: the event was absorbed.
    Nothing,
    /// Register the worker and send the login to the pool.
    Register(Worker, StraumRoot),
    /// Send the request to the pool.
    ToPool(StraumRoot),
    /// Send the frame to the pool as it came.
    RawToPool(Vec<u8>),
    /// Send the relay's own share to the pool, in line with the client's.
    InjectFee(StraumRoot),
    /// Send the result to the client.
    ToClient(StraumResult),
    /// Send the frame to the client with `id` in the place of its id.
    ReplyToClient { id: i64, frame: Vec<u8> },
    /// Send the job to the client.
    WorkToClient(StraumResultWorkNotify),
    /// Send the job to the client.
    JobToClient(StraumMiningNotify),
    /// Send the frame to the client as it came.
    RawToClient(Vec<u8>),
    /// Shut down the writer that faces the pool.
    ShutdownPool,
    /// Shut down the writer that faces the client.
    ShutdownClient,
}

impl View for Action {
    type V = ActionView;

    open spec fn view(&self) -> ActionView {
        match self {
            Action::Nothing => ActionView::Nothing,
            Action::Register(w, m) => ActionView::Register(w@, m@),
            Action::ToPool(m) => ActionView::ToPool(m@),
            Action::RawToPool(frame) => ActionView::RawToPool(frame@),
            Action::InjectFee(m) => ActionView::InjectFee(m@),
            Action::ToClient(r) => ActionView::ToClient(r@),
            Action::ReplyToClient { id, frame } => ActionView::ReplyToClient {
                id: *id,
                frame: frame@,
            },
            Action::WorkToClient(n) => ActionView::WorkToClient(n@),
            Action::JobToClient(n) => ActionView::JobToClient(n@),
            Action::RawToClient(frame) => ActionView::RawToClient(frame@),
            Action::ShutdownPool => ActionView::ShutdownPool,
            Action::ShutdownClient => ActionView::ShutdownClient,
        }
    }
}

/// What the result of `handle` stands for in the model.
pub open spec fn outcome_of(r: Result<Action, RelayError>) -> Outcome {
    match r {
        Ok(a) => Ok(a@),
        Err(e) => Err(e),
    }
}

/// See `client_event_of`.
pub fn client_event(frame: Vec<u8>, request: Option<StraumRoot>, well_formed: bool) -> (e: Event)
    ensures
        e@ == client_event_of(
            frame@,
            match request {
                Some(m) => Some(m@),
                None => None,
            },
            well_formed,
        ),
{
    if frame.len() == 0 {
        Event::ClientEof
    } else {
        match request {
            Some(m) => Event::ClientRequest(m),
            None => if well_formed {
                Event::ClientOther(frame)
            } else {
                Event::ClientMalformed
            },
        }
    }
}

/// What a frame of the pool was found to hold.
pub struct PoolParse {
    /// The frame as a result with a list of flags, where it parses as one.
    pub result: Option<StraumResult>,
    /// The id that the frame carries, where it carries one.
    pub id: Option<i64>,
    /// Whether the frame carries a result, of whatever shape.
    pub has_result: bool,
    /// The frame as a job with three strings and a flag, where it parses as
    /// one.
    pub work: Option<StraumResultWorkNotify>,
    /// The frame as a job with a list of strings, where it parses as one.
    pub mining: Option<StraumMiningNotify>,
}

/// See `pool_event_of`.
pub fn pool_event(frame: Vec<u8>, parsed: PoolParse) -> (e: Event)
    ensures
        e@ == pool_event_of(
            frame@,
            match parsed.result {
                Some(r) => Some(r@),
                None => None,
            },
            parsed.id,
            parsed.has_result,
            match parsed.work {
                Some(n) => Some(n@),
                None => None,
            },
            match parsed.mining {
                Some(n) => Some(n@),
                None => None,
            },
        ),
{
    if frame.len() == 0 {
        return Event::PoolEof;
    }
    match parsed.result {
        Some(r) => {
            return Event::PoolResult(r);
        },
        None => {},
    }
    if parsed.has_result {
        match parsed.id {
            Some(id) => {
                return Event::PoolReply { id, frame };
            },
            None => {},
        }
    }
    match parsed.work {
        Some(n) => Event::PoolWorkNotify(n),
        None => match parsed.mining {
            Some(n) => Event::PoolMiningNotify(n),
            None => Event::PoolOther(frame),
        },
    }
}

/// See `teardown_of`.
pub fn teardown(out: &Result<Action, RelayError>) -> (t: Teardown)
    ensures
        t == teardown_of(outcome_of(*out)),
{
    match out {
        Err(_) => Teardown { client_writer: true, pool_writer: true },
        Ok(Action::ShutdownPool) => Teardown { client_writer: false, pool_writer: true },
        Ok(Action::ShutdownClient) => Teardown { client_writer: true, pool_writer: false },
        Ok(_) => Teardown { client_writer: false, pool_writer: false },
    }
}

/// What a connection is set up with.
#[derive(Debug, PartialEq)]
pub struct Settings {
    /// The id that the first forwarded request takes.
    pub first_id: i64,
    /// First id of the range reserved for the relay's own shares.
    pub fee_first_id: i64,
    /// Last id of that range.
    pub fee_last_id: i64,
    /// The most requests that can be pending at once.
    pub max_pending: usize,
    /// The wallet that the relay's own shares credit.
    pub fee_wallet: String,
    /// How long the relay waits between two of its own shares.
    pub fee_window: u64,
    /// How long the relay waits for the reply to one of them.
    pub fee_reply_timeout: u64,
}

/// The share that the relay submits for itself; see `fee_request`.
pub fn build_fee_request(id: i64, wallet: &String, job: &Vec<String>) -> (m: StraumRoot)
    ensures
        m@ == fee_request(id, wallet@, job.deep_view()),
{
    let mut params: Vec<String> = Vec::new();
    params.push(wallet.clone());
    let mut i: usize = 0;
    while i < job.len()
        invariant
            i <= job.len(),
            params.len() == i + 1,
            params[0]@ == wallet@,
            forall|j: int| 0 <= j < i ==> params[j + 1]@ == job[j]@,
        decreases job.len() - i,
    {
        params.push(job[i].clone());
        i += 1;
    }
    assert(params.deep_view() =~= seq![wallet@] + job.deep_view());
    StraumRoot { id, method: String::from_str("submit"), params }
}

/// The state that the two directions of one connection share.
pub struct ConnectionContext {
    closed: bool,
    worker: Option<Worker>,
    worker_name: String,
    pool_greeted: bool,
    table: IdRemapTable,
    fee_state: FeeState,
    fee_jobs: FeeJobs,
    latest_job: Option<Vec<String>>,
    fee_wallet: String,
    fee_window: u64,
    fee_reply_timeout: u64,
}

impl View for ConnectionContext {
    type V = ContextView;

    closed spec fn view(&self) -> ContextView {
        ContextView {
            closed: self.closed,
            worker: match self.worker {
                Some(w) => Some(w@),
                None => None,
            },
            worker_name: self.worker_name@,
            pool_greeted: self.pool_greeted,
            table: self.table@,
            fee_state: self.fee_state,
            fee_jobs: self.fee_jobs@,
            latest_job: match self.latest_job {
                Some(job) => Some(job.deep_view()),
                None => None,
            },
            fee_wallet: self.fee_wallet@,
            fee_window: self.fee_window,
            fee_reply_timeout: self.fee_reply_timeout,
        }
    }
}

impl ConnectionContext {
    /// The invariant that `new` establishes and `handle` keeps.
    pub open spec fn wf(&self) -> bool {
        self@.wf()
    }

    /// The state of a fresh connection. There is none where the settings
    /// allow no pending request, reserve no id, or reserve the largest id.
    pub fn new(settings: Settings) -> (r: Option<Self>)
        ensures
            r is Some <==> settings.max_pending >= 1 && settings.fee_first_id
                <= settings.fee_last_id < i64::MAX,
            r is Some ==> r->0.wf() && r->0@ == ContextView::initial(
                TableModel::initial(
                    settings.first_id,
                    settings.fee_first_id,
                    settings.fee_last_id,
                    settings.max_pending,
                ),
                settings.fee_wallet@,
                settings.fee_window,
                settings.fee_reply_timeout,
            ),
    {
        match IdRemapTable::new(
            settings.first_id,
            settings.fee_first_id,
            settings.fee_last_id,
            settings.max_pending,
        ) {
            Some(table) => Some(
                ConnectionContext {
                    closed: false,
                    worker: None,
                    worker_name: String::new(),
                    pool_greeted: false,
                    table,
                    fee_state: FeeState::Idle,
                    fee_jobs: FeeJobs::new(),
                    latest_job: None,
                    fee_wallet: settings.fee_wallet,
                    fee_window: settings.fee_window,
                    fee_reply_timeout: settings.fee_reply_timeout,
                },
            ),
            None => None,
        }
    }

    /// True once the connection is closed.
    pub fn is_closed(&self) -> (b: bool)
        ensures
            b == self@.closed,
    {
        self.closed
    }

    /// The identity that the client logged in with, once it has.
    pub fn worker(&self) -> (w: Option<Worker>)
        ensures
            w is Some <==> self@.worker is Some,
            w is Some ==> w->0@ == self@.worker->0,
    {
        match &self.worker {
            Some(w) => Some(w.clone()),
            None => None,
        }
    }

    /// The full login string of the connection's worker; empty before the
    /// login.
    pub fn worker_name(&self) -> (name: String)
        ensures
            name@ == self@.worker_name,
    {
        self.worker_name.clone()
    }

    /// How many requests are pending.
    pub fn pending(&self) -> (n: usize)
        ensures
            n == self@.table.entries.len(),
    {
        self.table.len()
    }

    /// Where the cycle of the relay's own shares stands.
    pub fn fee_state(&self) -> (s: FeeState)
        ensures
            s == self@.fee_state,
    {
        self.fee_state
    }

    /// How many of the relay's own shares are in flight.
    pub fn fees_in_flight(&self) -> (n: usize)
        ensures
            n == self@.fee_jobs.len(),
    {
        self.fee_jobs.len()
    }

    fn client_request(&mut self, m: StraumRoot) -> (r: Result<Action, RelayError>)
        requires
            old(self).wf(),
            !old(self)@.closed,
        ensures
            final(self).wf(),
            (final(self)@, outcome_of(r)) == old(self)@.on_client_request(m@),
    {
        proof {
            law_step_keeps_invariant(self@, EventView::ClientRequest(m@), 0);
        }
        let rpc = ProtocolObject::parse(m);
        if self.worker.is_none() {
            match rpc.dialect() {
                Dialect::StandardLogin | Dialect::DottedWalletLogin => {
                    match self.table.allocate(rpc.id()) {
                        Some(id) => {
                            let mut worker = Worker::new();
                            let mut name = String::new();
                            match login(&mut worker, rpc, &mut name, id) {
                                Ok(request) => {
                                    self.worker_name = name;
                                    self.worker = Some(worker.clone());
                                    Ok(Action::Register(worker, request))
                                },
                                Err(e) => {
                                    self.closed = true;
                                    Err(e)
                                },
                            }
                        },
                        None => {
                            self.closed = true;
                            Err(RelayError::IdsExhausted)
                        },
                    }
                },
                _ => {
                    self.closed = true;
                    Err(RelayError::ProtocolError(ProtocolFault::MissingWallet))
                },
            }
        } else {
            match rpc.dialect() {
                Dialect::Unrecognized => Ok(Action::ToPool(rpc.into_message())),
                _ => match self.table.allocate(rpc.id()) {
                    Some(id) => {
                        let mut out = rpc.normalize_login();
                        out.assign_id(id);
                        Ok(Action::ToPool(out.into_message()))
                    },
                    None => {
                        self.closed = true;
                        Err(RelayError::IdsExhausted)
                    },
                },
            }
        }
    }

    fn greet(&mut self)
        ensures
            final(self)@ == old(self)@.greeted(),
    {
        self.pool_greeted = true;
        match self.worker.take() {
            Some(mut w) => {
                w.complete_login();
                self.worker = Some(w);
            },
            None => {},
        }
    }

    fn answer(&mut self, pool_id: i64, now: u64) -> (deliver: Option<i64>)
        requires
            old(self).wf(),
            !old(self)@.closed,
        ensures
            final(self).wf(),
            (final(self)@, deliver) == old(self)@.on_answer(pool_id, now),
    {
        proof {
            law_step_keeps_invariant(
                self@,
                EventView::PoolReply { id: pool_id, frame: Seq::empty() },
                now,
            );
        }
        self.greet();
        match self.table.resolve(pool_id) {
            Some(e) => {
                match e.kind {
                    RequestKind::Ordinary => Some(e.client_id),
                    RequestKind::Fee => {
                        self.fee_jobs.remove(e.pool_id);
                        self.fee_state = self.fee_state.finish(e.pool_id, now);
                        None
                    },
                }
            },
            None => {
                self.fee_jobs.remove(pool_id);
                self.fee_state = self.fee_state.finish(pool_id, now);
                None
            },
        }
    }

    fn job(&mut self, params: Vec<String>, forward: Action) -> (out: Result<Action, RelayError>)
        requires
            old(self).wf(),
        ensures
            final(self).wf(),
            (final(self)@, outcome_of(out)) == old(self)@.on_job(params.deep_view(), forward@),
    {
        self.latest_job = Some(params);
        if self.fee_state.is_suppressing() {
            Ok(Action::Nothing)
        } else {
            Ok(forward)
        }
    }

    fn reject(&mut self) -> (out: Result<Action, RelayError>)
        requires
            old(self).wf(),
        ensures
            final(self).wf(),
            final(self)@ == old(self)@.shut(),
            out is Err && out->Err_0 == RelayError::LoginRejected,
    {
        self.closed = true;
        Err(RelayError::LoginRejected)
    }

    fn tick(&mut self, now: u64) -> (out: Result<Action, RelayError>)
        requires
            old(self).wf(),
            !old(self)@.closed,
        ensures
            final(self).wf(),
            (final(self)@, outcome_of(out)) == old(self)@.on_tick(now),
    {
        proof {
            law_step_keeps_invariant(self@, EventView::Tick, now);
        }
        let state = self.fee_state;
        self.fee_jobs.expire(now, self.fee_reply_timeout);
        match state {
            FeeState::Idle => {
                self.fee_state = state.arm(now);
                Ok(Action::Nothing)
            },
            FeeState::AwaitingWindow { .. } => {
                if state.is_window_passed(now, self.fee_window) && self.worker.is_some()
                    && self.pool_greeted {
                    match &self.latest_job {
                        Some(job) => match self.table.allocate_fee() {
                            Some(id) => {
                                self.fee_state = state.inject(id);
                                Ok(
                                    Action::InjectFee(
                                        build_fee_request(id, &self.fee_wallet, job),
                                    ),
                                )
                            },
                            None => Ok(Action::Nothing),
                        },
                        None => Ok(Action::Nothing),
                    }
                } else {
                    Ok(Action::Nothing)
                }
            },
            FeeState::Injecting { .. } => Ok(Action::Nothing),
            FeeState::AwaitingReply { pool_id } => {
                if self.fee_jobs.contains(pool_id) {
                    Ok(Action::Nothing)
                } else {
                    self.table.resolve(pool_id);
                    self.fee_state = state.finish(pool_id, now);
                    Ok(Action::Nothing)
                }
            },
        }
    }

    fn fee_sent(&mut self, now: u64) -> (out: Result<Action, RelayError>)
        requires
            old(self).wf(),
            !old(self)@.closed,
        ensures
            final(self).wf(),
            (final(self)@, outcome_of(out)) == old(self)@.on_fee_sent(now),
    {
        proof {
            law_step_keeps_invariant(self@, EventView::FeeSent, now);
        }
        match self.fee_state {
            FeeState::Injecting { pool_id } => {
                self.fee_jobs.insert(
                    FeeJobRecord { pool_id, submitted_at: now, wallet: self.fee_wallet.clone() },
                );
                self.fee_state = self.fee_state.mark_sent();
                Ok(Action::Nothing)
            },
            _ => Ok(Action::Nothing),
        }
    }

    /// Takes one event at the time `now` and says what to do about it.
    ///
    /// The state moves as `ContextView::step` says, and the result is the
    /// action or error that `step` yields. After an error, and after either
    /// side has closed, the connection is closed and absorbs every event.
    pub fn handle(&mut self, event: Event, now: u64) -> (out: Result<Action, RelayError>)
        requires
            old(self).wf(),
        ensures
            final(self).wf(),
            (final(self)@, outcome_of(out)) == old(self)@.step(event@, now),
    {
        if self.closed {
            return Ok(Action::Nothing);
        }
        match event {
            Event::ClientRequest(m) => self.client_request(m),
            Event::ClientOther(frame) => {
                if self.worker.is_none() {
                    self.closed = true;
                    Err(RelayError::ProtocolError(ProtocolFault::MissingWallet))
                } else {
                    Ok(Action::RawToPool(frame))
                }
            },
            Event::ClientMalformed => {
                self.closed = true;
                Err(RelayError::ProtocolError(ProtocolFault::Malformed))
            },
            Event::ClientEof => {
                self.table.discard_all();
                self.closed = true;
                Ok(Action::ShutdownPool)
            },
            Event::PoolResult(r) => match self.answer(r.id, now) {
                Some(id) => {
                    let mut back = r;
                    back.id = id;
                    Ok(Action::ToClient(back))
                },
                None => Ok(Action::Nothing),
            },
            Event::PoolReply { id, frame } => match self.answer(id, now) {
                Some(id) => Ok(Action::ReplyToClient { id, frame }),
                None => Ok(Action::Nothing),
            },
            Event::PoolWorkNotify(n) => {
                if self.pool_greeted {
                    let mut params: Vec<String> = Vec::new();
                    params.push(n.params.0.clone());
                    params.push(n.params.1.clone());
                    params.push(n.params.2.clone());
                    assert(params.deep_view() =~= seq![n@.params.0, n@.params.1, n@.params.2]);
                    self.job(params, Action::WorkToClient(n))
                } else {
                    self.reject()
                }
            },
            Event::PoolMiningNotify(n) => {
                if self.pool_greeted {
                    let params = clone_strings(&n.params);
                    self.job(params, Action::JobToClient(n))
                } else {
                    self.reject()
                }
            },
            Event::PoolOther(frame) => {
                if self.pool_greeted {
                    Ok(Action::RawToClient(frame))
                } else {
                    self.reject()
                }
            },
            Event::PoolEof => {
                self.closed = true;
                Ok(Action::ShutdownClient)
            },
            Event::TransportFailed => {
                self.closed = true;
                Err(RelayError::TransportError)
            },
            Event::JobBroadcast(n) => {
                let params = clone_strings(&n.params);
                self.job(params, Action::JobToClient(n))
            },
            Event::Tick => self.tick(now),
            Event::FeeSent => self.fee_sent(now),
        }
    }
}

} // verus!
