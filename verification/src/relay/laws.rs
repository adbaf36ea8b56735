//! What holds of the relay of one connection, proved of its model: of single
//! steps, and of whole connections as sequences of events.

use crate::error::RelayError;
use crate::fee::{
    distinct_ids, holds, lemma_filter_keeps_distinct, lemma_without_drops, other_than,
    still_waiting, without, FeeJobRecordView, FeeState,
};
use crate::protocol::object::{default_worker_name, dialect_of, wallet_of, Dialect};
use crate::protocol::stratum::{StraumResultView, StraumRootView};
use crate::relay::model::{
    answer_of, client_sent, delivered_id, entries_from_client, fee_request, issued_id, outcome_at,
    reaches_client, reaches_pool, run, teardown_of, ActionView, ContextView, EventView,
    TimedEvent,
};
use crate::remap::{
    issued_once, law_allocate_then_resolve, law_counters_disjoint,
    lemma_issued_entry_stays_one, PendingRequest, RequestKind, TableOp,
};
use crate::text::has_char;
use crate::worker::identity_of;
use vstd::prelude::*;

verus! {

/// Recording a share under an id of which no record is left keeps the ids of
/// the records distinct.
proof fn lemma_recorded_distinct(records: Seq<FeeJobRecordView>, r: FeeJobRecordView)
    requires
        distinct_ids(records),
    ensures
        distinct_ids(without(records, r.pool_id).push(r)),
{
    let kept = without(records, r.pool_id);
    let all = kept.push(r);
    lemma_filter_keeps_distinct(records, other_than(r.pool_id));
    lemma_without_drops(records, r.pool_id);
    assert forall|i: int, j: int| 0 <= i < j < all.len() implies all[i].pool_id
        != all[j].pool_id by {
        if j == kept.len() {
            assert(all[i] == kept[i]);
        } else {
            assert(kept[i].pool_id != kept[j].pool_id);
        }
    }
}

/// A step keeps the state of a connection well-formed, and leaves the
/// reserved range of ids, the bound of the table and the fee settings as they
/// are.
pub proof fn law_step_keeps_invariant(c: ContextView, e: EventView, now: u64)
    requires
        c.wf(),
    ensures
        c.step(e, now).0.wf(),
        c.step(e, now).0.table.fee_first == c.table.fee_first,
        c.step(e, now).0.table.fee_last == c.table.fee_last,
        c.step(e, now).0.table.capacity == c.table.capacity,
        c.step(e, now).0.fee_wallet == c.fee_wallet,
        c.step(e, now).0.fee_window == c.fee_window,
        c.step(e, now).0.fee_reply_timeout == c.fee_reply_timeout,
{
    if !c.closed {
        match e {
            EventView::ClientRequest(m) => {
                c.table.lemma_apply_wf(TableOp::Allocate { client_id: m.id });
            },
            EventView::ClientEof => {
                c.table.lemma_apply_wf(TableOp::Discard);
            },
            EventView::PoolResult(r) => {
                c.table.lemma_apply_wf(TableOp::Resolve { pool_id: r.id });
                lemma_filter_keeps_distinct(c.fee_jobs, other_than(r.id));
            },
            EventView::PoolReply { id, .. } => {
                c.table.lemma_apply_wf(TableOp::Resolve { pool_id: id });
                lemma_filter_keeps_distinct(c.fee_jobs, other_than(id));
            },
            EventView::Tick => {
                lemma_filter_keeps_distinct(c.fee_jobs, still_waiting(now, c.fee_reply_timeout));
                c.table.lemma_apply_wf(TableOp::AllocateFee);
                match c.fee_state {
                    FeeState::AwaitingReply { pool_id } => {
                        c.table.lemma_apply_wf(TableOp::Resolve { pool_id });
                    },
                    _ => {},
                }
            },
            EventView::FeeSent => {
                match c.fee_state {
                    FeeState::Injecting { pool_id } => {
                        lemma_recorded_distinct(
                            c.fee_jobs,
                            FeeJobRecordView { pool_id, submitted_at: now, wallet: c.fee_wallet },
                        );
                    },
                    _ => {},
                }
            },
            _ => {},
        }
    }
}

/// A run keeps what a step keeps.
pub proof fn law_run_keeps_invariant(c: ContextView, events: Seq<TimedEvent>)
    requires
        c.wf(),
    ensures
        run(c, events).wf(),
        run(c, events).table.fee_first == c.table.fee_first,
        run(c, events).table.fee_last == c.table.fee_last,
        run(c, events).table.capacity == c.table.capacity,
        run(c, events).fee_wallet == c.fee_wallet,
    decreases events.len(),
{
    if events.len() > 0 {
        law_run_keeps_invariant(c, events.drop_last());
        law_step_keeps_invariant(
            run(c, events.drop_last()),
            events.last().event,
            events.last().now,
        );
    }
}

/// A closed connection stays closed, and whatever state it was closed in is
/// the state it stays in.
pub proof fn law_closed_stays(c: ContextView, events: Seq<TimedEvent>)
    requires
        c.closed,
    ensures
        run(c, events) == c,
    decreases events.len(),
{
    if events.len() > 0 {
        law_closed_stays(c, events.drop_last());
    }
}

/// The state after the first `k + 1` events is the step for the event at
/// position `k` applied to the state after the first `k`.
proof fn lemma_run_take(c: ContextView, events: Seq<TimedEvent>, k: int)
    requires
        0 <= k < events.len(),
    ensures
        run(c, events.take(k + 1)) == run(c, events.take(k)).step(events[k].event, events[k].now).0,
{
    let t = events.take(k + 1);
    assert(t.drop_last() =~= events.take(k));
    assert(t.last() == events[k]);
}

/// The state after the first `k` events, reached from the state after the
/// first `j` of them by the events in between.
proof fn lemma_run_split(c: ContextView, events: Seq<TimedEvent>, j: int, k: int)
    requires
        0 <= j <= k <= events.len(),
    ensures
        run(c, events.take(k)) == run(run(c, events.take(j)), events.subrange(j, k)),
    decreases k - j,
{
    if j == k {
        assert(events.subrange(j, k) =~= Seq::<TimedEvent>::empty());
    } else {
        lemma_run_split(c, events, j, k - 1);
        lemma_run_take(c, events, k - 1);
        let mid = events.subrange(j, k);
        assert(mid.drop_last() =~= events.subrange(j, k - 1));
        assert(mid.last() == events[k - 1]);
    }
}

/// Once the state after the first `j + 1` events is closed, every later step
/// yields nothing and the state stays.
proof fn lemma_closed_from(c: ContextView, events: Seq<TimedEvent>, j: int, k: int)
    requires
        0 <= j < k < events.len(),
        run(c, events.take(j + 1)).closed,
    ensures
        outcome_at(c, events, k) == Ok::<ActionView, RelayError>(ActionView::Nothing),
        run(c, events.take(k + 1)) == run(c, events.take(j + 1)),
        run(c, events.take(k)) == run(c, events.take(j + 1)),
{
    let closed = run(c, events.take(j + 1));
    lemma_run_split(c, events, j + 1, k);
    law_closed_stays(closed, events.subrange(j + 1, k));
    lemma_run_take(c, events, k);
}

/// No reply to a share of the relay's own is ever seen by the client: an
/// answer of the pool whose id lies in the reserved range puts nothing on the
/// client's stream, in whatever state the connection is, and leaves nothing
/// behind under that id.
pub proof fn law_fee_reply_hidden(c: ContextView, e: EventView, now: u64)
    requires
        c.wf(),
        answer_of(e) is Some,
        c.table.in_fee_range(answer_of(e)->0 as int),
    ensures
        !reaches_client(c.step(e, now).1),
        c.step(e, now).1 == Ok::<ActionView, RelayError>(ActionView::Nothing),
        !c.closed ==> !c.step(e, now).0.table.pending(answer_of(e)->0),
        !c.closed ==> !holds(c.step(e, now).0.fee_jobs, answer_of(e)->0),
{
    let id = answer_of(e)->0;
    if !c.closed {
        let g = c.greeted();
        law_counters_disjoint(g.table);
        if g.table.pending(id) {
            let p = g.table.position(id);
            assert(g.table.in_fee_range(g.table.entries[p].pool_id as int));
        }
        g.table.lemma_resolved_not_pending(id);
        lemma_without_drops(g.fee_jobs, id);
    }
}

/// The same of a whole connection: however many requests and replies of the
/// client's own come before, between and after, the step for an answer whose
/// id lies in the reserved range yields nothing at all.
pub proof fn law_fee_replies_never_reach_client(c: ContextView, events: Seq<TimedEvent>, k: int)
    requires
        c.wf(),
        0 <= k < events.len(),
        answer_of(events[k].event) is Some,
        c.table.in_fee_range(answer_of(events[k].event)->0 as int),
    ensures
        outcome_at(c, events, k) == Ok::<ActionView, RelayError>(ActionView::Nothing),
{
    law_run_keeps_invariant(c, events.take(k));
    law_fee_reply_hidden(run(c, events.take(k)), events[k].event, events[k].now);
}

/// Every share of the relay's own goes out under an id of the reserved range,
/// and every request of the client that is given a new id goes out under one
/// outside it: the two can never be taken for one another.
pub proof fn law_ids_by_origin(c: ContextView, e: EventView, now: u64)
    requires
        c.wf(),
    ensures
        match c.step(e, now).1 {
            Ok(ActionView::InjectFee(m)) => c.table.in_fee_range(m.id as int) && !c.table.pending(
                m.id,
            ),
            Ok(ActionView::Register(_, m)) => !c.table.in_fee_range(m.id as int)
                && !c.table.pending(m.id),
            Ok(ActionView::ToPool(m)) => e is ClientRequest && (dialect_of(e->ClientRequest_0)
                != Dialect::Unrecognized ==> !c.table.in_fee_range(m.id as int)
                && !c.table.pending(m.id)),
            _ => true,
        },
{
    law_counters_disjoint(c.table);
}

/// What is delivered to the client is an answer of the pool to a request
/// that the client sent and that was pending, under the id of that request
/// and otherwise as the pool sent it: no id that the relay made up ever
/// reaches the client.
pub proof fn law_answer_goes_to_requester(c: ContextView, e: EventView, now: u64)
    requires
        c.wf(),
        delivered_id(c.step(e, now).1) is Some,
    ensures
        answer_of(e) is Some,
        c.table.lookup(answer_of(e)->0) == Some(
            PendingRequest {
                pool_id: answer_of(e)->0,
                client_id: delivered_id(c.step(e, now).1)->0,
                kind: RequestKind::Ordinary,
            },
        ),
        !c.step(e, now).0.table.pending(answer_of(e)->0),
        match e {
            EventView::PoolResult(r) => c.step(e, now).1 == Ok::<ActionView, RelayError>(
                ActionView::ToClient(
                    StraumResultView { id: delivered_id(c.step(e, now).1)->0, ..r },
                ),
            ),
            EventView::PoolReply { frame, .. } => c.step(e, now).1 == Ok::<ActionView, RelayError>(
                ActionView::ReplyToClient { id: delivered_id(c.step(e, now).1)->0, frame },
            ),
            _ => false,
        },
{
    let id = answer_of(e)->0;
    let g = c.greeted();
    let p = g.table.position(id);
    g.table.lemma_position_unique(id, p);
    g.table.lemma_resolved_not_pending(id);
}

/// No request but a login reaches the pool before the client has logged in:
/// whenever a step puts anything on the pool's stream, the worker is
/// established when the step is done, and it was established before unless
/// the step is the one that registers it.
pub proof fn law_worker_before_traffic(c: ContextView, e: EventView, now: u64)
    ensures
        ({
            let (after, out) = c.step(e, now);
            &&& reaches_pool(out) ==> after.worker is Some
            &&& reaches_pool(out) && c.worker is None ==> out->Ok_0 is Register && Some(
                out->Ok_0->Register_0,
            ) == after.worker
        }),
{
}

/// When the pool closes its side, the writer that faces the client is shut
/// down, and from then on nothing is forwarded in either direction: every
/// later step yields nothing and changes nothing.
pub proof fn law_pool_eof_ends_relay(c: ContextView, events: Seq<TimedEvent>, j: int, k: int)
    requires
        0 <= j < k < events.len(),
        events[j].event == EventView::PoolEof,
    ensures
        !run(c, events.take(j)).closed ==> outcome_at(c, events, j) == Ok::<
            ActionView,
            RelayError,
        >(ActionView::ShutdownClient),
        run(c, events.take(j + 1)).closed,
        outcome_at(c, events, k) == Ok::<ActionView, RelayError>(ActionView::Nothing),
        run(c, events.take(k + 1)) == run(c, events.take(j + 1)),
{
    lemma_run_take(c, events, j);
    lemma_closed_from(c, events, j, k);
}

/// When the client closes its side first, the writer that faces the pool is
/// shut down and the table of pending requests is emptied; from then on no id
/// is given out and nothing is forwarded.
pub proof fn law_client_eof_ends_relay(c: ContextView, events: Seq<TimedEvent>, j: int, k: int)
    requires
        0 <= j < k < events.len(),
        events[j].event == EventView::ClientEof,
        !run(c, events.take(j)).closed,
    ensures
        outcome_at(c, events, j) == Ok::<ActionView, RelayError>(ActionView::ShutdownPool),
        run(c, events.take(j + 1)).closed,
        run(c, events.take(j + 1)).table.entries.len() == 0,
        run(c, events.take(j + 1)).table.next_id == run(c, events.take(j)).table.next_id,
        outcome_at(c, events, k) == Ok::<ActionView, RelayError>(ActionView::Nothing),
        run(c, events.take(k + 1)) == run(c, events.take(j + 1)),
{
    lemma_run_take(c, events, j);
    lemma_closed_from(c, events, j, k);
}

/// Every failure ends the connection: after a step that yields an error the
/// state is closed.
pub proof fn law_errors_are_fatal(c: ContextView, e: EventView, now: u64)
    ensures
        c.step(e, now).1 is Err ==> c.step(e, now).0.closed,
        c.step(e, now).1 is Err ==> !c.closed,
{
}

/// A step that gives out an id takes it from the counter it belongs to and
/// moves that counter past it; no step moves a counter back.
proof fn lemma_step_counters(c: ContextView, e: EventView, now: u64)
    requires
        c.wf(),
    ensures
        c.step(e, now).0.table.next_id >= c.table.next_id,
        c.step(e, now).0.table.next_fee_id >= c.table.next_fee_id,
        issued_id(c, e, now) is Some ==> {
            let id = issued_id(c, e, now)->0;
            if c.table.in_fee_range(id as int) {
                id == c.table.next_fee_id && c.step(e, now).0.table.next_fee_id > id
            } else {
                id == c.table.next_id && c.step(e, now).0.table.next_id > id
            }
        },
{
    law_counters_disjoint(c.table);
}

/// No run moves a counter back.
proof fn lemma_run_counters(c: ContextView, events: Seq<TimedEvent>)
    requires
        c.wf(),
    ensures
        run(c, events).table.next_id >= c.table.next_id,
        run(c, events).table.next_fee_id >= c.table.next_fee_id,
    decreases events.len(),
{
    if events.len() > 0 {
        lemma_run_counters(c, events.drop_last());
        law_run_keeps_invariant(c, events.drop_last());
        lemma_step_counters(run(c, events.drop_last()), events.last().event, events.last().now);
    }
}

/// No pool-facing id is given out twice in the life of a connection: the ids
/// that two different steps give out differ.
pub proof fn law_issued_ids_unique(c: ContextView, events: Seq<TimedEvent>, j: int, k: int)
    requires
        c.wf(),
        0 <= j < k < events.len(),
        issued_id(run(c, events.take(j)), events[j].event, events[j].now) is Some,
        issued_id(run(c, events.take(k)), events[k].event, events[k].now) is Some,
    ensures
        issued_id(run(c, events.take(j)), events[j].event, events[j].now) != issued_id(
            run(c, events.take(k)),
            events[k].event,
            events[k].now,
        ),
{
    let before_j = run(c, events.take(j));
    let after_j = run(c, events.take(j + 1));
    let before_k = run(c, events.take(k));
    law_run_keeps_invariant(c, events.take(j));
    law_run_keeps_invariant(c, events.take(j + 1));
    law_run_keeps_invariant(c, events.take(k));
    lemma_run_take(c, events, j);
    lemma_step_counters(before_j, events[j].event, events[j].now);
    lemma_run_split(c, events, j + 1, k);
    lemma_run_counters(after_j, events.subrange(j + 1, k));
    lemma_step_counters(before_k, events[k].event, events[k].now);
}

/// A step leaves a request that was issued once issued once.
proof fn lemma_step_keeps_issued(c: ContextView, e: EventView, now: u64, x: PendingRequest)
    requires
        c.wf(),
        issued_once(c.table, x),
    ensures
        issued_once(c.step(e, now).0.table, x),
{
    if !c.closed {
        match e {
            EventView::ClientRequest(m) => {
                lemma_issued_entry_stays_one(c.table, x, TableOp::Allocate { client_id: m.id });
            },
            EventView::ClientEof => {
                lemma_issued_entry_stays_one(c.table, x, TableOp::Discard);
            },
            EventView::PoolResult(r) => {
                lemma_issued_entry_stays_one(c.table, x, TableOp::Resolve { pool_id: r.id });
            },
            EventView::PoolReply { id, .. } => {
                lemma_issued_entry_stays_one(c.table, x, TableOp::Resolve { pool_id: id });
            },
            EventView::Tick => {
                lemma_issued_entry_stays_one(c.table, x, TableOp::AllocateFee);
                match c.fee_state {
                    FeeState::AwaitingReply { pool_id } => {
                        lemma_issued_entry_stays_one(c.table, x, TableOp::Resolve { pool_id });
                    },
                    _ => {},
                }
            },
            _ => {},
        }
    }
}

/// A run leaves a request that was issued once issued once.
proof fn lemma_run_keeps_issued(c: ContextView, events: Seq<TimedEvent>, x: PendingRequest)
    requires
        c.wf(),
        issued_once(c.table, x),
    ensures
        issued_once(run(c, events).table, x),
    decreases events.len(),
{
    if events.len() > 0 {
        lemma_run_keeps_issued(c, events.drop_last(), x);
        law_run_keeps_invariant(c, events.drop_last());
        lemma_step_keeps_issued(
            run(c, events.drop_last()),
            events.last().event,
            events.last().now,
            x,
        );
    }
}

/// The id that a client gave its request comes back with the answer: when a
/// request of the client went to the pool under a new id, and a later answer
/// of the pool under that id reaches the client, then it reaches the client
/// under the id of that request, whatever else the connection relayed in
/// between.
pub proof fn law_reply_carries_request_id(c: ContextView, events: Seq<TimedEvent>, j: int, k: int)
    requires
        c.wf(),
        0 <= j < k < events.len(),
        events[j].event is ClientRequest,
        issued_id(run(c, events.take(j)), events[j].event, events[j].now) is Some,
        answer_of(events[k].event) == issued_id(
            run(c, events.take(j)),
            events[j].event,
            events[j].now,
        ),
        delivered_id(outcome_at(c, events, k)) is Some,
    ensures
        delivered_id(outcome_at(c, events, k)) == Some(events[j].event->ClientRequest_0.id),
{
    let before_j = run(c, events.take(j));
    let after_j = run(c, events.take(j + 1));
    let before_k = run(c, events.take(k));
    let m = events[j].event->ClientRequest_0;
    let y = issued_id(before_j, events[j].event, events[j].now)->0;
    let x = PendingRequest { pool_id: y, client_id: m.id, kind: RequestKind::Ordinary };
    law_run_keeps_invariant(c, events.take(j));
    law_run_keeps_invariant(c, events.take(j + 1));
    law_run_keeps_invariant(c, events.take(k));
    lemma_run_take(c, events, j);
    lemma_step_counters(before_j, events[j].event, events[j].now);
    law_counters_disjoint(before_j.table);
    assert(issued_once(after_j.table, x)) by {
        law_allocate_then_resolve(before_j.table, m.id);
    }
    lemma_run_split(c, events, j + 1, k);
    lemma_run_keeps_issued(after_j, events.subrange(j + 1, k), x);
    law_answer_goes_to_requester(before_k, events[k].event, events[k].now);
}

/// Every ordinary entry of the table after a step stood in it before, or is
/// the entry of the request that the step forwarded for the client.
proof fn lemma_step_entries(c: ContextView, e: EventView, now: u64, i: int)
    requires
        c.wf(),
        0 <= i < c.step(e, now).0.table.entries.len(),
        c.step(e, now).0.table.entries[i].kind == RequestKind::Ordinary,
    ensures
        c.table.entries.contains(c.step(e, now).0.table.entries[i]) || (e is ClientRequest
            && c.step(e, now).0.table.entries[i].client_id == e->ClientRequest_0.id),
{
    let after = c.step(e, now).0.table;
    let entry = after.entries[i];
    if !c.closed {
        match e {
            EventView::ClientRequest(m) => {
                if after != c.table {
                    let n = PendingRequest {
                        pool_id: c.table.next_id as i64,
                        client_id: m.id,
                        kind: RequestKind::Ordinary,
                    };
                    c.table.lemma_next_id_fresh();
                    c.table.lemma_take_in(n);
                    assert(after.entries == c.table.take_in(n));
                    if i == after.entries.len() - 1 {
                        assert(entry == n);
                    } else {
                        assert(c.table.entries.contains(after.entries[i]));
                    }
                } else {
                    assert(c.table.entries[i] == entry);
                }
            },
            EventView::PoolResult(r) => {
                let g = c.greeted();
                if g.table.pending(r.id) {
                    let p = g.table.position(r.id);
                    let k = if i < p {
                        i
                    } else {
                        i + 1
                    };
                    assert(entry == c.table.entries[k]);
                } else {
                    assert(c.table.entries[i] == entry);
                }
            },
            EventView::PoolReply { id, .. } => {
                let g = c.greeted();
                if g.table.pending(id) {
                    let p = g.table.position(id);
                    let k = if i < p {
                        i
                    } else {
                        i + 1
                    };
                    assert(entry == c.table.entries[k]);
                } else {
                    assert(c.table.entries[i] == entry);
                }
            },
            EventView::Tick => {
                if after == c.table {
                    assert(c.table.entries[i] == entry);
                } else {
                    match c.fee_state {
                        FeeState::AwaitingWindow { .. } => {
                            let n = PendingRequest {
                                pool_id: c.table.next_fee_id as i64,
                                client_id: c.table.next_fee_id as i64,
                                kind: RequestKind::Fee,
                            };
                            c.table.lemma_next_fee_id_fresh();
                            c.table.lemma_take_in(n);
                            assert(after.entries == c.table.take_in(n));
                            if i == after.entries.len() - 1 {
                                assert(entry == n);
                            } else {
                                assert(c.table.entries.contains(after.entries[i]));
                            }
                        },
                        FeeState::AwaitingReply { pool_id } => {
                            if c.table.pending(pool_id) {
                                let p = c.table.position(pool_id);
                                let k = if i < p {
                                    i
                                } else {
                                    i + 1
                                };
                                assert(entry == c.table.entries[k]);
                            } else {
                                assert(c.table.entries[i] == entry);
                            }
                        },
                        _ => {
                            assert(c.table.entries[i] == entry);
                        },
                    }
                }
            },
            EventView::ClientEof => {},
            _ => {
                assert(c.table.entries[i] == entry);
            },
        }
    } else {
        assert(c.table.entries[i] == entry);
    }
}

/// On a connection that began with an empty table, every ordinary entry of
/// the table carries an id that the client has sent.
proof fn lemma_entries_from_client(c: ContextView, events: Seq<TimedEvent>, k: int)
    requires
        c.wf(),
        c.table.entries.len() == 0,
        0 <= k <= events.len(),
    ensures
        entries_from_client(run(c, events.take(k)), events, k),
    decreases k,
{
    if k == 0 {
        assert(events.take(0) =~= Seq::<TimedEvent>::empty());
    } else {
        let before = run(c, events.take(k - 1));
        let after = run(c, events.take(k));
        let e = events[k - 1];
        lemma_entries_from_client(c, events, k - 1);
        law_run_keeps_invariant(c, events.take(k - 1));
        lemma_run_take(c, events, k - 1);
        assert forall|i: int|
            0 <= i < after.table.entries.len() && (#[trigger] after.table.entries[i]).kind
                == RequestKind::Ordinary implies client_sent(
            events,
            k,
            after.table.entries[i].client_id,
        ) by {
            let entry = after.table.entries[i];
            lemma_step_entries(before, e.event, e.now, i);
            if before.table.entries.contains(entry) {
                let m = choose|m: int|
                    0 <= m < before.table.entries.len() && before.table.entries[m] == entry;
                assert(client_sent(events, k - 1, before.table.entries[m].client_id));
                let j = choose|j: int|
                    0 <= j < k - 1 && j < events.len() && (#[trigger] events[j]).event
                        is ClientRequest && events[j].event->ClientRequest_0.id
                        == entry.client_id;
                assert(events[j].event is ClientRequest);
            } else {
                assert(events[k - 1].event is ClientRequest);
            }
        }
    }
}

/// Every answer that reaches the client carries an id that the client itself
/// sent earlier on the same connection: no id that the relay made up is ever
/// shown to the client.
pub proof fn law_client_sees_only_its_ids(c: ContextView, events: Seq<TimedEvent>, k: int)
    requires
        c.wf(),
        c.table.entries.len() == 0,
        0 <= k < events.len(),
        delivered_id(outcome_at(c, events, k)) is Some,
    ensures
        client_sent(events, k, delivered_id(outcome_at(c, events, k))->0),
{
    let before = run(c, events.take(k));
    law_run_keeps_invariant(c, events.take(k));
    lemma_entries_from_client(c, events, k);
    law_answer_goes_to_requester(before, events[k].event, events[k].now);
    let id = answer_of(events[k].event)->0;
    let p = before.table.position(id);
    assert(before.table.entries[p].kind == RequestKind::Ordinary);
}

/// The first request of a client, where it is a login and an id is left for
/// it, establishes the worker that its login string stands for and goes to
/// the pool as the same login under a new id, with the full login string of
/// that worker in the place of the client's: unchanged where the client's
/// named a worker, completed by the default name where it did not.
pub proof fn law_login_establishes_worker(c: ContextView, m: StraumRootView, now: u64)
    requires
        c.wf(),
        !c.closed,
        c.worker is None,
        wallet_of(m) is Some,
        c.table.can_allocate(),
    ensures
        ({
            let login = wallet_of(m)->0;
            let w = identity_of(login, default_worker_name());
            let (after, out) = c.step(EventView::ClientRequest(m), now);
            &&& out is Ok
            &&& out->Ok_0 is Register
            &&& out->Ok_0->Register_0 == w
            &&& after.worker == Some(w)
            &&& after.worker_name == w.login
            &&& out->Ok_0->Register_1.id == c.table.next_id
            &&& out->Ok_0->Register_1.method == m.method
            &&& out->Ok_0->Register_1.params == m.params.update(0, w.login)
            &&& has_char(login, '.') ==> out->Ok_0->Register_1.params == m.params
        }),
{
    let login = wallet_of(m)->0;
    let w = identity_of(login, default_worker_name());
    if has_char(login, '.') {
        assert(m.params.update(0, w.login) =~= m.params);
    }
}

/// A share of the relay's own is sent only when its time has come: the step
/// that sends one is a tick on a connection that waited for the window, the
/// window has passed, and the share is a submit under the next reserved id
/// that credits the fee wallet for the job that was seen last. The share is
/// then pending as the relay's own, and the cycle stands at injecting.
pub proof fn law_fee_share_is_due(c: ContextView, e: EventView, now: u64, share: StraumRootView)
    requires
        c.wf(),
        c.step(e, now).1 == Ok::<ActionView, RelayError>(ActionView::InjectFee(share)),
    ensures
        e is Tick,
        c.fee_state is AwaitingWindow,
        c.fee_state.window_passed(now, c.fee_window),
        c.can_inject(),
        share == fee_request(c.table.next_fee_id as i64, c.fee_wallet, c.latest_job->0),
        share.params[0] == c.fee_wallet,
        c.step(e, now).0.fee_state == (FeeState::Injecting { pool_id: share.id }),
        c.step(e, now).0.table.lookup(share.id) == Some(
            PendingRequest { pool_id: share.id, client_id: share.id, kind: RequestKind::Fee },
        ),
{
    let after = c.step(e, now).0.table;
    c.table.lemma_apply_wf(TableOp::AllocateFee);
    c.table.lemma_next_fee_id_fresh();
    c.table.lemma_take_in(
        PendingRequest { pool_id: share.id, client_id: share.id, kind: RequestKind::Fee },
    );
    after.lemma_position_unique(share.id, after.entries.len() - 1);
}

/// The relay keeps to the cycle of its own shares: a step leaves the state of
/// the cycle as it is or moves it to the state that follows; only where a
/// reply was awaited and the wait ends does it pass through idle and begin
/// the next wait in the same step.
pub proof fn law_relay_keeps_to_cycle(c: ContextView, e: EventView, now: u64)
    ensures
        ({
            let after = c.step(e, now).0.fee_state;
            ||| c.fee_state.steps_to(after)
            ||| c.fee_state is AwaitingReply && c.fee_state.steps_to(FeeState::Idle)
                && FeeState::Idle.steps_to(after) && after == FeeState::Idle.armed(now)
        }),
{
}

/// A writer is shut down only by the step that closes the connection, and
/// every step that closes it shuts at least one: once a writer has been shut,
/// the connection is closed for both directions.
pub proof fn law_teardown_closes(c: ContextView, e: EventView, now: u64)
    ensures
        ({
            let (after, out) = c.step(e, now);
            let t = teardown_of(out);
            (t.client_writer || t.pool_writer) <==> (!c.closed && after.closed)
        }),
{
}

} // verus!
