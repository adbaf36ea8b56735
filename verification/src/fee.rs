//! The bookkeeping of the shares that the relay itself submits: the cycle of
//! states that decides when one is due, and the records of those in flight.

use vstd::prelude::*;

verus! {

/// One relay-originated share that the pool has not answered yet.
#[derive(Debug, PartialEq)]
pub struct FeeJobRecord {
    /// The pool-facing id that the share went out with.
    pub pool_id: i64,
    /// When it was sent.
    pub submitted_at: u64,
    /// The wallet that it credits.
    pub wallet: String,
}

/// What a `FeeJobRecord` holds.
pub struct FeeJobRecordView {
    pub pool_id: i64,
    pub submitted_at: u64,
    pub wallet: Seq<char>,
}

impl View for FeeJobRecord {
    type V = FeeJobRecordView;

    open spec fn view(&self) -> FeeJobRecordView {
        FeeJobRecordView {
            pool_id: self.pool_id,
            submitted_at: self.submitted_at,
            wallet: self.wallet@,
        }
    }
}

/// True when a share sent at `submitted_at` has waited `max_wait` or longer at
/// the time `now`.
pub open spec fn waited_out(submitted_at: u64, now: u64, max_wait: u64) -> bool {
    now - submitted_at >= max_wait
}

/// True when some record in `records` carries `pool_id`.
pub open spec fn holds(records: Seq<FeeJobRecordView>, pool_id: i64) -> bool {
    exists|i: int| 0 <= i < records.len() && records[i].pool_id == pool_id
}

/// The condition that a record does not carry `pool_id`.
pub open spec fn other_than(pool_id: i64) -> spec_fn(FeeJobRecordView) -> bool {
    |r: FeeJobRecordView| r.pool_id != pool_id
}

/// The condition that a record has not waited `max_wait` at the time `now`.
pub open spec fn still_waiting(now: u64, max_wait: u64) -> spec_fn(FeeJobRecordView) -> bool {
    |r: FeeJobRecordView| !waited_out(r.submitted_at, now, max_wait)
}

/// The records of `records` that do not carry `pool_id`, in their order.
pub open spec fn without(records: Seq<FeeJobRecordView>, pool_id: i64) -> Seq<FeeJobRecordView> {
    records.filter(other_than(pool_id))
}

/// The records of `records` that have not waited `max_wait` at the time
/// `now`, in their order.
pub open spec fn unexpired(records: Seq<FeeJobRecordView>, now: u64, max_wait: u64) -> Seq<
    FeeJobRecordView,
> {
    records.filter(still_waiting(now, max_wait))
}

/// True when no pool-facing id occurs twice in `records`.
pub open spec fn distinct_ids(records: Seq<FeeJobRecordView>) -> bool {
    forall|i: int, j: int| 0 <= i < j < records.len() ==> records[i].pool_id != records[j].pool_id
}

/// A record that passed a filter stood in the unfiltered sequence and meets
/// the filter's condition.
pub proof fn lemma_filtered_came_from(
    records: Seq<FeeJobRecordView>,
    pred: spec_fn(FeeJobRecordView) -> bool,
    i: int,
)
    requires
        0 <= i < records.filter(pred).len(),
    ensures
        pred(records.filter(pred)[i]),
        exists|m: int| 0 <= m < records.len() && records[m] == records.filter(pred)[i],
{
    let f = records.filter(pred);
    assert(f.contains(f[i]));
    records.lemma_filter_contains_rev(pred, f[i]);
    assert(records.contains(f[i]));
}

/// Filtering records with distinct ids leaves records with distinct ids.
pub proof fn lemma_filter_keeps_distinct(
    records: Seq<FeeJobRecordView>,
    pred: spec_fn(FeeJobRecordView) -> bool,
)
    requires
        distinct_ids(records),
    ensures
        distinct_ids(records.filter(pred)),
    decreases records.len(),
{
    reveal(Seq::filter);
    let f = records.filter(pred);
    if records.len() > 0 {
        let rest = records.drop_last();
        let last = records.last();
        assert(distinct_ids(rest)) by {
            assert forall|i: int, j: int| 0 <= i < j < rest.len() implies rest[i].pool_id
                != rest[j].pool_id by {
                assert(records[i].pool_id != records[j].pool_id);
            }
        }
        lemma_filter_keeps_distinct(rest, pred);
        let g = rest.filter(pred);
        assert forall|i: int, j: int| 0 <= i < j < f.len() implies f[i].pool_id != f[j].pool_id by {
            if j == g.len() {
                assert(f[j] == last);
                assert(f[i] == g[i]);
                lemma_filtered_came_from(rest, pred, i);
                let m = choose|m: int| 0 <= m < rest.len() && rest[m] == g[i];
                assert(records[m].pool_id != records[records.len() - 1].pool_id);
            } else {
                assert(g[i].pool_id != g[j].pool_id);
            }
        }
    }
}

/// After the records with `pool_id` were filtered out, none carries it.
pub proof fn lemma_without_drops(records: Seq<FeeJobRecordView>, pool_id: i64)
    ensures
        !holds(without(records, pool_id), pool_id),
{
    let pred = other_than(pool_id);
    let f = records.filter(pred);
    if holds(f, pool_id) {
        let k = choose|k: int| 0 <= k < f.len() && f[k].pool_id == pool_id;
        lemma_filtered_came_from(records, pred, k);
    }
}

/// The records of the relay-originated shares of one connection that are in
/// flight. No pool-facing id has two records.
pub struct FeeJobs {
    records: Vec<FeeJobRecord>,
}

impl View for FeeJobs {
    type V = Seq<FeeJobRecordView>;

    closed spec fn view(&self) -> Seq<FeeJobRecordView> {
        Seq::new(self.records@.len(), |i: int| self.records@[i]@)
    }
}

impl FeeJobs {
    /// The invariant that `new` establishes and every method keeps.
    pub open spec fn wf(&self) -> bool {
        distinct_ids(self@)
    }

    /// No records.
    pub fn new() -> (r: Self)
        ensures
            r@ == Seq::<FeeJobRecordView>::empty(),
            r.wf(),
    {
        let r = FeeJobs { records: Vec::new() };
        assert(r@ =~= Seq::<FeeJobRecordView>::empty());
        r
    }

    /// How many shares are in flight.
    pub fn len(&self) -> (n: usize)
        ensures
            n == self@.len(),
    {
        self.records.len()
    }

    /// True when a share with `pool_id` is in flight.
    pub fn contains(&self, pool_id: i64) -> (b: bool)
        ensures
            b == holds(self@, pool_id),
    {
        let mut i: usize = 0;
        while i < self.records.len()
            invariant
                i <= self.records.len(),
                forall|j: int| 0 <= j < i ==> self@[j].pool_id != pool_id,
            decreases self.records.len() - i,
        {
            if self.records[i].pool_id == pool_id {
                assert(self@[i as int].pool_id == pool_id);
                return true;
            }
            i += 1;
        }
        false
    }

    /// Drops the record of the share with `pool_id`, if there is one, and says
    /// whether there was.
    pub fn remove(&mut self, pool_id: i64) -> (found: bool)
        requires
            old(self).wf(),
        ensures
            final(self).wf(),
            found == holds(old(self)@, pool_id),
            final(self)@ == without(old(self)@, pool_id),
            !holds(final(self)@, pool_id),
    {
        let ghost before = self@;
        let ghost pred = other_than(pool_id);
        let mut kept: Vec<FeeJobRecord> = Vec::new();
        let mut found = false;
        let n: usize = self.records.len();
        let mut i: usize = 0;
        proof {
            reveal(Seq::filter);
            assert(before.take(0).filter(pred) =~= Seq::<FeeJobRecordView>::empty());
        }
        while i < n
            invariant
                i <= n,
                n == self.records.len(),
                self@ == before,
                kept.len() <= i,
                pred == other_than(pool_id),
                Seq::new(kept@.len(), |k: int| kept@[k]@) == before.take(i as int).filter(pred),
                found == holds(before.take(i as int), pool_id),
            decreases n - i,
        {
            let r = &self.records[i];
            proof {
                let prefix = before.take(i as int);
                let next = before.take(i + 1);
                assert(next.drop_last() =~= prefix);
                assert(next.last() == before[i as int]);
                assert(before[i as int] == r@);
                reveal(Seq::filter);
                assert(next.filter(pred) == if pred(next.last()) {
                    prefix.filter(pred).push(next.last())
                } else {
                    prefix.filter(pred)
                });
                if holds(prefix, pool_id) {
                    let k = choose|k: int| 0 <= k < prefix.len() && prefix[k].pool_id == pool_id;
                    assert(next[k].pool_id == pool_id);
                }
                if holds(next, pool_id) && r.pool_id != pool_id {
                    let k = choose|k: int| 0 <= k < next.len() && next[k].pool_id == pool_id;
                    assert(prefix[k].pool_id == pool_id);
                }
                if r.pool_id == pool_id {
                    assert(next[i as int].pool_id == pool_id);
                }
            }
            if r.pool_id == pool_id {
                found = true;
            } else {
                let ghost was = Seq::new(kept@.len(), |k: int| kept@[k]@);
                kept.push(
                    FeeJobRecord {
                        pool_id: r.pool_id,
                        submitted_at: r.submitted_at,
                        wallet: r.wallet.clone(),
                    },
                );
                assert(Seq::new(kept@.len(), |k: int| kept@[k]@) =~= was.push(r@));
            }
            i += 1;
        }
        proof {
            assert(before.take(n as int) =~= before);
            lemma_filter_keeps_distinct(before, pred);
            lemma_without_drops(before, pool_id);
        }
        self.records = kept;
        found
    }

    /// Records a share in flight. An earlier record with the same id gives
    /// way to the new one.
    pub fn insert(&mut self, record: FeeJobRecord)
        requires
            old(self).wf(),
        ensures
            final(self).wf(),
            final(self)@ == without(old(self)@, record.pool_id).push(record@),
            holds(final(self)@, record.pool_id),
    {
        let ghost before = self@;
        self.remove(record.pool_id);
        let ghost mid = self@;
        self.records.push(record);
        proof {
            assert(self@ =~= mid.push(record@));
            assert(self@[self@.len() - 1].pool_id == record.pool_id);
            assert forall|i: int, j: int| 0 <= i < j < self@.len() implies self@[i].pool_id
                != self@[j].pool_id by {
                if j == self@.len() - 1 {
                    assert(mid[i].pool_id == self@[i].pool_id);
                    if mid[i].pool_id == record.pool_id {
                        assert(holds(mid, record.pool_id));
                    }
                } else {
                    assert(mid[i].pool_id != mid[j].pool_id);
                }
            }
        }
    }

    /// Drops every record of a share that has waited `max_wait` or longer at
    /// the time `now`, answered or not.
    pub fn expire(&mut self, now: u64, max_wait: u64)
        requires
            old(self).wf(),
        ensures
            final(self).wf(),
            final(self)@ == unexpired(old(self)@, now, max_wait),
    {
        let ghost before = self@;
        let ghost pred = still_waiting(now, max_wait);
        let mut kept: Vec<FeeJobRecord> = Vec::new();
        let n: usize = self.records.len();
        let mut i: usize = 0;
        proof {
            reveal(Seq::filter);
            assert(before.take(0).filter(pred) =~= Seq::<FeeJobRecordView>::empty());
        }
        while i < n
            invariant
                i <= n,
                n == self.records.len(),
                self@ == before,
                pred == still_waiting(now, max_wait),
                Seq::new(kept@.len(), |k: int| kept@[k]@) == before.take(i as int).filter(pred),
            decreases n - i,
        {
            let r = &self.records[i];
            proof {
                let prefix = before.take(i as int);
                let next = before.take(i + 1);
                assert(next.drop_last() =~= prefix);
                assert(next.last() == before[i as int]);
                assert(before[i as int] == r@);
                reveal(Seq::filter);
                assert(next.filter(pred) == if pred(next.last()) {
                    prefix.filter(pred).push(next.last())
                } else {
                    prefix.filter(pred)
                });
            }
            let stale = now >= r.submitted_at && now - r.submitted_at >= max_wait;
            if !stale {
                let ghost was = Seq::new(kept@.len(), |k: int| kept@[k]@);
                kept.push(
                    FeeJobRecord {
                        pool_id: r.pool_id,
                        submitted_at: r.submitted_at,
                        wallet: r.wallet.clone(),
                    },
                );
                assert(Seq::new(kept@.len(), |k: int| kept@[k]@) =~= was.push(r@));
            }
            i += 1;
        }
        proof {
            assert(before.take(n as int) =~= before);
            lemma_filter_keeps_distinct(before, pred);
        }
        self.records = kept;
    }
}

/// Where the cycle of relay-originated shares stands.
#[derive(Clone, Copy, Debug, PartialEq, Eq, Structural)]
pub enum FeeState {
    /// Nothing is due and nothing is in flight.
    Idle,
    /// Waiting for the window that began at `since` to pass.
    AwaitingWindow { since: u64 },
    /// A share with `pool_id` was built and handed over for sending.
    Injecting { pool_id: i64 },
    /// The share with `pool_id` was sent and its reply is awaited.
    AwaitingReply { pool_id: i64 },
}

impl FeeState {
    /// From `Idle`, the wait for the next window begins at once.
    pub open spec fn armed(self, now: u64) -> FeeState {
        match self {
            FeeState::Idle => FeeState::AwaitingWindow { since: now },
            _ => self,
        }
    }

    /// True when the window that is waited for has passed at the time `now`.
    pub open spec fn window_passed(self, now: u64, window: u64) -> bool {
        match self {
            FeeState::AwaitingWindow { since } => now - since >= window,
            _ => false,
        }
    }

    /// When the window has passed, a share with `pool_id` is built.
    pub open spec fn injecting(self, pool_id: i64) -> FeeState {
        match self {
            FeeState::AwaitingWindow { .. } => FeeState::Injecting { pool_id },
            _ => self,
        }
    }

    /// Once the share is on its way, its reply is awaited.
    pub open spec fn sent(self) -> FeeState {
        match self {
            FeeState::Injecting { pool_id } => FeeState::AwaitingReply { pool_id },
            _ => self,
        }
    }

    /// The reply to the share with `pool_id`, or the end of the wait for it,
    /// closes the cycle.
    pub open spec fn settled(self, pool_id: i64) -> FeeState {
        match self {
            FeeState::AwaitingReply { pool_id: awaited } => if awaited == pool_id {
                FeeState::Idle
            } else {
                self
            },
            _ => self,
        }
    }

    /// The end of a cycle and the start of the next in one move: where the
    /// share with `pool_id` was awaited, the state is idle for no longer than
    /// it takes to begin the next wait.
    pub open spec fn finished(self, pool_id: i64, now: u64) -> FeeState {
        if self.settled(pool_id) == self {
            self
        } else {
            self.settled(pool_id).armed(now)
        }
    }

    /// True while a relay-originated share is being built or is in flight.
    pub open spec fn suppressing(self) -> bool {
        self is Injecting || self is AwaitingReply
    }

    /// True when `next` is `self` or the state that follows it in the cycle.
    pub open spec fn steps_to(self, next: FeeState) -> bool {
        ||| next == self
        ||| self is Idle && next is AwaitingWindow
        ||| self is AwaitingWindow && next is Injecting
        ||| self is Injecting && next is AwaitingReply && next->AwaitingReply_pool_id
            == self->Injecting_pool_id
        ||| self is AwaitingReply && next is Idle
    }

    /// See `armed`.
    pub fn arm(self, now: u64) -> (r: FeeState)
        ensures
            r == self.armed(now),
    {
        match self {
            FeeState::Idle => FeeState::AwaitingWindow { since: now },
            _ => self,
        }
    }

    /// See `window_passed`.
    pub fn is_window_passed(self, now: u64, window: u64) -> (b: bool)
        ensures
            b == self.window_passed(now, window),
    {
        match self {
            FeeState::AwaitingWindow { since } => now >= since && now - since >= window,
            _ => false,
        }
    }

    /// See `injecting`.
    pub fn inject(self, pool_id: i64) -> (r: FeeState)
        ensures
            r == self.injecting(pool_id),
    {
        match self {
            FeeState::AwaitingWindow { .. } => FeeState::Injecting { pool_id },
            _ => self,
        }
    }

    /// See `sent`.
    pub fn mark_sent(self) -> (r: FeeState)
        ensures
            r == self.sent(),
    {
        match self {
            FeeState::Injecting { pool_id } => FeeState::AwaitingReply { pool_id },
            _ => self,
        }
    }

    /// See `settled`.
    pub fn settle(self, pool_id: i64) -> (r: FeeState)
        ensures
            r == self.settled(pool_id),
    {
        match self {
            FeeState::AwaitingReply { pool_id: awaited } => if awaited == pool_id {
                FeeState::Idle
            } else {
                self
            },
            _ => self,
        }
    }

    /// See `finished`.
    pub fn finish(self, pool_id: i64, now: u64) -> (r: FeeState)
        ensures
            r == self.finished(pool_id, now),
    {
        match self {
            FeeState::AwaitingReply { pool_id: awaited } => if awaited == pool_id {
                FeeState::Idle.arm(now)
            } else {
                self
            },
            _ => self,
        }
    }

    /// See `suppressing`.
    pub fn is_suppressing(self) -> (b: bool)
        ensures
            b == self.suppressing(),
    {
        match self {
            FeeState::Injecting { .. } | FeeState::AwaitingReply { .. } => true,
            _ => false,
        }
    }
}

/// Every transition keeps to the cycle: from idle to the wait for the window,
/// from there to the building of a share, from there to the wait for its
/// reply, and from there to idle again. None skips a state or goes back.
pub proof fn law_fee_cycle(s: FeeState, now: u64, pool_id: i64)
    ensures
        s.steps_to(s.armed(now)),
        s.steps_to(s.injecting(pool_id)),
        s.steps_to(s.sent()),
        s.steps_to(s.settled(pool_id)),
        FeeState::Idle.armed(now) is AwaitingWindow,
{
}

} // verus!
