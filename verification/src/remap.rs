//! The per-connection table that correlates the ids a client chose for its
//! requests with the ids under which the relay forwarded them to the pool.
//!
//! Pool-facing ids come from two counters that never meet: ordinary requests
//! take increasing ids outside a reserved range, and requests that the relay
//! itself originates take increasing ids inside it. The table is bounded: when
//! it is full, the oldest entry gives way to the new one.

use vstd::prelude::*;

verus! {

/// Who originated a forwarded request.
#[derive(Clone, Copy, Debug, PartialEq, Eq, Structural)]
pub enum RequestKind {
    /// A request of the client, whose reply goes back to the client.
    Ordinary,
    /// A request of the relay itself, whose reply is never shown to the client.
    Fee,
}

/// One forwarded request that the pool has not answered yet.
///
/// A request of kind `Fee` has no client: its `client_id` repeats `pool_id`.
#[derive(Clone, Copy, Debug, PartialEq, Eq, Structural)]
pub struct PendingRequest {
    pub pool_id: i64,
    pub client_id: i64,
    pub kind: RequestKind,
}

/// The mathematical content of an `IdRemapTable`.
pub struct TableModel {
    /// The pending requests, oldest first.
    pub entries: Seq<PendingRequest>,
    /// The id that the next ordinary request will take.
    pub next_id: int,
    /// The id that the next relay-originated request will take.
    pub next_fee_id: int,
    /// First id of the reserved range.
    pub fee_first: int,
    /// Last id of the reserved range.
    pub fee_last: int,
    /// The most entries the table holds at once.
    pub capacity: nat,
}

/// One operation on a table, for statements about sequences of them.
pub enum TableOp {
    /// An ordinary request with `client_id` takes the next id.
    Allocate { client_id: i64 },
    /// A relay-originated request takes the next reserved id.
    AllocateFee,
    /// The pending request with `pool_id`, if any, leaves the table.
    Resolve { pool_id: i64 },
    /// Every pending request is dropped.
    Discard,
}

impl TableModel {
    /// True when `id` lies in the range reserved for relay-originated requests.
    pub open spec fn in_fee_range(self, id: int) -> bool {
        self.fee_first <= id <= self.fee_last
    }

    /// The first id at or after `id` that lies outside the reserved range.
    pub open spec fn skip_reserved(self, id: int) -> int {
        if self.in_fee_range(id) {
            self.fee_last + 1
        } else {
            id
        }
    }

    /// True when some pending request carries `pool_id`.
    pub open spec fn pending(self, pool_id: i64) -> bool {
        exists|i: int| 0 <= i < self.entries.len() && self.entries[i].pool_id == pool_id
    }

    /// The position of the pending request that carries `pool_id`.
    pub open spec fn position(self, pool_id: i64) -> int {
        choose|i: int| 0 <= i < self.entries.len() && self.entries[i].pool_id == pool_id
    }

    /// The pending request that carries `pool_id`, if there is one.
    pub open spec fn lookup(self, pool_id: i64) -> Option<PendingRequest> {
        if self.pending(pool_id) {
            Some(self.entries[self.position(pool_id)])
        } else {
            None
        }
    }

    /// The invariant of a table: it respects its bound, no pool-facing id is
    /// pending twice, every ordinary entry was issued by the ordinary counter
    /// outside the reserved range, and every fee entry by the fee counter
    /// inside it.
    pub open spec fn wf(self) -> bool {
        &&& self.capacity >= 1
        &&& self.entries.len() <= self.capacity
        &&& i64::MIN <= self.fee_first <= self.fee_last < i64::MAX
        &&& i64::MIN <= self.next_id <= i64::MAX
        &&& !self.in_fee_range(self.next_id)
        &&& self.fee_first <= self.next_fee_id <= self.fee_last + 1
        &&& forall|i: int, j: int|
            0 <= i < j < self.entries.len() ==> self.entries[i].pool_id != self.entries[j].pool_id
        &&& forall|i: int|
            0 <= i < self.entries.len() ==> self.entry_issued(#[trigger] self.entries[i])
    }

    /// True when `e` can only have come from one of this table's counters.
    pub open spec fn entry_issued(self, e: PendingRequest) -> bool {
        match e.kind {
            RequestKind::Ordinary => e.pool_id < self.next_id && !self.in_fee_range(e.pool_id as int),
            RequestKind::Fee => self.fee_first <= e.pool_id < self.next_fee_id && e.client_id
                == e.pool_id,
        }
    }

    /// The empty table that starts issuing ordinary ids at `first_id`, or just
    /// behind the reserved range where `first_id` lies inside it.
    pub open spec fn initial(first_id: i64, fee_first: i64, fee_last: i64, capacity: usize) -> TableModel {
        TableModel {
            entries: Seq::empty(),
            next_id: if fee_first <= first_id <= fee_last {
                fee_last + 1
            } else {
                first_id as int
            },
            next_fee_id: fee_first as int,
            fee_first: fee_first as int,
            fee_last: fee_last as int,
            capacity: capacity as nat,
        }
    }

    /// The entries after `e` was taken in: appended, after the oldest entry
    /// left where the table was full.
    pub open spec fn take_in(self, e: PendingRequest) -> Seq<PendingRequest> {
        if self.entries.len() < self.capacity {
            self.entries.push(e)
        } else {
            self.entries.drop_first().push(e)
        }
    }

    /// True while the ordinary counter has an id left to give.
    pub open spec fn can_allocate(self) -> bool {
        self.next_id < i64::MAX
    }

    /// True while the fee counter has an id left to give.
    pub open spec fn can_allocate_fee(self) -> bool {
        self.next_fee_id <= self.fee_last
    }

    /// The table after an ordinary request with `client_id` took the next id.
    pub open spec fn after_allocate(self, client_id: i64) -> TableModel {
        if self.can_allocate() {
            TableModel {
                entries: self.take_in(
                    PendingRequest {
                        pool_id: self.next_id as i64,
                        client_id,
                        kind: RequestKind::Ordinary,
                    },
                ),
                next_id: self.skip_reserved(self.next_id + 1),
                ..self
            }
        } else {
            self
        }
    }

    /// The table after a relay-originated request took the next reserved id.
    pub open spec fn after_allocate_fee(self) -> TableModel {
        if self.can_allocate_fee() {
            TableModel {
                entries: self.take_in(
                    PendingRequest {
                        pool_id: self.next_fee_id as i64,
                        client_id: self.next_fee_id as i64,
                        kind: RequestKind::Fee,
                    },
                ),
                next_fee_id: self.next_fee_id + 1,
                ..self
            }
        } else {
            self
        }
    }

    /// The table after the pending request with `pool_id`, if any, left it.
    pub open spec fn after_resolve(self, pool_id: i64) -> TableModel {
        if self.pending(pool_id) {
            TableModel { entries: self.entries.remove(self.position(pool_id)), ..self }
        } else {
            self
        }
    }

    /// The table after every pending request was dropped. The counters stay:
    /// an id once issued is never issued again.
    pub open spec fn after_discard(self) -> TableModel {
        TableModel { entries: Seq::empty(), ..self }
    }

    /// The table after one operation.
    pub open spec fn apply(self, op: TableOp) -> TableModel {
        match op {
            TableOp::Allocate { client_id } => self.after_allocate(client_id),
            TableOp::AllocateFee => self.after_allocate_fee(),
            TableOp::Resolve { pool_id } => self.after_resolve(pool_id),
            TableOp::Discard => self.after_discard(),
        }
    }

    /// The table after a sequence of operations, first to last.
    pub open spec fn apply_all(self, ops: Seq<TableOp>) -> TableModel
        decreases ops.len(),
    {
        if ops.len() == 0 {
            self
        } else {
            self.apply(ops[0]).apply_all(ops.drop_first())
        }
    }

    /// In a well-formed table the position of a pending id is the only place
    /// where that id stands.
    pub proof fn lemma_position_unique(self, pool_id: i64, i: int)
        requires
            self.wf(),
            0 <= i < self.entries.len(),
            self.entries[i].pool_id == pool_id,
        ensures
            self.pending(pool_id),
            self.position(pool_id) == i,
            self.lookup(pool_id) == Some(self.entries[i]),
    {
        let p = self.position(pool_id);
        assert(0 <= p < self.entries.len() && self.entries[p].pool_id == pool_id);
        if p < i {
            assert(self.entries[p].pool_id != self.entries[i].pool_id);
        } else if i < p {
            assert(self.entries[i].pool_id != self.entries[p].pool_id);
        }
    }

    /// Taking in an entry whose id is not pending keeps every other pending
    /// entry but, where the table was full, the oldest.
    pub proof fn lemma_take_in(self, e: PendingRequest)
        requires
            self.wf(),
            !self.pending(e.pool_id),
        ensures
            self.take_in(e).len() <= self.capacity,
            self.take_in(e).len() >= 1,
            self.take_in(e).last() == e,
            forall|i: int, j: int|
                0 <= i < j < self.take_in(e).len() ==> self.take_in(e)[i].pool_id != self.take_in(
                    e,
                )[j].pool_id,
            forall|i: int|
                0 <= i < self.take_in(e).len() - 1 ==> self.entries.contains(
                    #[trigger] self.take_in(e)[i],
                ),
    {
        let a = self.take_in(e);
        let shift: int = if self.entries.len() < self.capacity {
            0
        } else {
            1
        };
        assert(a.len() == self.entries.len() - shift + 1);
        assert forall|i: int| 0 <= i < a.len() - 1 implies a[i] == self.entries[i + shift] by {}
        assert forall|i: int| 0 <= i < a.len() - 1 implies self.entries.contains(#[trigger] a[i]) by {
            assert(a[i] == self.entries[i + shift]);
        }
        assert forall|i: int, j: int| 0 <= i < j < a.len() implies a[i].pool_id != a[j].pool_id by {
            assert(a[i] == self.entries[i + shift]);
            if j < a.len() - 1 {
                assert(a[j] == self.entries[j + shift]);
            } else {
                assert(a[j] == e);
                assert(self.entries[i + shift].pool_id != e.pool_id);
            }
        }
    }

    /// The ordinary counter's next id is not pending.
    pub proof fn lemma_next_id_fresh(self)
        requires
            self.wf(),
            self.can_allocate(),
        ensures
            !self.pending(self.next_id as i64),
    {
        if self.pending(self.next_id as i64) {
            let p = self.position(self.next_id as i64);
            assert(self.entry_issued(self.entries[p]));
        }
    }

    /// The fee counter's next id is not pending.
    pub proof fn lemma_next_fee_id_fresh(self)
        requires
            self.wf(),
            self.can_allocate_fee(),
        ensures
            !self.pending(self.next_fee_id as i64),
    {
        if self.pending(self.next_fee_id as i64) {
            let p = self.position(self.next_fee_id as i64);
            assert(self.entry_issued(self.entries[p]));
        }
    }

    /// Once resolved, an id is pending no more, and every other id is pending
    /// exactly as before.
    pub proof fn lemma_resolved_not_pending(self, pool_id: i64)
        requires
            self.wf(),
        ensures
            !self.after_resolve(pool_id).pending(pool_id),
            forall|other: i64|
                other != pool_id ==> self.after_resolve(pool_id).lookup(other) == self.lookup(
                    other,
                ),
    {
        let t = self.after_resolve(pool_id);
        self.lemma_apply_wf(TableOp::Resolve { pool_id });
        if self.pending(pool_id) {
            let p = self.position(pool_id);
            assert forall|i: int| 0 <= i < t.entries.len() implies t.entries[i]
                == self.entries[if i < p {
                i
            } else {
                i + 1
            }] by {}
            if t.pending(pool_id) {
                let q = t.position(pool_id);
                let k = if q < p {
                    q
                } else {
                    q + 1
                };
                assert(self.entries[k].pool_id == pool_id);
                self.lemma_position_unique(pool_id, k);
            }
            assert forall|other: i64| other != pool_id implies t.lookup(other) == self.lookup(
                other,
            ) by {
                if self.pending(other) {
                    let q = self.position(other);
                    let k = if q < p {
                        q
                    } else {
                        q - 1
                    };
                    assert(t.entries[k] == self.entries[q]);
                    t.lemma_position_unique(other, k);
                } else if t.pending(other) {
                    let q = t.position(other);
                    let k = if q < p {
                        q
                    } else {
                        q + 1
                    };
                    assert(self.entries[k].pool_id == other);
                }
            }
        }
    }

    /// Every operation keeps a table well-formed.
    pub proof fn lemma_apply_wf(self, op: TableOp)
        requires
            self.wf(),
        ensures
            self.apply(op).wf(),
    {
        let t = self.apply(op);
        match op {
            TableOp::Allocate { client_id } => {
                if self.can_allocate() {
                    let e = PendingRequest {
                        pool_id: self.next_id as i64,
                        client_id,
                        kind: RequestKind::Ordinary,
                    };
                    self.lemma_next_id_fresh();
                    self.lemma_take_in(e);
                    assert forall|i: int| 0 <= i < t.entries.len() implies t.entry_issued(
                        #[trigger] t.entries[i],
                    ) by {
                        if i < t.entries.len() - 1 {
                            assert(self.entries.contains(t.entries[i]));
                            let k = choose|k: int|
                                0 <= k < self.entries.len() && self.entries[k] == t.entries[i];
                            assert(self.entry_issued(self.entries[k]));
                        }
                    }
                }
            },
            TableOp::AllocateFee => {
                if self.can_allocate_fee() {
                    let e = PendingRequest {
                        pool_id: self.next_fee_id as i64,
                        client_id: self.next_fee_id as i64,
                        kind: RequestKind::Fee,
                    };
                    self.lemma_next_fee_id_fresh();
                    self.lemma_take_in(e);
                    assert forall|i: int| 0 <= i < t.entries.len() implies t.entry_issued(
                        #[trigger] t.entries[i],
                    ) by {
                        if i < t.entries.len() - 1 {
                            assert(self.entries.contains(t.entries[i]));
                            let k = choose|k: int|
                                0 <= k < self.entries.len() && self.entries[k] == t.entries[i];
                            assert(self.entry_issued(self.entries[k]));
                        }
                    }
                }
            },
            TableOp::Resolve { pool_id } => {
                if self.pending(pool_id) {
                    let p = self.position(pool_id);
                    assert forall|i: int| 0 <= i < t.entries.len() implies t.entries[i]
                        == self.entries[if i < p {
                        i
                    } else {
                        i + 1
                    }] by {}
                    assert forall|i: int| 0 <= i < t.entries.len() implies t.entry_issued(
                        #[trigger] t.entries[i],
                    ) by {
                        let k = if i < p {
                            i
                        } else {
                            i + 1
                        };
                        assert(self.entry_issued(self.entries[k]));
                    }
                }
            },
            TableOp::Discard => {},
        }
    }
}

/// No pool-facing id is pending twice: two places of a well-formed table that
/// hold the same pool-facing id are one place. So the pending pool-facing ids
/// stand one to one for the pending requests.
pub proof fn law_pending_ids_distinct(t: TableModel, i: int, j: int)
    requires
        t.wf(),
        0 <= i < t.entries.len(),
        0 <= j < t.entries.len(),
        t.entries[i].pool_id == t.entries[j].pool_id,
    ensures
        i == j,
{
    if i < j {
        assert(t.entries[i].pool_id != t.entries[j].pool_id);
    } else if j < i {
        assert(t.entries[j].pool_id != t.entries[i].pool_id);
    }
}

/// True when no id of the client is pending twice in `t`.
pub open spec fn client_ids_distinct(t: TableModel) -> bool {
    forall|i: int, j: int|
        0 <= i < j < t.entries.len() && t.entries[i].kind == RequestKind::Ordinary
            && t.entries[j].kind == RequestKind::Ordinary ==> t.entries[i].client_id
            != t.entries[j].client_id
}

/// True when an ordinary request with `client_id` is pending in `t`.
pub open spec fn client_pending(t: TableModel, client_id: i64) -> bool {
    exists|i: int|
        0 <= i < t.entries.len() && t.entries[i].kind == RequestKind::Ordinary
            && t.entries[i].client_id == client_id
}

/// As long as the client has no id pending twice, the pending ids of the
/// client and the pending pool-facing ids stand one to one: two pending
/// requests of the client share their pool-facing id exactly when they share
/// the id that the client gave them, and then they are one request.
pub proof fn law_remap_is_bijection(t: TableModel, i: int, j: int)
    requires
        t.wf(),
        client_ids_distinct(t),
        0 <= i < t.entries.len(),
        0 <= j < t.entries.len(),
        t.entries[i].kind == RequestKind::Ordinary,
        t.entries[j].kind == RequestKind::Ordinary,
    ensures
        t.entries[i].pool_id == t.entries[j].pool_id <==> i == j,
        t.entries[i].client_id == t.entries[j].client_id <==> i == j,
{
    if i < j {
        assert(t.entries[i].pool_id != t.entries[j].pool_id);
        assert(t.entries[i].client_id != t.entries[j].client_id);
    } else if j < i {
        assert(t.entries[j].pool_id != t.entries[i].pool_id);
        assert(t.entries[j].client_id != t.entries[i].client_id);
    }
}

/// A client that gives every request an id that it has not pending keeps
/// its pending ids distinct, whatever the relay does in between: no operation
/// on the table makes two pending requests share a client's id, but the
/// forwarding of a request under an id that is already pending.
pub proof fn law_client_ids_stay_distinct(t: TableModel, op: TableOp)
    requires
        t.wf(),
        client_ids_distinct(t),
        op is Allocate ==> !client_pending(t, op->client_id),
    ensures
        client_ids_distinct(t.apply(op)),
{
    let u = t.apply(op);
    t.lemma_apply_wf(op);
    match op {
        TableOp::Allocate { client_id } => {
            if t.can_allocate() {
                let n = PendingRequest {
                    pool_id: t.next_id as i64,
                    client_id,
                    kind: RequestKind::Ordinary,
                };
                t.lemma_next_id_fresh();
                lemma_taken_in_from(t, u, n);
            }
        },
        TableOp::AllocateFee => {
            if t.can_allocate_fee() {
                let n = PendingRequest {
                    pool_id: t.next_fee_id as i64,
                    client_id: t.next_fee_id as i64,
                    kind: RequestKind::Fee,
                };
                t.lemma_next_fee_id_fresh();
                lemma_taken_in_from(t, u, n);
            }
        },
        TableOp::Resolve { pool_id } => {
            if t.pending(pool_id) {
                let p = t.position(pool_id);
                assert forall|i: int, j: int|
                    0 <= i < j < u.entries.len() && u.entries[i].kind == RequestKind::Ordinary
                        && u.entries[j].kind == RequestKind::Ordinary implies u.entries[i].client_id
                    != u.entries[j].client_id by {
                    let a = if i < p {
                        i
                    } else {
                        i + 1
                    };
                    let b = if j < p {
                        j
                    } else {
                        j + 1
                    };
                    assert(u.entries[i] == t.entries[a]);
                    assert(u.entries[j] == t.entries[b]);
                }
            }
        },
        TableOp::Discard => {},
    }
}

/// After `n` was taken in, the entries before it are those of before in
/// their order, without the oldest where the table was full; so they keep
/// the client's ids distinct where `n` brings none that is pending.
proof fn lemma_taken_in_from(t: TableModel, u: TableModel, n: PendingRequest)
    requires
        t.wf(),
        client_ids_distinct(t),
        u.entries == t.take_in(n),
        n.kind == RequestKind::Ordinary ==> !client_pending(t, n.client_id),
    ensures
        client_ids_distinct(u),
{
    let shift: int = if t.entries.len() < t.capacity {
        0
    } else {
        1
    };
    assert(u.entries.len() == t.entries.len() - shift + 1);
    assert forall|i: int, j: int|
        0 <= i < j < u.entries.len() && u.entries[i].kind == RequestKind::Ordinary
            && u.entries[j].kind == RequestKind::Ordinary implies u.entries[i].client_id
        != u.entries[j].client_id by {
        assert(u.entries[i] == t.entries[i + shift]);
        if j < u.entries.len() - 1 {
            assert(u.entries[j] == t.entries[j + shift]);
        } else {
            assert(u.entries[j] == n);
            if t.entries[i + shift].client_id == n.client_id {
                assert(client_pending(t, n.client_id));
            }
        }
    }
}

/// The two counters never meet: an id given to an ordinary request lies
/// outside the reserved range, an id given to a relay-originated request
/// inside it, and neither was pending when it was given.
pub proof fn law_counters_disjoint(t: TableModel)
    requires
        t.wf(),
    ensures
        t.can_allocate() ==> !t.in_fee_range(t.next_id) && !t.pending(t.next_id as i64),
        t.can_allocate_fee() ==> t.in_fee_range(t.next_fee_id) && !t.pending(t.next_fee_id as i64),
        forall|i: int|
            0 <= i < t.entries.len() ==> (t.in_fee_range(#[trigger] t.entries[i].pool_id as int)
                <==> t.entries[i].kind == RequestKind::Fee),
{
    if t.can_allocate() {
        t.lemma_next_id_fresh();
    }
    if t.can_allocate_fee() {
        t.lemma_next_fee_id_fresh();
    }
    assert forall|i: int| 0 <= i < t.entries.len() implies (t.in_fee_range(
        #[trigger] t.entries[i].pool_id as int,
    ) <==> t.entries[i].kind == RequestKind::Fee) by {
        assert(t.entry_issued(t.entries[i]));
    }
}

/// A reply that comes straight after its request finds the request: resolving
/// the id that `allocate` gave returns the client's own id, and the table is
/// then as if the request had never been; where the table was full, without
/// its oldest entry.
pub proof fn law_allocate_then_resolve(t: TableModel, client_id: i64)
    requires
        t.wf(),
        t.can_allocate(),
    ensures
        t.after_allocate(client_id).lookup(t.next_id as i64) == Some(
            PendingRequest {
                pool_id: t.next_id as i64,
                client_id,
                kind: RequestKind::Ordinary,
            },
        ),
        t.after_allocate(client_id).after_resolve(t.next_id as i64).entries == if t.entries.len()
            < t.capacity {
            t.entries
        } else {
            t.entries.drop_first()
        },
{
    let y = t.next_id as i64;
    let e = PendingRequest { pool_id: y, client_id, kind: RequestKind::Ordinary };
    let a = t.after_allocate(client_id);
    t.lemma_apply_wf(TableOp::Allocate { client_id });
    t.lemma_next_id_fresh();
    t.lemma_take_in(e);
    a.lemma_position_unique(y, a.entries.len() - 1);
    let kept = if t.entries.len() < t.capacity {
        t.entries
    } else {
        t.entries.drop_first()
    };
    assert(a.after_resolve(y).entries =~= kept);
}

/// Whatever happens on a connection after a client request with id `client_id`
/// was forwarded under the pool-facing id `y`, a reply that carries `y` either
/// finds nothing pending (the request was answered, dropped or pushed out
/// before) or finds that very request: the id that goes back to the client is
/// `client_id` and no other, and the request is an ordinary one.
pub proof fn law_reply_restores_client_id(t: TableModel, client_id: i64, ops: Seq<TableOp>)
    requires
        t.wf(),
        t.can_allocate(),
    ensures
        ({
            let y = t.next_id as i64;
            let later = t.after_allocate(client_id).apply_all(ops);
            &&& later.wf()
            &&& later.lookup(y) is Some ==> later.lookup(y) == Some(
                PendingRequest { pool_id: y, client_id, kind: RequestKind::Ordinary },
            )
        }),
{
    let y = t.next_id as i64;
    let e = PendingRequest { pool_id: y, client_id, kind: RequestKind::Ordinary };
    law_allocate_then_resolve(t, client_id);
    t.lemma_apply_wf(TableOp::Allocate { client_id });
    lemma_issued_entry_stays(t.after_allocate(client_id), e, ops);
}

/// True when `e` is an ordinary request whose id the table `t` has issued, and
/// `t` holds either `e` or nothing under that id.
pub open spec fn issued_once(t: TableModel, e: PendingRequest) -> bool {
    &&& t.wf()
    &&& e.kind == RequestKind::Ordinary
    &&& e.pool_id < t.next_id
    &&& !t.in_fee_range(e.pool_id as int)
    &&& t.lookup(e.pool_id) is Some ==> t.lookup(e.pool_id) == Some(e)
}

/// An operation leaves a request that was issued once issued once: under its
/// id the table holds that request or nothing.
pub proof fn lemma_issued_entry_stays_one(t: TableModel, e: PendingRequest, op: TableOp)
    requires
        issued_once(t, e),
    ensures
        issued_once(t.apply(op), e),
{
    let u = t.apply(op);
    t.lemma_apply_wf(op);
    match op {
        TableOp::Allocate { client_id } => {
            if t.can_allocate() {
                let n = PendingRequest {
                    pool_id: t.next_id as i64,
                    client_id,
                    kind: RequestKind::Ordinary,
                };
                t.lemma_next_id_fresh();
                t.lemma_take_in(n);
                lemma_taken_in_keeps(t, u, n, e.pool_id);
            }
        },
        TableOp::AllocateFee => {
            if t.can_allocate_fee() {
                let n = PendingRequest {
                    pool_id: t.next_fee_id as i64,
                    client_id: t.next_fee_id as i64,
                    kind: RequestKind::Fee,
                };
                t.lemma_next_fee_id_fresh();
                t.lemma_take_in(n);
                lemma_taken_in_keeps(t, u, n, e.pool_id);
            }
        },
        TableOp::Resolve { pool_id } => {
            t.lemma_resolved_not_pending(pool_id);
        },
        TableOp::Discard => {
            assert(!u.pending(e.pool_id));
        },
    }
}

/// After `n` was taken in, an id other than that of `n` is pending only where
/// it was pending before, and then with the same request.
proof fn lemma_taken_in_keeps(t: TableModel, u: TableModel, n: PendingRequest, id: i64)
    requires
        t.wf(),
        u.wf(),
        !t.pending(n.pool_id),
        u.entries == t.take_in(n),
        id != n.pool_id,
    ensures
        u.lookup(id) is Some ==> u.lookup(id) == t.lookup(id),
{
    t.lemma_take_in(n);
    if u.pending(id) {
        let q = u.position(id);
        assert(q < u.entries.len() - 1) by {
            if q == u.entries.len() - 1 {
                assert(u.entries[q] == n);
            }
        }
        assert(t.entries.contains(u.entries[q]));
        let k = choose|k: int| 0 <= k < t.entries.len() && t.entries[k] == u.entries[q];
        t.lemma_position_unique(id, k);
    }
}

proof fn lemma_issued_entry_stays(t: TableModel, e: PendingRequest, ops: Seq<TableOp>)
    requires
        issued_once(t, e),
    ensures
        issued_once(t.apply_all(ops), e),
    decreases ops.len(),
{
    if ops.len() > 0 {
        lemma_issued_entry_stays_one(t, e, ops[0]);
        lemma_issued_entry_stays(t.apply(ops[0]), e, ops.drop_first());
    }
}

/// True when `op` takes a new request into the table.
pub open spec fn takes_in(op: TableOp) -> bool {
    op is Allocate || op is AllocateFee
}

/// How many operations of `ops` take a new request into the table.
pub open spec fn count_taken_in(ops: Seq<TableOp>) -> nat
    decreases ops.len(),
{
    if ops.len() == 0 {
        0
    } else {
        count_taken_in(ops.drop_first()) + if takes_in(ops[0]) {
            1nat
        } else {
            0nat
        }
    }
}

/// True when no operation of `ops` answers the request with `pool_id` or
/// drops all requests.
pub open spec fn spares(ops: Seq<TableOp>, pool_id: i64) -> bool {
    forall|i: int|
        0 <= i < ops.len() ==> !(#[trigger] ops[i] is Discard) && ops[i] != (TableOp::Resolve {
            pool_id,
        })
}

/// How many pending requests of `t` are newer than the one with `pool_id`.
pub open spec fn newer_than(t: TableModel, pool_id: i64) -> int {
    t.entries.len() - 1 - t.position(pool_id)
}

/// One operation that spares a pending request and leaves it room keeps it
/// pending, unchanged, with at most one more request newer than it.
proof fn lemma_survives_one(t: TableModel, op: TableOp, pool_id: i64)
    requires
        t.wf(),
        t.pending(pool_id),
        !(op is Discard),
        op != (TableOp::Resolve { pool_id }),
        newer_than(t, pool_id) + (if takes_in(op) {
            1int
        } else {
            0int
        }) <= t.capacity - 1,
    ensures
        t.apply(op).wf(),
        t.apply(op).pending(pool_id),
        t.apply(op).lookup(pool_id) == t.lookup(pool_id),
        t.apply(op).capacity == t.capacity,
        newer_than(t.apply(op), pool_id) <= newer_than(t, pool_id) + (if takes_in(op) {
            1int
        } else {
            0int
        }),
{
    let u = t.apply(op);
    let p = t.position(pool_id);
    t.lemma_apply_wf(op);
    t.lemma_position_unique(pool_id, p);
    if u.entries == t.entries {
        assert(u.entries[p].pool_id == pool_id);
        u.lemma_position_unique(pool_id, p);
    } else {
        match op {
            TableOp::Allocate { .. } | TableOp::AllocateFee => {
                let shift: int = if t.entries.len() < t.capacity {
                    0
                } else {
                    1
                };
                assert(u.entries.len() == t.entries.len() - shift + 1);
                assert(p - shift >= 0);
                assert(u.entries[p - shift] == t.entries[p]);
                u.lemma_position_unique(pool_id, p - shift);
            },
            TableOp::Resolve { pool_id: other } => {
                let q = t.position(other);
                t.lemma_position_unique(other, q);
                let k = if p < q {
                    p
                } else {
                    p - 1
                };
                assert(u.entries[k] == t.entries[p]);
                u.lemma_position_unique(pool_id, k);
            },
            TableOp::Discard => {},
        }
    }
}

/// A pending request is given up only for want of room: as long as it is not
/// answered and the requests are not dropped, it stays pending, unchanged,
/// through every sequence of operations that takes in fewer new requests than
/// the table has room for beside those that are newer than it.
pub proof fn law_pending_survives(t: TableModel, ops: Seq<TableOp>, pool_id: i64)
    requires
        t.wf(),
        t.pending(pool_id),
        spares(ops, pool_id),
        newer_than(t, pool_id) + count_taken_in(ops) <= t.capacity - 1,
    ensures
        t.apply_all(ops).pending(pool_id),
        t.apply_all(ops).lookup(pool_id) == t.lookup(pool_id),
    decreases ops.len(),
{
    if ops.len() > 0 {
        let rest = ops.drop_first();
        assert(!(ops[0] is Discard) && ops[0] != (TableOp::Resolve { pool_id }));
        lemma_survives_one(t, ops[0], pool_id);
        assert forall|i: int| 0 <= i < rest.len() implies !(#[trigger] rest[i] is Discard)
            && rest[i] != (TableOp::Resolve { pool_id }) by {
            assert(rest[i] == ops[i + 1]);
        }
        law_pending_survives(t.apply(ops[0]), rest, pool_id);
    }
}

/// So a request that was just forwarded is answered under the client's own id
/// if fewer requests than the table holds are forwarded before its reply
/// comes.
pub proof fn law_reply_finds_request(t: TableModel, client_id: i64, ops: Seq<TableOp>)
    requires
        t.wf(),
        t.can_allocate(),
        spares(ops, t.next_id as i64),
        count_taken_in(ops) <= t.capacity - 1,
    ensures
        t.after_allocate(client_id).apply_all(ops).lookup(t.next_id as i64) == Some(
            PendingRequest {
                pool_id: t.next_id as i64,
                client_id,
                kind: RequestKind::Ordinary,
            },
        ),
{
    let y = t.next_id as i64;
    let a = t.after_allocate(client_id);
    law_allocate_then_resolve(t, client_id);
    t.lemma_apply_wf(TableOp::Allocate { client_id });
    a.lemma_position_unique(y, a.entries.len() - 1);
    law_pending_survives(a, ops, y);
}

/// The id remap table of one connection.
pub struct IdRemapTable {
    entries: Vec<PendingRequest>,
    next_id: i64,
    next_fee_id: i64,
    fee_first: i64,
    fee_last: i64,
    capacity: usize,
}

impl View for IdRemapTable {
    type V = TableModel;

    closed spec fn view(&self) -> TableModel {
        TableModel {
            entries: self.entries@,
            next_id: self.next_id as int,
            next_fee_id: self.next_fee_id as int,
            fee_first: self.fee_first as int,
            fee_last: self.fee_last as int,
            capacity: self.capacity as nat,
        }
    }
}

impl IdRemapTable {
    /// The invariant that `new` establishes and every method keeps.
    pub open spec fn wf(&self) -> bool {
        self@.wf()
    }

    /// An empty table that holds at most `capacity` pending requests, reserves
    /// the ids from `fee_first` to `fee_last` for relay-originated requests and
    /// gives ordinary requests the ids from `first_id` on, the reserved ones
    /// left out. There is no such table where `capacity` is zero, the reserved
    /// range is empty, or it reaches the largest id.
    pub fn new(first_id: i64, fee_first: i64, fee_last: i64, capacity: usize) -> (r: Option<Self>)
        ensures
            r is Some <==> capacity >= 1 && fee_first <= fee_last < i64::MAX,
            r is Some ==> r->0.wf() && r->0@ == TableModel::initial(
                first_id,
                fee_first,
                fee_last,
                capacity,
            ),
    {
        if capacity == 0 || fee_first > fee_last || fee_last == i64::MAX {
            return None;
        }
        let start: i64 = if fee_first <= first_id && first_id <= fee_last {
            fee_last + 1
        } else {
            first_id
        };
        Some(
            IdRemapTable {
                entries: Vec::new(),
                next_id: start,
                next_fee_id: fee_first,
                fee_first,
                fee_last,
                capacity,
            },
        )
    }

    /// How many requests are pending.
    pub fn len(&self) -> (n: usize)
        ensures
            n == self@.entries.len(),
    {
        self.entries.len()
    }

    /// True when no request is pending.
    pub fn is_empty(&self) -> (b: bool)
        ensures
            b == (self@.entries.len() == 0),
    {
        self.entries.len() == 0
    }

    /// The most requests that can be pending at once.
    pub fn capacity(&self) -> (n: usize)
        ensures
            n == self@.capacity,
    {
        self.capacity
    }

    /// True when `id` lies in the range reserved for relay-originated requests.
    pub fn is_fee_id(&self, id: i64) -> (b: bool)
        ensures
            b == self@.in_fee_range(id as int),
    {
        self.fee_first <= id && id <= self.fee_last
    }

    /// Where the pending request with `pool_id` stands, if there is one.
    fn find(&self, pool_id: i64) -> (r: Option<usize>)
        requires
            self.wf(),
        ensures
            r is Some <==> self@.pending(pool_id),
            r is Some ==> r->0 == self@.position(pool_id) && r->0 < self@.entries.len(),
    {
        let mut i: usize = 0;
        while i < self.entries.len()
            invariant
                i <= self.entries.len(),
                self.wf(),
                forall|j: int| 0 <= j < i ==> self.entries@[j].pool_id != pool_id,
            decreases self.entries.len() - i,
        {
            if self.entries[i].pool_id == pool_id {
                proof {
                    self@.lemma_position_unique(pool_id, i as int);
                }
                return Some(i);
            }
            i += 1;
        }
        None
    }

    /// The pending request that was forwarded under `pool_id`, if there is one.
    pub fn lookup(&self, pool_id: i64) -> (r: Option<PendingRequest>)
        requires
            self.wf(),
        ensures
            r == self@.lookup(pool_id),
    {
        match self.find(pool_id) {
            Some(i) => Some(self.entries[i]),
            None => None,
        }
    }

    /// Takes `e` in, after the oldest entry left where the table is full.
    fn insert(&mut self, e: PendingRequest)
        requires
            old(self)@.capacity >= 1,
            old(self)@.entries.len() <= old(self)@.capacity,
        ensures
            final(self)@ == (TableModel { entries: old(self)@.take_in(e), ..old(self)@ }),
    {
        if self.entries.len() >= self.capacity {
            self.entries.remove(0);
            assert(self.entries@ =~= old(self).entries@.drop_first());
        }
        self.entries.push(e);
    }

    /// Gives the next ordinary pool-facing id to a client request that came
    /// with `client_id`, and records the pair as pending. Returns the id, or
    /// `None`, with the table unchanged, once the ordinary ids are used up.
    pub fn allocate(&mut self, client_id: i64) -> (r: Option<i64>)
        requires
            old(self).wf(),
        ensures
            final(self).wf(),
            final(self)@ == old(self)@.after_allocate(client_id),
            r is Some <==> old(self)@.can_allocate(),
            r is Some ==> {
                &&& r->0 == old(self)@.next_id
                &&& !old(self)@.in_fee_range(r->0 as int)
                &&& !old(self)@.pending(r->0)
                &&& final(self)@.lookup(r->0) == Some(
                    PendingRequest { pool_id: r->0, client_id, kind: RequestKind::Ordinary },
                )
            },
    {
        if self.next_id == i64::MAX {
            return None;
        }
        let id: i64 = self.next_id;
        let e = PendingRequest { pool_id: id, client_id, kind: RequestKind::Ordinary };
        proof {
            self@.lemma_apply_wf(TableOp::Allocate { client_id });
            self@.lemma_next_id_fresh();
            self@.lemma_take_in(e);
        }
        self.insert(e);
        self.next_id = if id + 1 == self.fee_first {
            self.fee_last + 1
        } else {
            id + 1
        };
        proof {
            let t = self@;
            assert(t == old(self)@.after_allocate(client_id));
            t.lemma_position_unique(id, t.entries.len() - 1);
        }
        Some(id)
    }

    /// Gives the next reserved pool-facing id to a request that the relay
    /// itself originates, and records it as pending with kind `Fee`. Returns
    /// the id, or `None`, with the table unchanged, once the reserved ids are
    /// used up.
    pub fn allocate_fee(&mut self) -> (r: Option<i64>)
        requires
            old(self).wf(),
        ensures
            final(self).wf(),
            final(self)@ == old(self)@.after_allocate_fee(),
            r is Some <==> old(self)@.can_allocate_fee(),
            r is Some ==> {
                &&& r->0 == old(self)@.next_fee_id
                &&& old(self)@.in_fee_range(r->0 as int)
                &&& !old(self)@.pending(r->0)
                &&& final(self)@.lookup(r->0) == Some(
                    PendingRequest { pool_id: r->0, client_id: r->0, kind: RequestKind::Fee },
                )
            },
    {
        if self.next_fee_id > self.fee_last {
            return None;
        }
        let id: i64 = self.next_fee_id;
        let e = PendingRequest { pool_id: id, client_id: id, kind: RequestKind::Fee };
        proof {
            self@.lemma_apply_wf(TableOp::AllocateFee);
            self@.lemma_next_fee_id_fresh();
            self@.lemma_take_in(e);
        }
        self.insert(e);
        self.next_fee_id = id + 1;
        proof {
            let t = self@;
            assert(t == old(self)@.after_allocate_fee());
            t.lemma_position_unique(id, t.entries.len() - 1);
        }
        Some(id)
    }

    /// Takes the pending request that was forwarded under `pool_id` out of the
    /// table and returns it; `None`, with the table unchanged, where no such
    /// request is pending.
    pub fn resolve(&mut self, pool_id: i64) -> (r: Option<PendingRequest>)
        requires
            old(self).wf(),
        ensures
            final(self).wf(),
            r == old(self)@.lookup(pool_id),
            final(self)@ == old(self)@.after_resolve(pool_id),
            !final(self)@.pending(pool_id),
    {
        proof {
            self@.lemma_apply_wf(TableOp::Resolve { pool_id });
            self@.lemma_resolved_not_pending(pool_id);
        }
        match self.find(pool_id) {
            Some(i) => {
                let e = self.entries.remove(i);
                Some(e)
            },
            None => None,
        }
    }

    /// Drops every pending request. The counters stay where they are.
    pub fn discard_all(&mut self)
        requires
            old(self).wf(),
        ensures
            final(self).wf(),
            final(self)@ == old(self)@.after_discard(),
    {
        self.entries.clear();
        assert(self.entries@ =~= Seq::empty());
    }
}

} // verus!
