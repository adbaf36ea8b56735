//! A mining identity: the wallet that is credited, the name of the rig, and
//! the login string that names both to the pool.

use crate::text::{find_char, first_index_of, has_char, lemma_first_index_exists, lemma_first_index_unique};
use vstd::prelude::*;
use vstd::string::*;

verus! {

/// The identity that a connection mines for.
#[derive(Debug, PartialEq)]
pub struct Worker {
    /// The wallet address.
    pub wallet: String,
    /// The name of the rig.
    pub worker_name: String,
    /// The full login string, wallet and name joined by a dot.
    pub login: String,
    /// True once the pool has acknowledged the login.
    pub login_completed: bool,
}

/// What a `Worker` holds.
pub struct WorkerView {
    pub wallet: Seq<char>,
    pub worker_name: Seq<char>,
    pub login: Seq<char>,
    pub login_completed: bool,
}

impl View for Worker {
    type V = WorkerView;

    open spec fn view(&self) -> WorkerView {
        WorkerView {
            wallet: self.wallet@,
            worker_name: self.worker_name@,
            login: self.login@,
            login_completed: self.login_completed,
        }
    }
}

impl Clone for Worker {
    fn clone(&self) -> (r: Self)
        ensures
            r@ == self@,
    {
        Worker {
            wallet: self.wallet.clone(),
            worker_name: self.worker_name.clone(),
            login: self.login.clone(),
            login_completed: self.login_completed,
        }
    }
}

/// The identity that a login string stands for, where a login without a name
/// takes `default_name`.
///
/// A login string that holds a dot is split at its first dot: the wallet is
/// the text before it, the name the text after it, and the login string stays
/// as it is. One without a dot is the wallet as a whole; the name is
/// `default_name`, and the login string is the wallet, a dot and that name.
pub open spec fn identity_of(login: Seq<char>, default_name: Seq<char>) -> WorkerView {
    if has_char(login, '.') {
        let dot = first_index_of(login, '.');
        WorkerView {
            wallet: login.subrange(0, dot),
            worker_name: login.subrange(dot + 1, login.len() as int),
            login,
            login_completed: false,
        }
    } else {
        WorkerView {
            wallet: login,
            worker_name: default_name,
            login: login + seq!['.'] + default_name,
            login_completed: false,
        }
    }
}

impl Worker {
    /// An identity with nothing in it, for a connection that has not logged
    /// in.
    pub fn new() -> (w: Worker)
        ensures
            w@ == (WorkerView {
                wallet: Seq::empty(),
                worker_name: Seq::empty(),
                login: Seq::empty(),
                login_completed: false,
            }),
    {
        Worker {
            wallet: String::new(),
            worker_name: String::new(),
            login: String::new(),
            login_completed: false,
        }
    }

    /// The identity that `login` stands for; see `identity_of`.
    pub fn from_login(login: &str, default_name: &str) -> (w: Worker)
        ensures
            w@ == identity_of(login@, default_name@),
    {
        match find_char(login, '.') {
            Some(dot) => {
                let n: usize = login.unicode_len();
                Worker {
                    wallet: String::from_str(login.substring_char(0, dot)),
                    worker_name: String::from_str(login.substring_char(dot + 1, n)),
                    login: String::from_str(login),
                    login_completed: false,
                }
            },
            None => {
                let mut full = String::from_str(login);
                proof {
                    reveal_strlit(".");
                    assert("."@ =~= seq!['.']);
                }
                full.append(".");
                full.append(default_name);
                Worker {
                    wallet: String::from_str(login),
                    worker_name: String::from_str(default_name),
                    login: full,
                    login_completed: false,
                }
            },
        }
    }

    /// Marks the login as acknowledged by the pool. Nothing else changes.
    pub fn complete_login(&mut self)
        ensures
            final(self)@ == (WorkerView { login_completed: true, ..old(self)@ }),
    {
        self.login_completed = true;
    }
}

/// A login string with a dot names a wallet and a rig, and goes to the pool
/// unchanged: the wallet is the text before the first dot, the name the text
/// after it, and wallet, dot and name together are the login string again.
pub proof fn law_dotted_login(login: Seq<char>, default_name: Seq<char>)
    requires
        has_char(login, '.'),
    ensures
        ({
            let w = identity_of(login, default_name);
            &&& w.login == login
            &&& !has_char(w.wallet, '.')
            &&& w.wallet + seq!['.'] + w.worker_name == login
            &&& w.wallet.len() + 1 + w.worker_name.len() == login.len()
        }),
{
    lemma_first_index_exists(login, '.');
    let w = identity_of(login, default_name);
    let dot = first_index_of(login, '.');
    assert(w.wallet + seq!['.'] + w.worker_name =~= login);
    if has_char(w.wallet, '.') {
        let j = choose|j: int| 0 <= j < w.wallet.len() && w.wallet[j] == '.';
        assert(login[j] == '.');
    }
}

/// A login string without a dot is the wallet as a whole; the rig takes the
/// default name, and the login string that goes to the pool is the wallet, a
/// dot and that name.
pub proof fn law_plain_login(login: Seq<char>, default_name: Seq<char>)
    requires
        !has_char(login, '.'),
    ensures
        ({
            let w = identity_of(login, default_name);
            &&& w.wallet == login
            &&& w.worker_name == default_name
            &&& w.login == w.wallet + seq!['.'] + w.worker_name
            &&& has_char(w.login, '.')
            &&& first_index_of(w.login, '.') == login.len()
        }),
{
    let w = identity_of(login, default_name);
    let i = login.len() as int;
    assert(w.login[i] == '.');
    assert forall|j: int| 0 <= j < i implies w.login[j] != '.' by {
        assert(w.login[j] == login[j]);
    }
    lemma_first_index_unique(w.login, '.', i);
}

/// Splitting is stable: the login string that goes to the pool stands for the
/// same wallet and the same name as the one that came from the client.
pub proof fn law_forwarded_login_same_identity(login: Seq<char>, default_name: Seq<char>)
    ensures
        ({
            let w = identity_of(login, default_name);
            let again = identity_of(w.login, default_name);
            &&& again.wallet == w.wallet
            &&& again.worker_name == w.worker_name
            &&& again.login == w.login
        }),
{
    let w = identity_of(login, default_name);
    if !has_char(login, '.') {
        law_plain_login(login, default_name);
        let again = identity_of(w.login, default_name);
        assert(again.wallet =~= w.wallet);
        assert(again.worker_name =~= w.worker_name);
    }
}

/// The condition that a worker does not log in as `login`.
pub open spec fn other_login(login: Seq<char>) -> spec_fn(WorkerView) -> bool {
    |w: WorkerView| w.login != login
}

/// True when a worker of `workers` logs in as `login`.
pub open spec fn registered(workers: Seq<WorkerView>, login: Seq<char>) -> bool {
    exists|i: int| 0 <= i < workers.len() && workers[i].login == login
}

/// The workers of `workers` that do not log in as `login`, in their order.
pub open spec fn without_login(workers: Seq<WorkerView>, login: Seq<char>) -> Seq<WorkerView> {
    workers.filter(other_login(login))
}

/// True when no two workers of `workers` share a login string.
pub open spec fn distinct_logins(workers: Seq<WorkerView>) -> bool {
    forall|i: int, j: int| 0 <= i < j < workers.len() ==> workers[i].login != workers[j].login
}

/// A worker that passed a filter stood in the unfiltered sequence and meets
/// the filter's condition.
proof fn lemma_filtered_worker(workers: Seq<WorkerView>, pred: spec_fn(WorkerView) -> bool, i: int)
    requires
        0 <= i < workers.filter(pred).len(),
    ensures
        pred(workers.filter(pred)[i]),
        exists|m: int| 0 <= m < workers.len() && workers[m] == workers.filter(pred)[i],
{
    let f = workers.filter(pred);
    assert(f.contains(f[i]));
    workers.lemma_filter_contains_rev(pred, f[i]);
    assert(workers.contains(f[i]));
}

/// Filtering workers with distinct logins leaves workers with distinct
/// logins.
proof fn lemma_filter_keeps_logins_distinct(
    workers: Seq<WorkerView>,
    pred: spec_fn(WorkerView) -> bool,
)
    requires
        distinct_logins(workers),
    ensures
        distinct_logins(workers.filter(pred)),
    decreases workers.len(),
{
    reveal(Seq::filter);
    let f = workers.filter(pred);
    if workers.len() > 0 {
        let rest = workers.drop_last();
        assert(distinct_logins(rest)) by {
            assert forall|i: int, j: int| 0 <= i < j < rest.len() implies rest[i].login
                != rest[j].login by {
                assert(workers[i].login != workers[j].login);
            }
        }
        lemma_filter_keeps_logins_distinct(rest, pred);
        let g = rest.filter(pred);
        assert forall|i: int, j: int| 0 <= i < j < f.len() implies f[i].login != f[j].login by {
            if j == g.len() {
                assert(f[j] == workers.last());
                assert(f[i] == g[i]);
                lemma_filtered_worker(rest, pred, i);
                let m = choose|m: int| 0 <= m < rest.len() && rest[m] == g[i];
                assert(workers[m].login != workers[workers.len() - 1].login);
            } else {
                assert(g[i].login != g[j].login);
            }
        }
    }
}

/// After the workers that log in as `login` were filtered out, none does.
pub proof fn lemma_without_login_drops(workers: Seq<WorkerView>, login: Seq<char>)
    ensures
        !registered(without_login(workers, login), login),
{
    let f = without_login(workers, login);
    if registered(f, login) {
        let k = choose|k: int| 0 <= k < f.len() && f[k].login == login;
        lemma_filtered_worker(workers, other_login(login), k);
    }
}

/// The workers of all open connections. No two share a login string.
pub struct WorkerRegistry {
    workers: Vec<Worker>,
}

impl View for WorkerRegistry {
    type V = Seq<WorkerView>;

    closed spec fn view(&self) -> Seq<WorkerView> {
        Seq::new(self.workers@.len(), |i: int| self.workers@[i]@)
    }
}

impl WorkerRegistry {
    /// The invariant that `new` establishes and every method keeps.
    pub open spec fn wf(&self) -> bool {
        distinct_logins(self@)
    }

    /// No workers.
    pub fn new() -> (r: Self)
        ensures
            r@ == Seq::<WorkerView>::empty(),
            r.wf(),
    {
        let r = WorkerRegistry { workers: Vec::new() };
        assert(r@ =~= Seq::<WorkerView>::empty());
        r
    }

    /// How many workers are registered.
    pub fn len(&self) -> (n: usize)
        ensures
            n == self@.len(),
    {
        self.workers.len()
    }

    /// The worker that logs in as `login`, if one is registered.
    pub fn lookup(&self, login: &String) -> (w: Option<Worker>)
        requires
            self.wf(),
        ensures
            w is Some <==> registered(self@, login@),
            w is Some ==> w->0@.login == login@ && self@.contains(w->0@),
    {
        let mut i: usize = 0;
        while i < self.workers.len()
            invariant
                i <= self.workers.len(),
                forall|j: int| 0 <= j < i ==> self@[j].login != login@,
            decreases self.workers.len() - i,
        {
            if self.workers[i].login == *login {
                assert(self@[i as int] == self.workers@[i as int]@);
                return Some(self.workers[i].clone());
            }
            i += 1;
        }
        None
    }

    /// Takes the worker that logs in as `login` out of the registry, if one is
    /// registered, and says whether one was.
    pub fn unregister(&mut self, login: &String) -> (found: bool)
        requires
            old(self).wf(),
        ensures
            final(self).wf(),
            found == registered(old(self)@, login@),
            final(self)@ == without_login(old(self)@, login@),
            !registered(final(self)@, login@),
    {
        let ghost before = self@;
        let ghost pred = other_login(login@);
        let mut kept: Vec<Worker> = Vec::new();
        let mut found = false;
        let n: usize = self.workers.len();
        let mut i: usize = 0;
        proof {
            reveal(Seq::filter);
            assert(before.take(0).filter(pred) =~= Seq::<WorkerView>::empty());
        }
        while i < n
            invariant
                i <= n,
                n == self.workers.len(),
                self@ == before,
                pred == other_login(login@),
                Seq::new(kept@.len(), |k: int| kept@[k]@) == before.take(i as int).filter(pred),
                found == registered(before.take(i as int), login@),
            decreases n - i,
        {
            let w = &self.workers[i];
            let same = w.login == *login;
            proof {
                let prefix = before.take(i as int);
                let next = before.take(i + 1);
                assert(next.drop_last() =~= prefix);
                assert(next.last() == before[i as int]);
                assert(before[i as int] == w@);
                reveal(Seq::filter);
                assert(next.filter(pred) == if pred(next.last()) {
                    prefix.filter(pred).push(next.last())
                } else {
                    prefix.filter(pred)
                });
                if registered(prefix, login@) {
                    let k = choose|k: int| 0 <= k < prefix.len() && prefix[k].login == login@;
                    assert(next[k].login == login@);
                }
                if registered(next, login@) && !same {
                    let k = choose|k: int| 0 <= k < next.len() && next[k].login == login@;
                    assert(prefix[k].login == login@);
                }
                if same {
                    assert(next[i as int].login == login@);
                }
            }
            if same {
                found = true;
            } else {
                let ghost was = Seq::new(kept@.len(), |k: int| kept@[k]@);
                kept.push(w.clone());
                assert(Seq::new(kept@.len(), |k: int| kept@[k]@) =~= was.push(w@));
            }
            i += 1;
        }
        proof {
            assert(before.take(n as int) =~= before);
            lemma_filter_keeps_logins_distinct(before, pred);
            lemma_without_login_drops(before, login@);
        }
        self.workers = kept;
        found
    }

    /// Registers `worker`. A worker that was registered under the same login
    /// string gives way to it.
    pub fn register(&mut self, worker: Worker)
        requires
            old(self).wf(),
        ensures
            final(self).wf(),
            final(self)@ == without_login(old(self)@, worker@.login).push(worker@),
            registered(final(self)@, worker@.login),
    {
        self.unregister(&worker.login);
        let ghost mid = self@;
        self.workers.push(worker);
        proof {
            assert(self@ =~= mid.push(worker@));
            assert(self@[self@.len() - 1].login == worker@.login);
            assert forall|i: int, j: int| 0 <= i < j < self@.len() implies self@[i].login
                != self@[j].login by {
                if j == self@.len() - 1 {
                    assert(mid[i].login == self@[i].login);
                    if mid[i].login == worker@.login {
                        assert(registered(mid, worker@.login));
                    }
                } else {
                    assert(mid[i].login != mid[j].login);
                }
            }
        }
    }
}

} // verus!
