//! The queue of the latest jobs, shared by all connections.
//!
//! The queue keeps the newest jobs up to a bound and counts every job that
//! was ever published. A subscriber holds the count of the job it expects
//! next: one that joins late is not shown what was published before, and one
//! that falls behind by more than the queue holds goes on with the oldest job
//! that is still there.

use crate::protocol::stratum::{StraumMiningNotify, StraumMiningNotifyView};
use vstd::prelude::*;

verus! {

/// The mathematical content of a `JobQueue`.
pub struct QueueView {
    /// The jobs that are held, oldest first.
    pub held: Seq<StraumMiningNotifyView>,
    /// How many jobs were ever published.
    pub published: nat,
    /// The most jobs that are held at once.
    pub capacity: nat,
}

impl QueueView {
    /// The invariant of a queue: it holds every job that was published, up to
    /// its bound.
    pub open spec fn wf(self) -> bool {
        &&& self.capacity >= 1
        &&& self.published <= u64::MAX
        &&& self.held.len() == if self.published < self.capacity {
            self.published
        } else {
            self.capacity
        }
    }

    /// The count of the oldest job that is held.
    pub open spec fn first_held(self) -> nat {
        (self.published - self.held.len()) as nat
    }

    /// The queue after `job` was published: the job is the newest held, and
    /// the oldest has left where the queue was full.
    pub open spec fn after_publish(self, job: StraumMiningNotifyView) -> QueueView {
        QueueView {
            held: if self.held.len() < self.capacity {
                self.held.push(job)
            } else {
                self.held.drop_first().push(job)
            },
            published: self.published + 1,
            ..self
        }
    }

    /// The count of the job that a subscriber who expects the job `next` is
    /// shown: that job, or the oldest held where it has left the queue.
    pub open spec fn shown(self, next: nat) -> nat {
        if next < self.first_held() {
            self.first_held()
        } else {
            next
        }
    }

    /// The job that a subscriber who expects the job `next` is shown, if
    /// there is one.
    pub open spec fn poll(self, next: nat) -> Option<StraumMiningNotifyView> {
        if next < self.published {
            Some(self.held[self.shown(next) - self.first_held()])
        } else {
            None
        }
    }

    /// The job that such a subscriber expects after the poll.
    pub open spec fn after_poll(self, next: nat) -> nat {
        if next < self.published {
            self.shown(next) + 1
        } else {
            next
        }
    }

    /// The newest job, if any was published.
    pub open spec fn latest(self) -> Option<StraumMiningNotifyView> {
        if self.held.len() > 0 {
            Some(self.held.last())
        } else {
            None
        }
    }
}

/// The place of one subscriber in the sequence of published jobs.
#[derive(Debug, PartialEq)]
pub struct Subscription {
    next: u64,
}

impl View for Subscription {
    type V = nat;

    closed spec fn view(&self) -> nat {
        self.next as nat
    }
}

/// The queue of the latest jobs.
pub struct JobQueue {
    held: Vec<StraumMiningNotify>,
    published: u64,
    capacity: usize,
}

impl View for JobQueue {
    type V = QueueView;

    closed spec fn view(&self) -> QueueView {
        QueueView {
            held: Seq::new(self.held@.len(), |i: int| self.held@[i]@),
            published: self.published as nat,
            capacity: self.capacity as nat,
        }
    }
}

impl JobQueue {
    /// The invariant that `new` establishes and every method keeps.
    pub open spec fn wf(&self) -> bool {
        self@.wf()
    }

    /// An empty queue that holds at most `capacity` jobs; none where
    /// `capacity` is zero.
    pub fn new(capacity: usize) -> (r: Option<Self>)
        ensures
            r is Some <==> capacity >= 1,
            r is Some ==> r->0.wf() && r->0@ == (QueueView {
                held: Seq::empty(),
                published: 0,
                capacity: capacity as nat,
            }),
    {
        if capacity == 0 {
            None
        } else {
            let q = JobQueue { held: Vec::new(), published: 0, capacity };
            assert(q@.held =~= Seq::<StraumMiningNotifyView>::empty());
            Some(q)
        }
    }

    /// How many jobs were ever published.
    pub fn published(&self) -> (n: u64)
        ensures
            n == self@.published,
    {
        self.published
    }

    /// How many jobs are held.
    pub fn len(&self) -> (n: usize)
        ensures
            n == self@.held.len(),
    {
        self.held.len()
    }

    /// Publishes `job`. Says `false`, and changes nothing, once the count of
    /// published jobs has reached its largest value.
    pub fn publish(&mut self, job: StraumMiningNotify) -> (done: bool)
        requires
            old(self).wf(),
        ensures
            final(self).wf(),
            done == (old(self)@.published < u64::MAX),
            done ==> final(self)@ == old(self)@.after_publish(job@),
            !done ==> final(self)@ == old(self)@,
    {
        if self.published == u64::MAX {
            return false;
        }
        let ghost before = self@;
        if self.held.len() >= self.capacity {
            self.held.remove(0);
            assert(self@.held =~= before.held.drop_first());
        }
        let ghost mid = self@;
        self.held.push(job);
        self.published = self.published + 1;
        assert(self@.held =~= mid.held.push(job@));
        true
    }

    /// A subscription that begins now: it is shown the jobs that are
    /// published from here on and none of those before.
    pub fn subscribe(&self) -> (s: Subscription)
        ensures
            s@ == self@.published,
    {
        Subscription { next: self.published }
    }

    /// The next job for the subscriber, if one was published that it has not
    /// been shown; the subscription moves past it.
    pub fn poll(&self, subscription: &mut Subscription) -> (job: Option<StraumMiningNotify>)
        requires
            self.wf(),
        ensures
            job is Some <==> old(subscription)@ < self@.published,
            job is Some ==> Some(job->0@) == self@.poll(old(subscription)@),
            final(subscription)@ == self@.after_poll(old(subscription)@),
    {
        if subscription.next >= self.published {
            return None;
        }
        let n: u64 = self.held.len() as u64;
        let first: u64 = self.published - n;
        let at: u64 = if subscription.next < first {
            first
        } else {
            subscription.next
        };
        let index: usize = (at - first) as usize;
        subscription.next = at + 1;
        assert(self@.held[index as int] == self.held@[index as int]@);
        Some(self.held[index].clone())
    }

    /// The newest job, if any was published.
    pub fn latest(&self) -> (job: Option<StraumMiningNotify>)
        requires
            self.wf(),
        ensures
            job is Some <==> self@.held.len() > 0,
            job is Some ==> Some(job->0@) == self@.latest(),
    {
        let n: usize = self.held.len();
        if n == 0 {
            None
        } else {
            assert(self@.held[n - 1] == self.held@[n - 1]@);
            Some(self.held[n - 1].clone())
        }
    }
}

/// A subscriber that joins after a job was published is not shown that job:
/// until the next job is published, a fresh subscription is shown nothing.
pub proof fn law_no_history(q: QueueView)
    requires
        q.wf(),
    ensures
        q.poll(q.published) is None,
        q.after_poll(q.published) == q.published,
{
}

/// A job that is published reaches every subscriber that was up to date, as
/// the next job it is shown, and is then the latest job.
pub proof fn law_published_job_is_shown(q: QueueView, job: StraumMiningNotifyView)
    requires
        q.wf(),
        q.published < u64::MAX,
    ensures
        q.after_publish(job).wf(),
        q.after_publish(job).poll(q.published) == Some(job),
        q.after_publish(job).after_poll(q.published) == q.published + 1,
        q.after_publish(job).latest() == Some(job),
{
}

/// Jobs are shown in the order in which they were published, each at most
/// once: a poll that shows a job moves the subscription on, past a job that
/// is held, and never beyond what was published.
pub proof fn law_polls_in_order(q: QueueView, next: nat)
    requires
        q.wf(),
        next < q.published,
    ensures
        q.after_poll(next) > next,
        q.after_poll(next) <= q.published,
        q.first_held() <= q.shown(next) < q.published,
        q.held.len() > 0,
{
}

} // verus!
