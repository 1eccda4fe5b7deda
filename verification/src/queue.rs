//! The queues of pending work, one for each host, and the rule by which
//! work is started: on each host in the order of submission and one job
//! at a time, and over all hosts no more jobs at a time than the limiter allows.

use crate::limiter::SshLimiter;
use crate::names::{
    find, lemma_position, lemma_with_distinct, lemma_without_distinct, position, without,
};
use crate::store::MetricKind;
use vstd::prelude::*;
use vstd::string::*;

verus! {

/// The number of jobs that may wait for one host.
pub const QUEUE_CAPACITY: usize = 100;

/// One collection of one metric, to be run on the host in whose queue it stands.
#[derive(Debug, Clone, Copy, PartialEq, Eq, Structural)]
pub struct Job {
    /// The number of the job: jobs are numbered as they are submitted.
    pub id: u64,
    pub kind: MetricKind,
}

/// A job that has been started, and the time at which it was.
#[derive(Debug, Clone, Copy, PartialEq, Eq, Structural)]
pub struct Running {
    pub job: Job,
    pub started: u64,
}

/// What has become of a submission.
#[derive(Debug, Clone, Copy, PartialEq, Eq, Structural)]
pub enum Enqueued {
    /// The job opened the queue of its host; a worker is to be started for the host.
    Spawned(Job),
    /// The job stands at the end of its host's queue.
    Queued(Job),
    /// The queue of the host is full. Nothing has changed; the caller
    /// waits and submits again.
    Full,
}

/// The work of one host.
pub struct Lane {
    pending: Vec<Job>,
    running: Option<Running>,
}

/// The work of one host: the jobs that wait, the first in front, and the
/// job that runs, if one does.
pub struct LaneView {
    pub pending: Seq<Job>,
    pub running: Option<Running>,
}

impl View for Lane {
    type V = LaneView;

    closed spec fn view(&self) -> LaneView {
        LaneView { pending: self.pending@, running: self.running }
    }
}

/// The state of the queues.
pub struct QueueView {
    /// How many jobs may run at the same time.
    pub capacity: nat,
    /// The hosts that have a queue, in the order in which the queues were opened.
    pub hosts: Seq<Seq<char>>,
    /// The work of each of `hosts`.
    pub lanes: Seq<LaneView>,
    /// The hosts on which a job runs, in the order in which the jobs were started.
    pub executing: Seq<Seq<char>>,
    /// How many jobs have been submitted.
    pub issued: u64,
}

impl QueueView {
    /// Where the queue of `host` stands in `lanes`, or their number if it has none.
    pub open spec fn index(self, host: Seq<char>) -> int {
        position(self.hosts, host)
    }

    pub open spec fn has_lane(self, host: Seq<char>) -> bool {
        self.index(host) < self.lanes.len()
    }

    pub open spec fn lane(self, host: Seq<char>) -> LaneView {
        self.lanes[self.index(host)]
    }

    /// Whether `job` waits or runs in lane number `i`.
    pub open spec fn holds(self, i: int, job: Job) -> bool {
        &&& 0 <= i < self.lanes.len()
        &&& (self.lanes[i].running matches Some(r) && r.job == job || self.lanes[i].pending.contains(
            job,
        ))
    }

    /// What holds of the queues at all times.
    ///
    /// Every host has one queue, and no queue holds more jobs than it
    /// may. A job runs on a host exactly if the host is among
    /// `executing`; no host stands there twice, and there are no more
    /// of them than `capacity`. Every job has a number below the number
    /// of jobs submitted.
    pub open spec fn wf(self) -> bool {
        &&& self.hosts.len() == self.lanes.len()
        &&& self.hosts.no_duplicates()
        &&& self.executing.no_duplicates()
        &&& self.executing.len() <= self.capacity
        &&& forall|i: int|
            0 <= i < self.lanes.len() ==> ((#[trigger] self.lanes[i]).running is Some
                <==> self.executing.contains(self.hosts[i]))
        &&& forall|h: Seq<char>| self.executing.contains(h) ==> self.hosts.contains(h)
        &&& forall|i: int|
            0 <= i < self.lanes.len() ==> (#[trigger] self.lanes[i]).pending.len()
                <= QUEUE_CAPACITY
        &&& forall|i: int, job: Job| #[trigger] self.holds(i, job) ==> job.id < self.issued
    }

    /// The job that a submission of `kind` makes.
    pub open spec fn next_job(self, kind: MetricKind) -> Job {
        Job { id: self.issued, kind }
    }

    /// What becomes of a submission for `host`.
    pub open spec fn enqueue_result(self, host: Seq<char>, kind: MetricKind) -> Enqueued {
        if !self.has_lane(host) {
            Enqueued::Spawned(self.next_job(kind))
        } else if self.lane(host).pending.len() >= QUEUE_CAPACITY {
            Enqueued::Full
        } else {
            Enqueued::Queued(self.next_job(kind))
        }
    }

    /// The queues after a submission for `host`: the job stands at the
    /// end of the host's queue, which is opened if the host had none;
    /// where the queue is full nothing changes.
    pub open spec fn enqueue(self, host: Seq<char>, kind: MetricKind) -> QueueView {
        let job = self.next_job(kind);
        if !self.has_lane(host) {
            QueueView {
                hosts: self.hosts.push(host),
                lanes: self.lanes.push(LaneView { pending: seq![job], running: None }),
                issued: (self.issued + 1) as u64,
                ..self
            }
        } else if self.lane(host).pending.len() >= QUEUE_CAPACITY {
            self
        } else {
            QueueView {
                lanes: self.lanes.update(
                    self.index(host),
                    LaneView { pending: self.lane(host).pending.push(job), ..self.lane(host) },
                ),
                issued: (self.issued + 1) as u64,
                ..self
            }
        }
    }

    /// Whether a job can be started on `host`: one waits there, none
    /// runs there, and fewer jobs run than may.
    pub open spec fn can_start(self, host: Seq<char>) -> bool {
        &&& self.has_lane(host)
        &&& self.lane(host).running is None
        &&& self.lane(host).pending.len() > 0
        &&& self.executing.len() < self.capacity
    }

    /// The queues after the start of a job on `host` at time `now`: the
    /// job in front of the host's queue is the one that runs.
    pub open spec fn start(self, host: Seq<char>, now: u64) -> QueueView {
        if self.can_start(host) {
            QueueView {
                lanes: self.lanes.update(
                    self.index(host),
                    LaneView {
                        pending: self.lane(host).pending.drop_first(),
                        running: Some(Running { job: self.lane(host).pending[0], started: now }),
                    },
                ),
                executing: self.executing.push(host),
                ..self
            }
        } else {
            self
        }
    }

    /// Whether job number `id` runs on `host`.
    pub open spec fn runs(self, host: Seq<char>, id: u64) -> bool {
        &&& self.has_lane(host)
        &&& self.lane(host).running matches Some(r)
        &&& r.job.id == id
    }

    /// The queues after the end of job number `id` on `host`: no job
    /// runs on the host. Where that job does not run there nothing changes.
    pub open spec fn finish(self, host: Seq<char>, id: u64) -> QueueView {
        if self.runs(host, id) {
            QueueView {
                lanes: self.lanes.update(
                    self.index(host),
                    LaneView { running: None, ..self.lane(host) },
                ),
                executing: without(self.executing, host),
                ..self
            }
        } else {
            self
        }
    }
}

/// A submission keeps the rules.
pub proof fn lemma_enqueue_wf(q: QueueView, host: Seq<char>, kind: MetricKind)
    requires
        q.wf(),
        q.issued < u64::MAX,
    ensures
        q.enqueue(host, kind).wf(),
{
    let after = q.enqueue(host, kind);
    lemma_position(q.hosts, host);
    assert forall|i: int, job: Job| #[trigger] after.holds(i, job) implies job.id
        < after.issued by {
        if after != q {
            let at = q.index(host);
            if i < q.lanes.len() && i != at {
                assert(after.lanes[i] == q.lanes[i]);
                assert(q.holds(i, job));
            } else if i < q.lanes.len() {
                assert(after.lanes[i].running == q.lanes[i].running);
                if after.lanes[i].pending.contains(job) && job != q.next_job(kind) {
                    let j = choose|j: int|
                        0 <= j < after.lanes[i].pending.len() && after.lanes[i].pending[j] == job;
                    assert(q.lanes[i].pending[j] == job);
                }
                if job != q.next_job(kind) {
                    assert(q.holds(i, job));
                }
            } else {
                assert(after.lanes[i].pending =~= seq![q.next_job(kind)]);
                if after.lanes[i].pending.contains(job) {
                    let j = choose|j: int|
                        0 <= j < after.lanes[i].pending.len() && after.lanes[i].pending[j] == job;
                    assert(job == q.next_job(kind));
                }
            }
        }
    }
    if !q.has_lane(host) {
        lemma_with_distinct(q.hosts, host);
        assert forall|i: int| 0 <= i < after.lanes.len() implies
            ((#[trigger] after.lanes[i]).running is Some <==> after.executing.contains(after.hosts[i])) by {
            if i < q.lanes.len() {
                assert(after.lanes[i] == q.lanes[i]);
            }
        }
        assert forall|h: Seq<char>| after.executing.contains(h) implies after.hosts.contains(h) by {
            let j = choose|j: int| 0 <= j < q.hosts.len() && q.hosts[j] == h;
            assert(after.hosts[j] == h);
        }
        assert forall|i: int| 0 <= i < after.lanes.len() implies
            (#[trigger] after.lanes[i]).pending.len() <= QUEUE_CAPACITY by {
            if i < q.lanes.len() {
                assert(after.lanes[i] == q.lanes[i]);
            }
        }
    } else if q.lane(host).pending.len() < QUEUE_CAPACITY {
        let at = q.index(host);
        assert forall|i: int| 0 <= i < after.lanes.len() implies
            ((#[trigger] after.lanes[i]).running is Some <==> after.executing.contains(after.hosts[i])) by {
            assert(after.lanes[i].running == q.lanes[i].running);
        }
        assert forall|i: int| 0 <= i < after.lanes.len() implies
            (#[trigger] after.lanes[i]).pending.len() <= QUEUE_CAPACITY by {
            if i != at {
                assert(after.lanes[i] == q.lanes[i]);
            }
        }
    }
}

/// The start of a job keeps the rules.
pub proof fn lemma_start_wf(q: QueueView, host: Seq<char>, now: u64)
    requires
        q.wf(),
    ensures
        q.start(host, now).wf(),
{
    let after = q.start(host, now);
    lemma_position(q.hosts, host);
    assert forall|i: int, job: Job| #[trigger] after.holds(i, job) implies job.id
        < after.issued by {
        if q.can_start(host) {
            let at = q.index(host);
            if i != at {
                assert(after.lanes[i] == q.lanes[i]);
                assert(q.holds(i, job));
            } else {
                if after.lanes[i].pending.contains(job) {
                    let j = choose|j: int|
                        0 <= j < after.lanes[i].pending.len() && after.lanes[i].pending[j] == job;
                    assert(q.lanes[i].pending[j + 1] == job);
                } else {
                    assert(q.lanes[i].pending[0] == job);
                }
                assert(q.holds(i, job));
            }
        }
    }
    if q.can_start(host) {
        let at = q.index(host);
        assert(q.lanes[at].running is None);
        assert(!q.executing.contains(host));
        lemma_position(q.executing, host);
        lemma_with_distinct(q.executing, host);
        assert(after.executing[q.executing.len() as int] == host);
        assert forall|i: int| 0 <= i < after.lanes.len() implies
            ((#[trigger] after.lanes[i]).running is Some <==> after.executing.contains(after.hosts[i])) by {
            if i != at {
                assert(after.lanes[i] == q.lanes[i]);
                if q.executing.contains(q.hosts[i]) {
                    let j = choose|j: int|
                        0 <= j < q.executing.len()
                        && q.executing[j] == q.hosts[i];
                    assert(after.executing[j] == q.hosts[i]);
                }
                if after.executing.contains(q.hosts[i]) {
                    let j = choose|j: int|
                        0 <= j < after.executing.len()
                        && after.executing[j] == q.hosts[i];
                    assert(j < q.executing.len());
                    assert(q.executing[j] == q.hosts[i]);
                }
            }
        }
        assert forall|h: Seq<char>| after.executing.contains(h) implies after.hosts.contains(h) by {
            let j = choose|j: int| 0 <= j < after.executing.len() && after.executing[j] == h;
            if j < q.executing.len() {
                assert(q.executing[j] == h);
            }
        }
        assert forall|i: int| 0 <= i < after.lanes.len() implies
            (#[trigger] after.lanes[i]).pending.len() <= QUEUE_CAPACITY by {
            if i != at {
                assert(after.lanes[i] == q.lanes[i]);
            }
        }
    }
}

/// The end of a job keeps the rules.
pub proof fn lemma_finish_wf(q: QueueView, host: Seq<char>, id: u64)
    requires
        q.wf(),
    ensures
        q.finish(host, id).wf(),
{
    let after = q.finish(host, id);
    lemma_position(q.hosts, host);
    assert forall|i: int, job: Job| #[trigger] after.holds(i, job) implies job.id
        < after.issued by {
        if q.runs(host, id) {
            if i != q.index(host) {
                assert(after.lanes[i] == q.lanes[i]);
            }
            assert(q.holds(i, job));
        }
    }
    if q.runs(host, id) {
        let at = q.index(host);
        lemma_without_distinct(q.executing, host);
        assert(q.lanes[at].running is Some);
        assert forall|i: int| 0 <= i < after.lanes.len() implies
            ((#[trigger] after.lanes[i]).running is Some <==> after.executing.contains(after.hosts[i])) by {
            if i != at {
                assert(after.lanes[i] == q.lanes[i]);
            }
        }
        assert forall|i: int| 0 <= i < after.lanes.len() implies
            (#[trigger] after.lanes[i]).pending.len() <= QUEUE_CAPACITY by {
            if i != at {
                assert(after.lanes[i] == q.lanes[i]);
            } else {
                assert(after.lanes[i].pending == q.lanes[i].pending);
            }
        }
    }
}

/// The queues of pending work with the limiter that their jobs pass.
pub struct TaskQueue {
    hosts: Vec<String>,
    lanes: Vec<Lane>,
    limiter: SshLimiter,
    issued: u64,
}

impl View for TaskQueue {
    type V = QueueView;

    closed spec fn view(&self) -> QueueView {
        QueueView {
            capacity: self.limiter.capacity(),
            hosts: self.hosts.deep_view(),
            lanes: Seq::new(self.lanes.len() as nat, |i: int| self.lanes[i]@),
            executing: self.limiter.holders(),
            issued: self.issued,
        }
    }
}

impl TaskQueue {
    /// The queues keep their rules, and so does the limiter.
    pub closed spec fn wf(&self) -> bool {
        self.limiter.wf() && self@.wf()
    }

    /// Queues that keep their rules show it in their state.
    pub proof fn lemma_view_wf(&self)
        requires
            self.wf(),
        ensures
            self@.wf(),
    {
    }

    /// Queues for any number of hosts, of which `max_concurrent_hosts`
    /// may have a job running at the same time.
    pub fn new(max_concurrent_hosts: usize) -> (r: Self)
        ensures
            r.wf(),
            r@ == (QueueView {
                capacity: max_concurrent_hosts as nat,
                hosts: Seq::empty(),
                lanes: Seq::empty(),
                executing: Seq::empty(),
                issued: 0,
            }),
    {
        let r = TaskQueue {
            hosts: Vec::new(),
            lanes: Vec::new(),
            limiter: SshLimiter::new(max_concurrent_hosts),
            issued: 0,
        };
        assert(r@.hosts == Seq::<Seq<char>>::empty());
        assert(r@.lanes == Seq::<LaneView>::empty());
        r
    }

    /// How many jobs have been submitted.
    pub fn issued(&self) -> (r: u64)
        ensures
            r == self@.issued,
    {
        self.issued
    }

    /// How many jobs run.
    pub fn in_flight(&self) -> (r: usize)
        requires
            self.wf(),
        ensures
            r == self@.executing.len(),
            r <= self@.capacity,
    {
        self.limiter.in_flight()
    }

    /// How many jobs wait for `host_id`.
    pub fn pending(&self, host_id: &str) -> (r: usize)
        requires
            self.wf(),
        ensures
            r == if self@.has_lane(host_id@) {
                self@.lane(host_id@).pending.len()
            } else {
                0
            },
    {
        let at = find(&self.hosts, host_id);
        if at < self.lanes.len() {
            self.lanes[at].pending.len()
        } else {
            0
        }
    }

    /// The job that runs on `host_id`, if one does.
    pub fn running(&self, host_id: &str) -> (r: Option<Running>)
        requires
            self.wf(),
        ensures
            r == if self@.has_lane(host_id@) {
                self@.lane(host_id@).running
            } else {
                None
            },
    {
        let at = find(&self.hosts, host_id);
        if at < self.lanes.len() {
            self.lanes[at].running
        } else {
            None
        }
    }

    /// The hosts that have a queue, in the order in which the queues were opened.
    pub fn hosts(&self) -> (r: &Vec<String>)
        ensures
            r.deep_view() == self@.hosts,
    {
        &self.hosts
    }

    /// Submits a collection of `kind` for `host_id`.
    pub fn enqueue(&mut self, host_id: &str, kind: MetricKind) -> (r: Enqueued)
        requires
            old(self).wf(),
            old(self)@.issued < u64::MAX,
        ensures
            final(self).wf(),
            final(self)@ == old(self)@.enqueue(host_id@, kind),
            r == old(self)@.enqueue_result(host_id@, kind),
    {
        proof {
            lemma_enqueue_wf(self@, host_id@, kind);
        }
        let job = Job { id: self.issued, kind };
        let at = find(&self.hosts, host_id);
        if at == self.hosts.len() {
            let mut pending: Vec<Job> = Vec::new();
            pending.push(job);
            let ghost names = self.hosts.deep_view();
            self.hosts.push(String::from_str(host_id));
            assert(self.hosts.deep_view() == names.push(host_id@));
            self.lanes.push(Lane { pending, running: None });
            self.issued = self.issued + 1;
            assert(self@.lanes =~= old(self)@.enqueue(host_id@, kind).lanes);
            return Enqueued::Spawned(job);
        }
        if self.lanes[at].pending.len() >= QUEUE_CAPACITY {
            return Enqueued::Full;
        }
        self.lanes[at].pending.push(job);
        self.issued = self.issued + 1;
        assert(self@.lanes =~= old(self)@.enqueue(host_id@, kind).lanes);
        Enqueued::Queued(job)
    }

    /// Starts the job in front of the queue of `host_id`, at time `now`,
    /// if a job can be started there, and gives the job.
    pub fn next(&mut self, host_id: &str, now: u64) -> (r: Option<Job>)
        requires
            old(self).wf(),
        ensures
            final(self).wf(),
            final(self)@ == old(self)@.start(host_id@, now),
            r == if old(self)@.can_start(host_id@) {
                Some(old(self)@.lane(host_id@).pending[0])
            } else {
                None
            },
    {
        proof {
            lemma_start_wf(self@, host_id@, now);
            lemma_position(self@.hosts, host_id@);
        }
        let at = find(&self.hosts, host_id);
        if at >= self.lanes.len() {
            return None;
        }
        if self.lanes[at].running.is_some() || self.lanes[at].pending.len() == 0 {
            return None;
        }
        if self.limiter.in_flight() >= self.limiter.limit() {
            return None;
        }
        assert(!self@.executing.contains(host_id@));
        let granted = self.limiter.acquire(host_id);
        assert(granted);
        let job = self.lanes[at].pending.remove(0);
        self.lanes[at].running = Some(Running { job, started: now });
        assert(self@.lanes =~= old(self)@.start(host_id@, now).lanes);
        Some(job)
    }

    /// Ends job number `id` on `host_id`, if it runs there, and tells
    /// whether it did.
    pub fn finish(&mut self, host_id: &str, id: u64) -> (r: bool)
        requires
            old(self).wf(),
        ensures
            final(self).wf(),
            final(self)@ == old(self)@.finish(host_id@, id),
            r == old(self)@.runs(host_id@, id),
    {
        proof {
            lemma_finish_wf(self@, host_id@, id);
            lemma_position(self@.hosts, host_id@);
        }
        let at = find(&self.hosts, host_id);
        if at >= self.lanes.len() {
            return false;
        }
        let running = self.lanes[at].running;
        if let Some(running) = running {
            if running.job.id == id {
                self.lanes[at].running = None;
                self.limiter.release(host_id);
                assert(self@.lanes =~= old(self)@.finish(host_id@, id).lanes);
                return true;
            }
        }
        false
    }
}

/// A job that is submitted gets a number that no job in the queues has.
pub proof fn law_new_job_is_new(q: QueueView, kind: MetricKind, i: int, job: Job)
    requires
        q.wf(),
        q.holds(i, job),
    ensures
        job != q.next_job(kind),
{
}

/// The jobs of a host are started in the order in which they were
/// submitted: a submission puts its job behind all that wait, and a
/// start takes the job in front and leaves the others in their order.
pub proof fn law_first_in_first_out(q: QueueView, host: Seq<char>, kind: MetricKind, now: u64)
    requires
        q.wf(),
        q.has_lane(host),
    ensures
        q.lane(host).pending.len() < QUEUE_CAPACITY ==> q.enqueue(host, kind).lane(host).pending
            == q.lane(host).pending.push(q.next_job(kind)),
        q.lane(host).pending.len() >= QUEUE_CAPACITY ==> q.enqueue(host, kind) == q,
        q.can_start(host) ==> q.start(host, now).lane(host).pending == q.lane(
            host,
        ).pending.drop_first() && q.start(host, now).lane(host).running == Some(
            Running { job: q.lane(host).pending[0], started: now },
        ),
{
    lemma_position(q.hosts, host);
}

/// No two jobs run on the same host at the same time: the hosts on
/// which a job runs are all different, and each has one running job.
pub proof fn law_running_hosts_differ(q: QueueView, i: int, j: int)
    requires
        q.wf(),
        0 <= i < q.executing.len(),
        0 <= j < q.executing.len(),
        i != j,
    ensures
        q.executing[i] != q.executing[j],
{
}

/// At no time do more jobs run than the configured number.
pub proof fn law_running_within_capacity(q: QueueView)
    requires
        q.wf(),
    ensures
        q.executing.len() <= q.capacity,
{
}

} // verus!
