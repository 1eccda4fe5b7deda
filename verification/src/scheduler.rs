//! The scheduler: which collections are due, the submission of one job
//! for every host at each tick, the start of jobs, and the record of how
//! they ended.
//!
//! The scheduler performs no collection and keeps no clock. Its caller
//! runs the jobs and tells the time; the scheduler decides, and keeps
//! the queues and the store of states in step with each other.

use crate::host::{HostView, SshHostInfo};
use crate::names::{
    lemma_position, lemma_position_push, lemma_position_unique, lemma_without_distinct,
};
use crate::probe::join;
use crate::queue::{
    lemma_enqueue_wf, lemma_finish_wf, lemma_start_wf, Job, LaneView, QueueView, TaskQueue,
    QUEUE_CAPACITY,
};
use crate::store::{failure_of, loading_of, Metric, MetricKind, MetricView, StatusMap, StatusStore};
use vstd::prelude::*;
use vstd::string::*;

verus! {

/// The time after which a running job counts as timed out, in
/// milliseconds, unless another one is set.
pub const JOB_TIMEOUT_MS: u64 = 10_000;

/// A collection that is repeated: its name, the metric it collects, and
/// the seconds from one round to the next.
#[derive(Debug, Clone, PartialEq, Eq)]
pub struct Schedule {
    pub name: String,
    pub kind: MetricKind,
    pub interval: u64,
}

/// A `Schedule` with its name as a sequence of characters.
pub struct ScheduleView {
    pub name: Seq<char>,
    pub kind: MetricKind,
    pub interval: u64,
}

impl View for Schedule {
    type V = ScheduleView;

    open spec fn view(&self) -> ScheduleView {
        ScheduleView { name: self.name@, kind: self.kind, interval: self.interval }
    }
}

impl DeepView for Schedule {
    type V = ScheduleView;

    open spec fn deep_view(&self) -> ScheduleView {
        self@
    }
}

/// A collection that the scheduler repeats for every host.
pub trait BackgroundTask {
    /// Name, metric and interval of the task.
    spec fn schedule(&self) -> ScheduleView;

    /// Name of the task, for logs.
    fn name(&self) -> (r: &'static str)
        ensures
            r@ == self.schedule().name,
    ;

    /// Seconds from one round of the task to the next.
    fn interval(&self) -> (r: u64)
        ensures
            r == self.schedule().interval,
    ;

    /// The metric that the task collects.
    fn kind(&self) -> (r: MetricKind)
        ensures
            r == self.schedule().kind,
    ;
}

/// Checks every two minutes whether the hosts can be reached.
pub struct SshStatusTask;

/// Collects the processor load every 30 seconds.
pub struct CpuInfoTask;

/// Collects the disk usage every hour.
pub struct DiskInfoTask;

/// Collects the memory usage every 30 seconds.
pub struct MemoryInfoTask;

/// Collects the identity of the operating system every hour.
pub struct OsInfoTask;

/// Collects the state of the graphics card every minute.
pub struct GpuInfoTask;

impl BackgroundTask for SshStatusTask {
    open spec fn schedule(&self) -> ScheduleView {
        ScheduleView { name: "ssh_status_checker"@, kind: MetricKind::Connectivity, interval: 120 }
    }

    fn name(&self) -> (r: &'static str) {
        "ssh_status_checker"
    }

    fn interval(&self) -> (r: u64) {
        120
    }

    fn kind(&self) -> (r: MetricKind) {
        MetricKind::Connectivity
    }
}

impl BackgroundTask for CpuInfoTask {
    open spec fn schedule(&self) -> ScheduleView {
        ScheduleView { name: "cpu_info_checker"@, kind: MetricKind::Cpu, interval: 30 }
    }

    fn name(&self) -> (r: &'static str) {
        "cpu_info_checker"
    }

    fn interval(&self) -> (r: u64) {
        30
    }

    fn kind(&self) -> (r: MetricKind) {
        MetricKind::Cpu
    }
}

impl BackgroundTask for DiskInfoTask {
    open spec fn schedule(&self) -> ScheduleView {
        ScheduleView { name: "disk_info_checker"@, kind: MetricKind::Disk, interval: 3600 }
    }

    fn name(&self) -> (r: &'static str) {
        "disk_info_checker"
    }

    fn interval(&self) -> (r: u64) {
        3600
    }

    fn kind(&self) -> (r: MetricKind) {
        MetricKind::Disk
    }
}

impl BackgroundTask for MemoryInfoTask {
    open spec fn schedule(&self) -> ScheduleView {
        ScheduleView { name: "memory_info_checker"@, kind: MetricKind::Memory, interval: 30 }
    }

    fn name(&self) -> (r: &'static str) {
        "memory_info_checker"
    }

    fn interval(&self) -> (r: u64) {
        30
    }

    fn kind(&self) -> (r: MetricKind) {
        MetricKind::Memory
    }
}

impl BackgroundTask for OsInfoTask {
    open spec fn schedule(&self) -> ScheduleView {
        ScheduleView { name: "os_info_checker"@, kind: MetricKind::Os, interval: 3600 }
    }

    fn name(&self) -> (r: &'static str) {
        "os_info_checker"
    }

    fn interval(&self) -> (r: u64) {
        3600
    }

    fn kind(&self) -> (r: MetricKind) {
        MetricKind::Os
    }
}

impl BackgroundTask for GpuInfoTask {
    open spec fn schedule(&self) -> ScheduleView {
        ScheduleView { name: "gpu_info_checker"@, kind: MetricKind::Gpu, interval: 60 }
    }

    fn name(&self) -> (r: &'static str) {
        "gpu_info_checker"
    }

    fn interval(&self) -> (r: u64) {
        60
    }

    fn kind(&self) -> (r: MetricKind) {
        MetricKind::Gpu
    }
}

/// How the run of a job ended.
#[derive(Debug, Clone, PartialEq, Eq)]
pub enum JobEnd {
    /// The collector came to this state.
    Finished(Metric),
    /// The thread of the collector died, with this message.
    Panicked(String),
    /// The collector did not come to an end in time.
    TimedOut,
}

/// A `JobEnd` by the views of what it holds.
pub enum JobEndView {
    Finished(MetricView),
    Panicked(Seq<char>),
    TimedOut,
}

impl View for JobEnd {
    type V = JobEndView;

    open spec fn view(&self) -> JobEndView {
        match self {
            JobEnd::Finished(metric) => JobEndView::Finished(metric@),
            JobEnd::Panicked(message) => JobEndView::Panicked(message@),
            JobEnd::TimedOut => JobEndView::TimedOut,
        }
    }
}

/// Whether `end` can be the end of a job of the given kind: a collector
/// ends in success or failure, and in a state of its own metric.
pub open spec fn fits(kind: MetricKind, end: JobEndView) -> bool {
    end matches JobEndView::Finished(metric) ==> metric.kind() == kind && metric.is_terminal()
}

/// The state that the end of a job of the given kind leaves behind.
pub open spec fn settled(kind: MetricKind, end: JobEndView) -> MetricView {
    match end {
        JobEndView::Finished(metric) => metric,
        JobEndView::Panicked(message) => failure_of(kind, "Thread error: "@ + message),
        JobEndView::TimedOut => failure_of(kind, "Timed out"@),
    }
}

/// The ids of `hosts`, in order.
pub open spec fn host_ids(hosts: Seq<HostView>) -> Seq<Seq<char>> {
    Seq::new(hosts.len(), |i: int| hosts[i].id)
}

/// Whether the metric of the given kind of `host` is being collected.
pub open spec fn is_loading(store: StatusMap, host: Seq<char>, kind: MetricKind) -> bool {
    store.contains_key((host, kind)) && store[(host, kind)].is_loading()
}

/// Whether a job of the given kind waits or runs on `host`.
pub open spec fn has_job(queue: QueueView, host: Seq<char>, kind: MetricKind) -> bool {
    &&& queue.has_lane(host)
    &&& {
        ||| queue.lane(host).running matches Some(r) && r.job.kind == kind
        ||| exists|j: int|
            0 <= j < queue.lane(host).pending.len() && (#[trigger] queue.lane(host).pending[j]).kind
                == kind
    }
}

/// Whether every entry of the store is a state of the kind it stands under.
pub open spec fn sorted_by_kind(store: StatusMap) -> bool {
    forall|h: Seq<char>, k: MetricKind| #[trigger]
        store.contains_key((h, k)) ==> store[(h, k)].kind() == k
}

/// Whether for every metric that is being collected a job waits or runs
/// that will end the collection.
pub open spec fn backed(queue: QueueView, store: StatusMap) -> bool {
    forall|h: Seq<char>, k: MetricKind| #[trigger]
        is_loading(store, h, k) ==> has_job(queue, h, k)
}

/// Whether the metric of every job that runs is being collected.
pub open spec fn running_is_loading(queue: QueueView, store: StatusMap) -> bool {
    forall|i: int|
        0 <= i < queue.lanes.len() ==> ((#[trigger] queue.lanes[i]).running matches Some(r)
            ==> is_loading(store, queue.hosts[i], r.job.kind))
}

/// The store that marks the metric of every job that runs in one of the
/// first `n` lanes as being collected, and holds nothing else.
pub open spec fn marked(queue: QueueView, n: int) -> StatusMap
    decreases n,
{
    if n <= 0 {
        StatusMap::empty()
    } else {
        match queue.lanes[n - 1].running {
            Some(r) => marked(queue, n - 1).insert(
                (queue.hosts[n - 1], r.job.kind),
                loading_of(r.job.kind),
            ),
            None => marked(queue, n - 1),
        }
    }
}

/// Whether a job of the given kind runs in `lane`.
pub open spec fn runs_kind(lane: LaneView, kind: MetricKind) -> bool {
    lane.running matches Some(r) && r.job.kind == kind
}

/// Whether a job of the given kind runs on `host` in one of the first `n` lanes.
pub open spec fn runs_within(queue: QueueView, n: int, host: Seq<char>, kind: MetricKind) -> bool {
    exists|i: int|
        0 <= i < n && queue.hosts[i] == host && #[trigger] runs_kind(queue.lanes[i], kind)
}

/// The state of the scheduler.
pub struct TimerView {
    pub tasks: Seq<ScheduleView>,
    pub queue: QueueView,
    pub store: StatusMap,
    /// Milliseconds after which a running job counts as timed out.
    pub timeout: u64,
}

impl TimerView {
    /// What holds of the scheduler at all times: the queues keep their
    /// rules, every entry of the store is a state of the kind it stands
    /// under, for every metric that is being collected a job waits or
    /// runs that will end the collection, and the metric of a job that
    /// runs is being collected.
    pub open spec fn wf(self) -> bool {
        &&& self.queue.wf()
        &&& sorted_by_kind(self.store)
        &&& backed(self.queue, self.store)
        &&& running_is_loading(self.queue, self.store)
    }

    /// Whether a job can be submitted for `host`: its queue is not full.
    pub open spec fn has_room(self, host: Seq<char>) -> bool {
        !self.queue.has_lane(host) || self.queue.lane(host).pending.len() < QUEUE_CAPACITY
    }

    /// The scheduler after the submission of a collection of `kind` for
    /// `host`: the metric is being collected and the job waits. Where
    /// the queue of the host is full nothing changes.
    pub open spec fn submit(self, host: Seq<char>, kind: MetricKind) -> TimerView {
        if self.has_room(host) {
            TimerView {
                queue: self.queue.enqueue(host, kind),
                store: self.store.insert((host, kind), loading_of(kind)),
                ..self
            }
        } else {
            self
        }
    }

    /// The scheduler after a round of `kind` over `hosts` from number
    /// `from` on, and the number of the host at which the round stands:
    /// a job is submitted for one host after the other, and the round
    /// stops before the first host whose queue is full.
    pub open spec fn run(self, kind: MetricKind, hosts: Seq<Seq<char>>, from: int) -> (
        TimerView,
        int,
    )
        decreases hosts.len() - from,
    {
        if from < 0 || from >= hosts.len() {
            (self, hosts.len() as int)
        } else if !self.has_room(hosts[from]) {
            (self, from)
        } else {
            self.submit(hosts[from], kind).run(kind, hosts, from + 1)
        }
    }

    /// The scheduler after the start of a job on `host` at time `now`:
    /// the job in front of the host's queue runs, and its metric is
    /// being collected. Where no job can be started nothing changes.
    pub open spec fn begin(self, host: Seq<char>, now: u64) -> TimerView {
        if self.queue.can_start(host) {
            let kind = self.queue.lane(host).pending[0].kind;
            TimerView {
                queue: self.queue.start(host, now),
                store: self.store.insert((host, kind), loading_of(kind)),
                ..self
            }
        } else {
            self
        }
    }

    /// Whether `job` is the job that runs on `host`.
    pub open spec fn is_running(self, host: Seq<char>, job: Job) -> bool {
        &&& self.queue.has_lane(host)
        &&& self.queue.lane(host).running matches Some(r)
        &&& r.job == job
    }

    /// The scheduler after `job` has ended on `host`: the state that the
    /// end leaves behind is in the store, and no job runs on the host.
    /// Where `job` does not run on `host` nothing changes.
    pub open spec fn settle(self, host: Seq<char>, job: Job, end: JobEndView) -> TimerView {
        if self.is_running(host, job) {
            TimerView {
                queue: self.queue.finish(host, job.id),
                store: self.store.insert((host, job.kind), settled(job.kind, end)),
                ..self
            }
        } else {
            self
        }
    }

    /// Whether a job runs in lane number `i` that was started `timeout`
    /// milliseconds before `now`, or earlier.
    pub open spec fn overdue(self, i: int, now: u64) -> bool {
        &&& 0 <= i < self.queue.lanes.len()
        &&& self.queue.lanes[i].running matches Some(r)
        &&& r.started + self.timeout <= now
    }

    /// The scheduler after every job that is overdue at `now` in lane
    /// number `i` or a later one has been ended as timed out.
    pub open spec fn expire(self, now: u64, i: int) -> TimerView
        decreases self.queue.hosts.len() - i,
    {
        if i < 0 || i >= self.queue.hosts.len() || self.queue.hosts.len() != self.queue.lanes.len()
            {
            self
        } else if self.overdue(i, now) {
            let after = self.settle(
                self.queue.hosts[i],
                self.queue.lanes[i].running->0.job,
                JobEndView::TimedOut,
            );
            if after.queue.hosts == self.queue.hosts {
                after.expire(now, i + 1)
            } else {
                after
            }
        } else {
            self.expire(now, i + 1)
        }
    }
}

/// The marks stand for the jobs that run, and for nothing else.
pub proof fn lemma_marked(queue: QueueView, n: int, host: Seq<char>, kind: MetricKind)
    requires
        queue.hosts.len() == queue.lanes.len(),
        0 <= n <= queue.lanes.len(),
    ensures
        marked(queue, n).contains_key((host, kind)) <==> runs_within(queue, n, host, kind),
        marked(queue, n).contains_key((host, kind)) ==> marked(queue, n)[(host, kind)]
            == loading_of(kind),
    decreases n,
{
    if n > 0 {
        lemma_marked(queue, n - 1, host, kind);
        if runs_within(queue, n - 1, host, kind) {
            let i = choose|i: int|
                0 <= i < n - 1 && queue.hosts[i] == host && #[trigger] runs_kind(
                    queue.lanes[i],
                    kind,
                );
            assert(0 <= i < n && runs_kind(queue.lanes[i], kind));
        }
        if runs_within(queue, n, host, kind) {
            let i = choose|i: int|
                0 <= i < n && queue.hosts[i] == host && #[trigger] runs_kind(queue.lanes[i], kind);
            if i < n - 1 {
                assert(runs_within(queue, n - 1, host, kind));
            }
        }
        if let Some(r) = queue.lanes[n - 1].running {
            if queue.hosts[n - 1] == host && r.job.kind == kind {
                assert(runs_kind(queue.lanes[n - 1], kind));
                assert(runs_within(queue, n, host, kind));
            }
        }
    }
}

/// A scheduler that is put over queues keeps its rules from the start.
pub proof fn lemma_marked_wf(tasks: Seq<ScheduleView>, queue: QueueView, timeout: u64)
    requires
        queue.wf(),
    ensures
        (TimerView { tasks, queue, store: marked(queue, queue.lanes.len() as int), timeout }).wf(),
{
    let n = queue.lanes.len() as int;
    let store = marked(queue, n);
    assert forall|h: Seq<char>, k: MetricKind| #[trigger] store.contains_key((h, k)) implies
        store[(h, k)].kind() == k by {
        lemma_marked(queue, n, h, k);
    }
    assert forall|h: Seq<char>, k: MetricKind| #[trigger] is_loading(store, h, k) implies
        has_job(queue, h, k) by {
        lemma_marked(queue, n, h, k);
        let i = choose|i: int|
            0 <= i < n && queue.hosts[i] == h && #[trigger] runs_kind(queue.lanes[i], k);
        lemma_position_unique(queue.hosts, i);
    }
    assert forall|i: int| 0 <= i < queue.lanes.len() implies ((
    #[trigger] queue.lanes[i]).running matches Some(r) ==> is_loading(
        store,
        queue.hosts[i],
        r.job.kind,
    )) by {
        if let Some(r) = queue.lanes[i].running {
            lemma_marked(queue, n, queue.hosts[i], r.job.kind);
            assert(runs_kind(queue.lanes[i], r.job.kind));
            assert(runs_within(queue, n, queue.hosts[i], r.job.kind));
        }
    }
}

/// What can happen to a scheduler.
pub enum Event {
    /// A collection of `kind` is submitted for `host`.
    Submit { host: Seq<char>, kind: MetricKind },
    /// A job is started on `host` at time `now`, if one can be.
    Begin { host: Seq<char>, now: u64 },
    /// `job` ends on `host`.
    Settle { host: Seq<char>, job: Job, end: JobEndView },
    /// The jobs that are overdue at time `now` are ended as timed out.
    Expire { now: u64 },
}

impl TimerView {
    /// A scheduler that has seen nothing yet.
    pub open spec fn fresh(capacity: nat, timeout: u64) -> TimerView {
        TimerView {
            tasks: Seq::empty(),
            queue: QueueView {
                capacity,
                hosts: Seq::empty(),
                lanes: Seq::empty(),
                executing: Seq::empty(),
                issued: 0,
            },
            store: StatusMap::empty(),
            timeout,
        }
    }

    /// The scheduler after `event`. An end that cannot be the end of its
    /// job changes nothing, nor does a submission once the numbers of
    /// the jobs are used up.
    pub open spec fn after(self, event: Event) -> TimerView {
        match event {
            Event::Submit { host, kind } => if self.queue.issued < u64::MAX {
                self.submit(host, kind)
            } else {
                self
            },
            Event::Begin { host, now } => self.begin(host, now),
            Event::Settle { host, job, end } => if fits(job.kind, end) {
                self.settle(host, job, end)
            } else {
                self
            },
            Event::Expire { now } => self.expire(now, 0),
        }
    }

    /// The scheduler after `events`, one after the other.
    pub open spec fn after_all(self, events: Seq<Event>) -> TimerView
        decreases events.len(),
    {
        if events.len() == 0 {
            self
        } else {
            self.after_all(events.drop_last()).after(events.last())
        }
    }
}

/// A submission keeps what holds of the scheduler.
pub proof fn lemma_submit_wf(v: TimerView, host: Seq<char>, kind: MetricKind)
    requires
        v.wf(),
        v.queue.issued < u64::MAX,
    ensures
        v.submit(host, kind).wf(),
{
    let after = v.submit(host, kind);
    lemma_enqueue_wf(v.queue, host, kind);
    lemma_position(v.queue.hosts, host);
    if v.has_room(host) {
        let job = v.queue.next_job(kind);
        assert forall|h: Seq<char>, k: MetricKind| #[trigger] is_loading(after.store, h, k) implies
            has_job(after.queue, h, k) by {
            lemma_position(v.queue.hosts, h);
            lemma_position_push(v.queue.hosts, host, h);
            if h == host {
                if k == kind {
                    if !v.queue.has_lane(host) {
                        assert(after.queue.lane(h).pending[0] == job);
                    } else {
                        let n = v.queue.lane(h).pending.len() as int;
                        assert(after.queue.lane(h).pending[n] == job);
                    }
                } else {
                    assert(is_loading(v.store, h, k));
                    assert(has_job(v.queue, h, k));
                    if !(v.queue.lane(h).running matches Some(r) && r.job.kind == k) {
                        let j = choose|j: int|
                            0 <= j < v.queue.lane(h).pending.len()
                            && (#[trigger] v.queue.lane(h).pending[j]).kind == k;
                        assert(after.queue.lane(h).pending[j] == v.queue.lane(h).pending[j]);
                    }
                }
            } else {
                assert(is_loading(v.store, h, k));
                assert(has_job(v.queue, h, k));
                assert(after.queue.lane(h) == v.queue.lane(h));
            }
        }
        assert forall|i: int| 0 <= i < after.queue.lanes.len() implies ((
        #[trigger] after.queue.lanes[i]).running matches Some(r) ==> is_loading(
            after.store,
            after.queue.hosts[i],
            r.job.kind,
        )) by {
            if i < v.queue.lanes.len() {
                assert(after.queue.lanes[i].running == v.queue.lanes[i].running);
                assert(after.queue.hosts[i] == v.queue.hosts[i]);
            }
        }
    }
}

/// The start of a job keeps what holds of the scheduler.
pub proof fn lemma_begin_wf(v: TimerView, host: Seq<char>, now: u64)
    requires
        v.wf(),
    ensures
        v.begin(host, now).wf(),
{
    let after = v.begin(host, now);
    lemma_start_wf(v.queue, host, now);
    lemma_position(v.queue.hosts, host);
    if v.queue.can_start(host) {
        let kind = v.queue.lane(host).pending[0].kind;
        assert forall|h: Seq<char>, k: MetricKind| #[trigger] is_loading(after.store, h, k) implies
            has_job(after.queue, h, k) by {
            lemma_position(v.queue.hosts, h);
            if h == host {
                if k != kind {
                    assert(is_loading(v.store, h, k));
                    assert(has_job(v.queue, h, k));
                    let j = choose|j: int|
                        0 <= j < v.queue.lane(h).pending.len()
                        && (#[trigger] v.queue.lane(h).pending[j]).kind == k;
                    assert(j > 0);
                    assert(after.queue.lane(h).pending[j - 1] == v.queue.lane(h).pending[j]);
                }
            } else {
                assert(is_loading(v.store, h, k));
                assert(has_job(v.queue, h, k));
                assert(after.queue.lane(h) == v.queue.lane(h));
            }
        }
        assert forall|i: int| 0 <= i < after.queue.lanes.len() implies ((
        #[trigger] after.queue.lanes[i]).running matches Some(r) ==> is_loading(
            after.store,
            after.queue.hosts[i],
            r.job.kind,
        )) by {
            if i != v.queue.index(host) {
                assert(after.queue.lanes[i] == v.queue.lanes[i]);
            }
        }
    }
}

/// The end of a job keeps what holds of the scheduler, whatever the end was.
pub proof fn lemma_settle_wf(v: TimerView, host: Seq<char>, job: Job, end: JobEndView)
    requires
        v.wf(),
        fits(job.kind, end),
    ensures
        v.settle(host, job, end).wf(),
{
    let after = v.settle(host, job, end);
    lemma_finish_wf(v.queue, host, job.id);
    lemma_position(v.queue.hosts, host);
    if v.is_running(host, job) {
        assert forall|h: Seq<char>, k: MetricKind| #[trigger] is_loading(after.store, h, k) implies
            has_job(after.queue, h, k) by {
            lemma_position(v.queue.hosts, h);
            if h == host {
                assert(k != job.kind);
                assert(is_loading(v.store, h, k));
                assert(has_job(v.queue, h, k));
                let j = choose|j: int|
                    0 <= j < v.queue.lane(h).pending.len()
                    && (#[trigger] v.queue.lane(h).pending[j]).kind == k;
                assert(after.queue.lane(h).pending[j] == v.queue.lane(h).pending[j]);
            } else {
                assert(is_loading(v.store, h, k));
                assert(has_job(v.queue, h, k));
                assert(after.queue.lane(h) == v.queue.lane(h));
            }
        }
        assert forall|i: int| 0 <= i < after.queue.lanes.len() implies ((
        #[trigger] after.queue.lanes[i]).running matches Some(r) ==> is_loading(
            after.store,
            after.queue.hosts[i],
            r.job.kind,
        )) by {
            let at = v.queue.index(host);
            if i != at {
                assert(after.queue.lanes[i] == v.queue.lanes[i]);
                assert(v.queue.hosts[i] != v.queue.hosts[at]);
            }
        }
    }
}

/// A round keeps what holds of the scheduler, stands at a host of the
/// list or at its end, and leaves the hosts behind that stand untouched.
pub proof fn law_round_keeps_the_rules(v: TimerView, kind: MetricKind, hosts: Seq<Seq<char>>, from: int)
    requires
        v.wf(),
        0 <= from <= hosts.len(),
        v.queue.issued + (hosts.len() - from) <= u64::MAX,
    ensures
        v.run(kind, hosts, from).0.wf(),
        from <= v.run(kind, hosts, from).1 <= hosts.len(),
        v.run(kind, hosts, from).1 < hosts.len() ==> !v.run(kind, hosts, from).0.has_room(
            hosts[v.run(kind, hosts, from).1],
        ),
    decreases hosts.len() - from,
{
    if from < hosts.len() && v.has_room(hosts[from]) {
        lemma_submit_wf(v, hosts[from], kind);
        law_round_keeps_the_rules(v.submit(hosts[from], kind), kind, hosts, from + 1);
    }
}

/// Ending the overdue jobs keeps what holds of the scheduler and opens no queue.
pub proof fn lemma_expire_wf(v: TimerView, now: u64, i: int)
    requires
        v.wf(),
        0 <= i,
    ensures
        v.expire(now, i).wf(),
        v.expire(now, i).queue.hosts == v.queue.hosts,
        v.expire(now, i).timeout == v.timeout,
    decreases v.queue.hosts.len() - i,
{
    if i < v.queue.hosts.len() && v.queue.hosts.len() == v.queue.lanes.len() {
        if v.overdue(i, now) {
            let job = v.queue.lanes[i].running->0.job;
            let after = v.settle(v.queue.hosts[i], job, JobEndView::TimedOut);
            lemma_settle_wf(v, v.queue.hosts[i], job, JobEndView::TimedOut);
            lemma_expire_wf(after, now, i + 1);
        } else {
            lemma_expire_wf(v, now, i + 1);
        }
    }
}

/// The end of a job on one host changes nothing in the lane of another.
pub proof fn lemma_settle_frame(v: TimerView, host: Seq<char>, job: Job, end: JobEndView, j: int)
    requires
        v.wf(),
        0 <= j < v.queue.lanes.len(),
        v.queue.hosts[j] != host,
    ensures
        v.settle(host, job, end).queue.lanes[j] == v.queue.lanes[j],
        v.settle(host, job, end).queue.hosts == v.queue.hosts,
        v.settle(host, job, end).queue.lanes.len() == v.queue.lanes.len(),
{
    lemma_position(v.queue.hosts, host);
}

/// After the overdue jobs have been ended from lane `i` on, no job
/// runs in a lane where one was overdue, and every other lane is as it was.
pub proof fn lemma_expire_lanes(v: TimerView, now: u64, i: int, j: int)
    requires
        v.wf(),
        0 <= i,
        0 <= j < v.queue.lanes.len(),
    ensures
        v.expire(now, i).queue.lanes.len() == v.queue.lanes.len(),
        v.expire(now, i).queue.lanes[j] == if j >= i && v.overdue(j, now) {
            LaneView { running: None, ..v.queue.lanes[j] }
        } else {
            v.queue.lanes[j]
        },
        j >= i ==> !v.expire(now, i).overdue(j, now),
    decreases v.queue.hosts.len() - i,
{
    lemma_expire_wf(v, now, i);
    if i < v.queue.hosts.len() {
        lemma_position_unique(v.queue.hosts, i);
        if v.overdue(i, now) {
            let host = v.queue.hosts[i];
            let job = v.queue.lanes[i].running->0.job;
            let after = v.settle(host, job, JobEndView::TimedOut);
            lemma_settle_wf(v, host, job, JobEndView::TimedOut);
            lemma_position(v.queue.hosts, host);
            assert(v.is_running(host, job));
            assert(after.queue.lanes[i] == (LaneView { running: None, ..v.queue.lanes[i] }));
            assert(after.queue.hosts == v.queue.hosts);
            assert(after.timeout == v.timeout);
            if j != i {
                lemma_settle_frame(v, host, job, JobEndView::TimedOut, j);
                assert(after.overdue(j, now) == v.overdue(j, now));
            }
            lemma_expire_lanes(after, now, i + 1, j);
            lemma_expire_wf(after, now, i + 1);
            assert(v.expire(now, i) == after.expire(now, i + 1));
        } else {
            lemma_expire_lanes(v, now, i + 1, j);
            lemma_expire_wf(v, now, i + 1);
            assert(v.expire(now, i) == v.expire(now, i + 1));
        }
    }
}

/// Ending the overdue jobs changes the entries of the store only for
/// the jobs that were overdue, and those stand as timed out.
pub proof fn lemma_expire_store(v: TimerView, now: u64, i: int, host: Seq<char>, kind: MetricKind)
    requires
        v.wf(),
        0 <= i,
    ensures
        ({
            let at = v.queue.index(host);
            let after = v.expire(now, i);
            if at >= i && v.overdue(at, now) && v.queue.lanes[at].running->0.job.kind == kind {
                after.store.contains_key((host, kind)) && after.store[(host, kind)] == failure_of(
                    kind,
                    "Timed out"@,
                )
            } else {
                after.store.contains_key((host, kind)) == v.store.contains_key((host, kind))
                    && after.store[(host, kind)] == v.store[(host, kind)]
            }
        }),
    decreases v.queue.hosts.len() - i,
{
    lemma_position(v.queue.hosts, host);
    if i < v.queue.hosts.len() {
        lemma_position_unique(v.queue.hosts, i);
        let at = v.queue.index(host);
        if v.overdue(i, now) {
            let here = v.queue.hosts[i];
            let job = v.queue.lanes[i].running->0.job;
            let after = v.settle(here, job, JobEndView::TimedOut);
            lemma_settle_wf(v, here, job, JobEndView::TimedOut);
            lemma_position(v.queue.hosts, here);
            assert(v.is_running(here, job));
            assert(after.queue.hosts == v.queue.hosts);
            lemma_expire_store(after, now, i + 1, host, kind);
            if at > i && at < v.queue.lanes.len() {
                lemma_settle_frame(v, here, job, JobEndView::TimedOut, at);
            }
        } else {
            lemma_expire_store(v, now, i + 1, host, kind);
        }
    }
}

/// A metric that is being collected is never left alone: a job waits or
/// runs on its host that will end the collection.
pub proof fn law_loading_is_backed(v: TimerView, host: Seq<char>, kind: MetricKind)
    requires
        v.wf(),
        is_loading(v.store, host, kind),
    ensures
        has_job(v.queue, host, kind),
{
}

/// The state of a metric changes as it should: a state that an attempt
/// ended in is left only for the state of a new attempt. The end of a
/// job finds its metric being collected, so no end follows another
/// without a new attempt between them.
pub proof fn law_state_machine(
    v: TimerView,
    host: Seq<char>,
    kind: MetricKind,
    now: u64,
    job: Job,
    end: JobEndView,
    h: Seq<char>,
    k: MetricKind,
)
    requires
        v.wf(),
        fits(job.kind, end),
        v.store.contains_key((h, k)),
        v.store[(h, k)].is_terminal(),
    ensures
        v.submit(host, kind).store.contains_key((h, k)),
        v.begin(host, now).store.contains_key((h, k)),
        v.settle(host, job, end).store.contains_key((h, k)),
        v.submit(host, kind).store[(h, k)] == v.store[(h, k)] || v.submit(host, kind).store[(
            h,
            k,
        )].is_loading(),
        v.begin(host, now).store[(h, k)] == v.store[(h, k)] || v.begin(host, now).store[(
            h,
            k,
        )].is_loading(),
        v.settle(host, job, end).store[(h, k)] == v.store[(h, k)],
        v.is_running(host, job) ==> is_loading(v.store, host, job.kind),
{
    lemma_position(v.queue.hosts, host);
    if v.is_running(host, job) {
        assert(v.queue.lanes[v.queue.index(host)].running is Some);
    }
}

/// Whatever happens, and in whatever order, the scheduler keeps its
/// rules. So at every moment the hosts on which a job runs are all
/// different, there are no more of them than the configured number,
/// and every metric that is being collected has a job that waits or runs.
pub proof fn law_rules_hold_at_all_times(capacity: nat, timeout: u64, events: Seq<Event>)
    ensures
        TimerView::fresh(capacity, timeout).after_all(events).wf(),
        TimerView::fresh(capacity, timeout).after_all(events).queue.executing.no_duplicates(),
        TimerView::fresh(capacity, timeout).after_all(events).queue.executing.len() <= capacity,
        TimerView::fresh(capacity, timeout).after_all(events).queue.capacity == capacity,
    decreases events.len(),
{
    let start = TimerView::fresh(capacity, timeout);
    if events.len() > 0 {
        law_rules_hold_at_all_times(capacity, timeout, events.drop_last());
        let before = start.after_all(events.drop_last());
        match events.last() {
            Event::Submit { host, kind } => {
                if before.queue.issued < u64::MAX {
                    lemma_submit_wf(before, host, kind);
                    lemma_position(before.queue.hosts, host);
                }
            },
            Event::Begin { host, now } => {
                lemma_begin_wf(before, host, now);
            },
            Event::Settle { host, job, end } => {
                if fits(job.kind, end) {
                    lemma_settle_wf(before, host, job, end);
                }
            },
            Event::Expire { now } => {
                lemma_expire_wf(before, now, 0);
                lemma_expire_capacity(before, now, 0);
            },
        }
    }
}

/// Ending the overdue jobs leaves the configured number as it is.
pub proof fn lemma_expire_capacity(v: TimerView, now: u64, i: int)
    requires
        0 <= i,
    ensures
        v.expire(now, i).queue.capacity == v.queue.capacity,
    decreases v.queue.hosts.len() - i,
{
    if i < v.queue.hosts.len() && v.queue.hosts.len() == v.queue.lanes.len() {
        if v.overdue(i, now) {
            let after = v.settle(
                v.queue.hosts[i],
                v.queue.lanes[i].running->0.job,
                JobEndView::TimedOut,
            );
            if after.queue.hosts == v.queue.hosts {
                lemma_expire_capacity(after, now, i + 1);
            }
        } else {
            lemma_expire_capacity(v, now, i + 1);
        }
    }
}

/// No entry of the store is ever taken out: what was polled once has a
/// state from then on.
pub proof fn law_entries_are_kept(
    v: TimerView,
    host: Seq<char>,
    kind: MetricKind,
    now: u64,
    job: Job,
    end: JobEndView,
    h: Seq<char>,
    k: MetricKind,
)
    requires
        v.wf(),
        v.store.contains_key((h, k)),
    ensures
        v.submit(host, kind).store.contains_key((h, k)),
        v.begin(host, now).store.contains_key((h, k)),
        v.settle(host, job, end).store.contains_key((h, k)),
        v.expire(now, 0).store.contains_key((h, k)),
{
    lemma_expire_store(v, now, 0, h, k);
}

/// No job runs on a host twice at the same time: while a job runs on a
/// host, no other can be started there.
pub proof fn law_one_job_per_host(v: TimerView, host: Seq<char>, now: u64)
    requires
        v.wf(),
        v.queue.can_start(host),
    ensures
        !v.begin(host, now).queue.can_start(host),
        v.begin(host, now).queue.executing.no_duplicates(),
        v.begin(host, now).queue.executing.contains(host),
{
    lemma_begin_wf(v, host, now);
    lemma_position(v.queue.hosts, host);
    let after = v.begin(host, now);
    assert(after.queue.executing[v.queue.executing.len() as int] == host);
}

/// The jobs that run never exceed the configured number: a job is
/// started only while fewer run, and the start adds one.
pub proof fn law_global_cap(v: TimerView, host: Seq<char>, now: u64)
    requires
        v.wf(),
    ensures
        v.queue.executing.len() <= v.queue.capacity,
        v.begin(host, now).queue.executing.len() <= v.queue.capacity,
        v.queue.executing.len() >= v.queue.capacity ==> v.begin(host, now) == v,
{
    lemma_begin_wf(v, host, now);
}

/// The end of a job always leaves a state behind that an attempt ends
/// in, never one that is still being collected.
pub proof fn law_settle_is_terminal(v: TimerView, host: Seq<char>, job: Job, end: JobEndView)
    requires
        v.wf(),
        fits(job.kind, end),
        v.is_running(host, job),
    ensures
        v.settle(host, job, end).store.contains_key((host, job.kind)),
        v.settle(host, job, end).store[(host, job.kind)] == settled(job.kind, end),
        v.settle(host, job, end).store[(host, job.kind)].is_terminal(),
        !v.settle(host, job, end).is_running(host, job),
{
    lemma_position(v.queue.hosts, host);
}

/// A collection that was started comes to an end in time: once the
/// timeout has passed since the start of a job, ending the overdue jobs
/// leaves the job's metric as timed out, and the job runs no longer.
pub proof fn law_terminal_convergence(v: TimerView, host: Seq<char>, job: Job, now: u64)
    requires
        v.wf(),
        v.is_running(host, job),
        v.queue.lane(host).running->0.started + v.timeout <= now,
    ensures
        v.expire(now, 0).store.contains_key((host, job.kind)),
        v.expire(now, 0).store[(host, job.kind)] == failure_of(job.kind, "Timed out"@),
        v.expire(now, 0).store[(host, job.kind)].is_terminal(),
        !v.expire(now, 0).is_running(host, job),
        forall|j: int| 0 <= j < v.queue.lanes.len() ==> !v.expire(now, 0).overdue(j, now),
{
    lemma_position(v.queue.hosts, host);
    let at = v.queue.index(host);
    lemma_expire_store(v, now, 0, host, job.kind);
    lemma_expire_lanes(v, now, 0, at);
    lemma_expire_wf(v, now, 0);
    let after = v.expire(now, 0);
    assert(v.overdue(at, now));
    assert(after.queue.lanes[at].running is None);
    assert forall|j: int| 0 <= j < v.queue.lanes.len() implies !after.overdue(j, now) by {
        lemma_expire_lanes(v, now, 0, j);
    }
}

/// What happens on one host does not reach another: the end of a job
/// on `a`, be it success, failure or timeout, leaves the queue and the
/// states of `b` as they were, takes from `b` no chance to start, and
/// leaves the queues the same whichever way the job ended.
pub proof fn law_failure_isolation(
    v: TimerView,
    a: Seq<char>,
    job: Job,
    end: JobEndView,
    b: Seq<char>,
)
    requires
        v.wf(),
        fits(job.kind, end),
        a != b,
    ensures
        v.settle(a, job, end).queue.has_lane(b) == v.queue.has_lane(b),
        v.queue.has_lane(b) ==> v.settle(a, job, end).queue.lane(b) == v.queue.lane(b),
        forall|k: MetricKind|
            v.settle(a, job, end).store.contains_key((b, k)) == v.store.contains_key((b, k))
                && v.settle(a, job, end).store[(b, k)] == v.store[(b, k)],
        v.queue.can_start(b) ==> v.settle(a, job, end).queue.can_start(b),
        v.settle(a, job, end).queue == v.settle(a, job, JobEndView::TimedOut).queue,
{
    lemma_position(v.queue.hosts, a);
    lemma_position(v.queue.hosts, b);
    lemma_without_distinct(v.queue.executing, a);
}

/// The scheduler of the collections.
pub struct TaskTimer {
    tasks: Vec<Schedule>,
    queue: TaskQueue,
    store: StatusStore,
    timeout: u64,
}

impl View for TaskTimer {
    type V = TimerView;

    closed spec fn view(&self) -> TimerView {
        TimerView {
            tasks: self.tasks.deep_view(),
            queue: self.queue@,
            store: self.store@,
            timeout: self.timeout,
        }
    }
}

impl TaskTimer {
    /// What holds of the scheduler at all times.
    pub closed spec fn wf(&self) -> bool {
        self.queue.wf() && self.store.wf() && self@.wf()
    }

    /// A scheduler that keeps its rules shows it in its state.
    pub proof fn lemma_view_wf(&self)
        requires
            self.wf(),
        ensures
            self@.wf(),
    {
    }

    /// A scheduler over `queue`, without tasks. Its store marks the
    /// metric of every job that runs on the queue as being collected,
    /// and holds nothing else.
    pub fn new(queue: TaskQueue) -> (r: Self)
        requires
            queue.wf(),
        ensures
            r.wf(),
            r@ == (TimerView {
                tasks: Seq::empty(),
                queue: queue@,
                store: marked(queue@, queue@.lanes.len() as int),
                timeout: JOB_TIMEOUT_MS,
            }),
    {
        proof {
            queue.lemma_view_wf();
            lemma_marked_wf(Seq::empty(), queue@, JOB_TIMEOUT_MS);
        }
        let mut store = StatusStore::new();
        let n = queue.hosts().len();
        let mut i: usize = 0;
        while i < n
            invariant
                i <= n,
                queue.wf(),
                queue@.wf(),
                n == queue@.hosts.len(),
                store.wf(),
                store@ == marked(queue@, i as int),
            decreases n - i,
        {
            let names = queue.hosts();
            assert(names.deep_view()[i as int] == names@[i as int]@);
            proof {
                lemma_position_unique(queue@.hosts, i as int);
            }
            if let Some(running) = queue.running(names[i].as_str()) {
                store.set_loading(names[i].as_str(), running.job.kind);
            }
            i += 1;
        }
        let r = TaskTimer { tasks: Vec::new(), queue, store, timeout: JOB_TIMEOUT_MS };
        assert(r@.tasks == Seq::<ScheduleView>::empty());
        r
    }

    /// Sets the milliseconds after which a running job counts as timed out.
    pub fn set_timeout(&mut self, milliseconds: u64)
        requires
            old(self).wf(),
        ensures
            final(self).wf(),
            final(self)@ == (TimerView { timeout: milliseconds, ..old(self)@ }),
    {
        self.timeout = milliseconds;
    }

    /// Adds `task` to the tasks that are repeated.
    pub fn register<T: BackgroundTask>(&mut self, task: T)
        requires
            old(self).wf(),
        ensures
            final(self).wf(),
            final(self)@ == (TimerView {
                tasks: old(self)@.tasks.push(task.schedule()),
                ..old(self)@
            }),
    {
        let ghost before = self.tasks.deep_view();
        let schedule = Schedule {
            name: String::from_str(task.name()),
            kind: task.kind(),
            interval: task.interval(),
        };
        self.tasks.push(schedule);
        assert(self.tasks.deep_view() == before.push(task.schedule()));
    }

    /// The tasks to repeat, in the order in which they were registered.
    /// The caller runs a round of each at once and then again and again,
    /// each time the task's interval after the end of the round before.
    pub fn start(&self) -> (r: Vec<Schedule>)
        ensures
            r.deep_view() == self@.tasks,
    {
        let mut r: Vec<Schedule> = Vec::new();
        let mut i: usize = 0;
        while i < self.tasks.len()
            invariant
                i <= self.tasks.len(),
                r.deep_view() == self.tasks.deep_view().take(i as int),
            decreases self.tasks.len() - i,
        {
            let ghost before = r.deep_view();
            let task = &self.tasks[i];
            r.push(Schedule { name: task.name.clone(), kind: task.kind, interval: task.interval });
            assert(r.deep_view() == before.push(self.tasks@[i as int]@));
            i += 1;
        }
        assert(self.tasks.deep_view().take(i as int) == self.tasks.deep_view());
        r
    }

    /// The queues.
    pub fn queue(&self) -> (r: &TaskQueue)
        requires
            self.wf(),
        ensures
            r.wf(),
            r@ == self@.queue,
    {
        &self.queue
    }

    /// The store of states.
    pub fn store(&self) -> (r: &StatusStore)
        requires
            self.wf(),
        ensures
            r.wf(),
            r@ == self@.store,
    {
        &self.store
    }

    /// The milliseconds after which a running job counts as timed out.
    pub fn timeout(&self) -> (r: u64)
        ensures
            r == self@.timeout,
    {
        self.timeout
    }

    /// Whether a job can be submitted for `host_id`.
    pub fn has_room(&self, host_id: &str) -> (r: bool)
        requires
            self.wf(),
        ensures
            r == self@.has_room(host_id@),
    {
        self.queue.pending(host_id) < QUEUE_CAPACITY
    }

    /// Runs a round of `kind`: submits one job for each of `hosts` from
    /// number `from` on, in order, and marks its metric as being
    /// collected. The round stops before the first host whose queue is
    /// full; the result is the number of that host, or the number of
    /// hosts if the round is over. The caller waits and goes on from there.
    pub fn run(&mut self, kind: MetricKind, hosts: &Vec<SshHostInfo>, from: usize) -> (r: usize)
        requires
            old(self).wf(),
            from <= hosts.len(),
            old(self)@.queue.issued + (hosts.len() - from) <= u64::MAX,
        ensures
            final(self).wf(),
            (final(self)@, r as int) == old(self)@.run(kind, host_ids(hosts.deep_view()), from as int),
            from <= r <= hosts.len(),
    {
        let ghost ids = host_ids(hosts.deep_view());
        let mut i: usize = from;
        while i < hosts.len()
            invariant
                from <= i <= hosts.len(),
                self.wf(),
                ids == host_ids(hosts.deep_view()),
                self@.run(kind, ids, i as int) == old(self)@.run(kind, ids, from as int),
                self@.queue.issued + (hosts.len() - i) <= u64::MAX,
            decreases hosts.len() - i,
        {
            assert(ids[i as int] == hosts@[i as int].id@);
            let id = hosts[i].id.as_str();
            if !self.has_room(id) {
                return i;
            }
            proof {
                lemma_submit_wf(self@, id@, kind);
            }
            self.store.set_loading(id, kind);
            self.queue.enqueue(id, kind);
            i += 1;
        }
        i
    }

    /// Starts the job in front of the queue of `host_id` at time `now`,
    /// in milliseconds, if a job can be started there, marks its metric
    /// as being collected, and gives the job.
    pub fn begin(&mut self, host_id: &str, now: u64) -> (r: Option<Job>)
        requires
            old(self).wf(),
        ensures
            final(self).wf(),
            final(self)@ == old(self)@.begin(host_id@, now),
            r == if old(self)@.queue.can_start(host_id@) {
                Some(old(self)@.queue.lane(host_id@).pending[0])
            } else {
                None
            },
    {
        proof {
            lemma_begin_wf(self@, host_id@, now);
        }
        match self.queue.next(host_id, now) {
            Some(job) => {
                self.store.set_loading(host_id, job.kind);
                Some(job)
            },
            None => None,
        }
    }

    /// Records the end of `job` on `host_id`, if it is the job that runs
    /// there, and tells whether it was. What arrives for a job that runs
    /// no longer, because it was ended as timed out, changes nothing.
    pub fn settle(&mut self, host_id: &str, job: Job, end: JobEnd) -> (r: bool)
        requires
            old(self).wf(),
            fits(job.kind, end@),
        ensures
            final(self).wf(),
            final(self)@ == old(self)@.settle(host_id@, job, end@),
            r == old(self)@.is_running(host_id@, job),
    {
        proof {
            lemma_settle_wf(self@, host_id@, job, end@);
            lemma_position(self@.queue.hosts, host_id@);
        }
        match self.queue.running(host_id) {
            Some(running) => {
                if running.job.id != job.id || running.job.kind != job.kind {
                    return false;
                }
            },
            None => {
                return false;
            },
        }
        let metric = match end {
            JobEnd::Finished(metric) => metric,
            JobEnd::Panicked(message) => Metric::failure(
                job.kind,
                join("Thread error: ", message.as_str()),
            ),
            JobEnd::TimedOut => Metric::failure(job.kind, String::from_str("Timed out")),
        };
        self.store.set(host_id, metric);
        self.queue.finish(host_id, job.id);
        true
    }

    /// The time at which the job that runs on `host_id` is overdue, in
    /// milliseconds, if a job runs there; `u64::MAX` where that time is
    /// beyond the clock's range.
    pub fn deadline(&self, host_id: &str) -> (r: Option<u64>)
        requires
            self.wf(),
        ensures
            r == if self@.queue.has_lane(host_id@) {
                match self@.queue.lane(host_id@).running {
                    Some(running) => Some(
                        if running.started + self@.timeout <= u64::MAX {
                            (running.started + self@.timeout) as u64
                        } else {
                            u64::MAX
                        },
                    ),
                    None => None,
                }
            } else {
                None
            },
    {
        match self.queue.running(host_id) {
            Some(running) => Some(
                if running.started <= u64::MAX - self.timeout {
                    running.started + self.timeout
                } else {
                    u64::MAX
                },
            ),
            None => None,
        }
    }

    /// Ends every job that is overdue at time `now` as timed out.
    pub fn expire(&mut self, now: u64)
        requires
            old(self).wf(),
        ensures
            final(self).wf(),
            final(self)@ == old(self)@.expire(now, 0),
    {
        let n = self.queue.hosts().len();
        let mut i: usize = 0;
        while i < n
            invariant
                i <= n,
                self.wf(),
                n == self@.queue.hosts.len(),
                self@.expire(now, i as int) == old(self)@.expire(now, 0),
            decreases n - i,
        {
            let ghost before = self@;
            let names = self.queue.hosts();
            assert(names.deep_view()[i as int] == names@[i as int]@);
            let host = names[i].clone();
            proof {
                lemma_position_unique(before.queue.hosts, i as int);
            }
            if let Some(running) = self.queue.running(host.as_str()) {
                if running.started <= now && now - running.started >= self.timeout {
                    assert(before.overdue(i as int, now));
                    assert(before.is_running(host@, running.job));
                    self.settle(host.as_str(), running.job, JobEnd::TimedOut);
                    proof {
                        lemma_position(before.queue.hosts, host@);
                    }
                } else {
                    assert(!before.overdue(i as int, now));
                }
            } else {
                assert(!before.overdue(i as int, now));
            }
            i += 1;
        }
    }
}

} // verus!
