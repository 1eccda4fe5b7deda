//! The latest known state of every metric of every host.

use crate::cpu::{CpuInfo, CpuUsage};
use crate::disk::{DiskInfo, DiskUsage};
use crate::gpu::{GpuInfo, GpuMetrics};
use crate::memory::{MemoryInfo, MemoryUsage};
use crate::names::{find, lemma_position, lemma_position_push, position};
use crate::os::{OsIdentity, OsInfo};
use crate::probe::MetricState;
use crate::ssh_status::SshStatus;
use vstd::prelude::*;
use vstd::string::*;

verus! {

/// The metrics that are collected of a host.
#[derive(Debug, Clone, Copy, PartialEq, Eq, Hash, Structural)]
pub enum MetricKind {
    Connectivity,
    Cpu,
    Disk,
    Memory,
    Os,
    Gpu,
}

/// The state of one metric of a host, whatever its kind.
#[derive(Debug, Clone, PartialEq, Eq)]
pub enum Metric {
    Connectivity(SshStatus),
    Cpu(CpuInfo),
    Disk(DiskInfo),
    Memory(MemoryInfo),
    Os(OsInfo),
    Gpu(GpuInfo),
}

/// A `Metric` by the view of its state.
pub enum MetricView {
    Connectivity(MetricState<()>),
    Cpu(MetricState<CpuUsage>),
    Disk(MetricState<DiskUsage>),
    Memory(MetricState<MemoryUsage>),
    Os(MetricState<OsIdentity>),
    Gpu(MetricState<GpuMetrics>),
}

impl MetricView {
    pub open spec fn kind(self) -> MetricKind {
        match self {
            MetricView::Connectivity(_) => MetricKind::Connectivity,
            MetricView::Cpu(_) => MetricKind::Cpu,
            MetricView::Disk(_) => MetricKind::Disk,
            MetricView::Memory(_) => MetricKind::Memory,
            MetricView::Os(_) => MetricKind::Os,
            MetricView::Gpu(_) => MetricKind::Gpu,
        }
    }

    /// Whether an attempt is under way.
    pub open spec fn is_loading(self) -> bool {
        match self {
            MetricView::Connectivity(s) => s is Loading,
            MetricView::Cpu(s) => s is Loading,
            MetricView::Disk(s) => s is Loading,
            MetricView::Memory(s) => s is Loading,
            MetricView::Os(s) => s is Loading,
            MetricView::Gpu(s) => s is Loading,
        }
    }

    /// Whether the state is one that an attempt ends in: success or failure.
    pub open spec fn is_terminal(self) -> bool {
        !self.is_loading()
    }
}

/// The state of a metric of the given kind while an attempt is under way.
pub open spec fn loading_of(kind: MetricKind) -> MetricView {
    match kind {
        MetricKind::Connectivity => MetricView::Connectivity(MetricState::Loading),
        MetricKind::Cpu => MetricView::Cpu(MetricState::Loading),
        MetricKind::Disk => MetricView::Disk(MetricState::Loading),
        MetricKind::Memory => MetricView::Memory(MetricState::Loading),
        MetricKind::Os => MetricView::Os(MetricState::Loading),
        MetricKind::Gpu => MetricView::Gpu(MetricState::Loading),
    }
}

/// The state of a metric of the given kind after an attempt that failed for `reason`.
pub open spec fn failure_of(kind: MetricKind, reason: Seq<char>) -> MetricView {
    match kind {
        MetricKind::Connectivity => MetricView::Connectivity(MetricState::Failure(reason)),
        MetricKind::Cpu => MetricView::Cpu(MetricState::Failure(reason)),
        MetricKind::Disk => MetricView::Disk(MetricState::Failure(reason)),
        MetricKind::Memory => MetricView::Memory(MetricState::Failure(reason)),
        MetricKind::Os => MetricView::Os(MetricState::Failure(reason)),
        MetricKind::Gpu => MetricView::Gpu(MetricState::Failure(reason)),
    }
}

impl View for Metric {
    type V = MetricView;

    open spec fn view(&self) -> MetricView {
        match self {
            Metric::Connectivity(s) => MetricView::Connectivity(s@),
            Metric::Cpu(s) => MetricView::Cpu(s@),
            Metric::Disk(s) => MetricView::Disk(s@),
            Metric::Memory(s) => MetricView::Memory(s@),
            Metric::Os(s) => MetricView::Os(s@),
            Metric::Gpu(s) => MetricView::Gpu(s@),
        }
    }
}

impl Metric {
    /// The kind of metric that this is a state of.
    pub fn kind(&self) -> (r: MetricKind)
        ensures
            r == self@.kind(),
    {
        match self {
            Metric::Connectivity(_) => MetricKind::Connectivity,
            Metric::Cpu(_) => MetricKind::Cpu,
            Metric::Disk(_) => MetricKind::Disk,
            Metric::Memory(_) => MetricKind::Memory,
            Metric::Os(_) => MetricKind::Os,
            Metric::Gpu(_) => MetricKind::Gpu,
        }
    }

    /// Whether an attempt is under way.
    pub fn is_loading(&self) -> (r: bool)
        ensures
            r == self@.is_loading(),
    {
        match self {
            Metric::Connectivity(SshStatus::Loading) => true,
            Metric::Cpu(CpuInfo::Loading) => true,
            Metric::Disk(DiskInfo::Loading) => true,
            Metric::Memory(MemoryInfo::Loading) => true,
            Metric::Os(OsInfo::Loading) => true,
            Metric::Gpu(GpuInfo::Loading) => true,
            _ => false,
        }
    }

    /// The state of a metric of the given kind while an attempt is under way.
    pub fn loading(kind: MetricKind) -> (r: Metric)
        ensures
            r@ == loading_of(kind),
    {
        match kind {
            MetricKind::Connectivity => Metric::Connectivity(SshStatus::Loading),
            MetricKind::Cpu => Metric::Cpu(CpuInfo::Loading),
            MetricKind::Disk => Metric::Disk(DiskInfo::Loading),
            MetricKind::Memory => Metric::Memory(MemoryInfo::Loading),
            MetricKind::Os => Metric::Os(OsInfo::Loading),
            MetricKind::Gpu => Metric::Gpu(GpuInfo::Loading),
        }
    }

    /// The state of a metric of the given kind after a failed attempt.
    pub fn failure(kind: MetricKind, reason: String) -> (r: Metric)
        ensures
            r@ == failure_of(kind, reason@),
    {
        match kind {
            MetricKind::Connectivity => Metric::Connectivity(SshStatus::Failed(reason)),
            MetricKind::Cpu => Metric::Cpu(CpuInfo::Failure(reason)),
            MetricKind::Disk => Metric::Disk(DiskInfo::Failure(reason)),
            MetricKind::Memory => Metric::Memory(MemoryInfo::Failure(reason)),
            MetricKind::Os => Metric::Os(OsInfo::Failure(reason)),
            MetricKind::Gpu => Metric::Gpu(GpuInfo::Failure(reason)),
        }
    }
}

/// The states of the metrics of one host; `None` for a metric that was
/// never polled.
#[derive(Debug, Clone, PartialEq, Eq)]
pub struct HostStatus {
    pub ssh: Option<SshStatus>,
    pub cpu: Option<CpuInfo>,
    pub disk: Option<DiskInfo>,
    pub memory: Option<MemoryInfo>,
    pub os: Option<OsInfo>,
    pub gpu: Option<GpuInfo>,
}

impl HostStatus {
    /// The state of the metric of the given kind, if it was ever polled.
    pub open spec fn entry(self, kind: MetricKind) -> Option<MetricView> {
        match kind {
            MetricKind::Connectivity => match self.ssh {
                Some(s) => Some(MetricView::Connectivity(s@)),
                None => None,
            },
            MetricKind::Cpu => match self.cpu {
                Some(s) => Some(MetricView::Cpu(s@)),
                None => None,
            },
            MetricKind::Disk => match self.disk {
                Some(s) => Some(MetricView::Disk(s@)),
                None => None,
            },
            MetricKind::Memory => match self.memory {
                Some(s) => Some(MetricView::Memory(s@)),
                None => None,
            },
            MetricKind::Os => match self.os {
                Some(s) => Some(MetricView::Os(s@)),
                None => None,
            },
            MetricKind::Gpu => match self.gpu {
                Some(s) => Some(MetricView::Gpu(s@)),
                None => None,
            },
        }
    }

    /// A host of which nothing was polled yet.
    pub fn new() -> (r: Self)
        ensures
            forall|kind: MetricKind| r.entry(kind) is None,
    {
        HostStatus { ssh: None, cpu: None, disk: None, memory: None, os: None, gpu: None }
    }

    /// Puts `metric` in the place of the state of its kind.
    pub fn put(&mut self, metric: Metric)
        ensures
            forall|kind: MetricKind|
                final(self).entry(kind) == if kind == metric@.kind() {
                    Some(metric@)
                } else {
                    old(self).entry(kind)
                },
    {
        match metric {
            Metric::Connectivity(s) => {
                self.ssh = Some(s);
            },
            Metric::Cpu(s) => {
                self.cpu = Some(s);
            },
            Metric::Disk(s) => {
                self.disk = Some(s);
            },
            Metric::Memory(s) => {
                self.memory = Some(s);
            },
            Metric::Os(s) => {
                self.os = Some(s);
            },
            Metric::Gpu(s) => {
                self.gpu = Some(s);
            },
        }
    }
}

/// A state of a metric, by host and kind.
pub type StatusMap = Map<(Seq<char>, MetricKind), MetricView>;

/// The latest known state of every metric of every host.
///
/// A host and kind without an entry was never polled. An entry is put in
/// place when the first attempt starts and is overwritten from then on;
/// none is ever taken out.
pub struct StatusStore {
    hosts: Vec<String>,
    entries: Vec<HostStatus>,
}

impl StatusStore {
    /// The state of the metric of `host` of the given kind, if there is one.
    pub closed spec fn state(&self, host: Seq<char>, kind: MetricKind) -> Option<MetricView> {
        let i = position(self.hosts.deep_view(), host);
        if i < self.entries.len() {
            self.entries@[i].entry(kind)
        } else {
            None
        }
    }

    /// Every host stands once in the store, with its states.
    pub closed spec fn wf(&self) -> bool {
        &&& self.hosts.len() == self.entries.len()
        &&& self.hosts.deep_view().no_duplicates()
    }

    /// A store without entries.
    pub fn new() -> (r: Self)
        ensures
            r.wf(),
            r@ == StatusMap::empty(),
    {
        let r = StatusStore { hosts: Vec::new(), entries: Vec::new() };
        assert(r@ =~= StatusMap::empty());
        r
    }

    /// Puts `metric` in the place of the state of its kind of `host_id`.
    pub fn set(&mut self, host_id: &str, metric: Metric)
        requires
            old(self).wf(),
        ensures
            final(self).wf(),
            final(self)@ == old(self)@.insert((host_id@, metric@.kind()), metric@),
    {
        let at = find(&self.hosts, host_id);
        let ghost names = self.hosts.deep_view();
        let ghost kind = metric@.kind();
        let ghost value = metric@;
        proof {
            lemma_position(names, host_id@);
        }
        if at == self.hosts.len() {
            let mut status = HostStatus::new();
            status.put(metric);
            self.hosts.push(String::from_str(host_id));
            self.entries.push(status);
            assert(self.hosts.deep_view() == names.push(host_id@));
            proof {
                assert forall|h: Seq<char>, k: MetricKind|
                    self.state(h, k) == if h == host_id@ && k == kind {
                        Some(value)
                    } else {
                        old(self).state(h, k)
                    } by {
                    lemma_position(names, h);
                    lemma_position_push(names, host_id@, h);
                }
            }
        } else {
            let mut status = self.entries.remove(at);
            status.put(metric);
            let ghost put = status;
            self.entries.insert(at, status);
            assert(self.entries@ == old(self).entries@.update(at as int, put));
            proof {
                assert forall|h: Seq<char>, k: MetricKind|
                    self.state(h, k) == if h == host_id@ && k == kind {
                        Some(value)
                    } else {
                        old(self).state(h, k)
                    } by {
                    lemma_position(names, h);
                }
            }
        }
        assert(self@ =~= old(self)@.insert((host_id@, kind), value));
    }

    /// Marks the metric of the given kind of `host_id` as being collected.
    pub fn set_loading(&mut self, host_id: &str, kind: MetricKind)
        requires
            old(self).wf(),
        ensures
            final(self).wf(),
            final(self)@ == old(self)@.insert((host_id@, kind), loading_of(kind)),
    {
        self.set(host_id, Metric::loading(kind));
    }

    /// The states of the metrics of `host_id`, if any of them was ever polled.
    pub fn host(&self, host_id: &str) -> (r: Option<&HostStatus>)
        requires
            self.wf(),
        ensures
            match r {
                Some(status) => forall|kind: MetricKind|
                    status.entry(kind) == if self@.contains_key((host_id@, kind)) {
                        Some(self@[(host_id@, kind)])
                    } else {
                        None
                    },
                None => forall|kind: MetricKind| !self@.contains_key((host_id@, kind)),
            },
    {
        let at = find(&self.hosts, host_id);
        if at < self.hosts.len() {
            Some(&self.entries[at])
        } else {
            None
        }
    }

    /// Whether the metric of the given kind of `host_id` is being collected.
    pub fn is_loading(&self, host_id: &str, kind: MetricKind) -> (r: bool)
        requires
            self.wf(),
        ensures
            r == (self@.contains_key((host_id@, kind)) && self@[(host_id@, kind)].is_loading()),
    {
        match self.host(host_id) {
            None => false,
            Some(status) => {
                assert(status.entry(kind) is Some <==> self@.contains_key((host_id@, kind)));
                match kind {
                    MetricKind::Connectivity => matches!(status.ssh, Some(SshStatus::Loading)),
                    MetricKind::Cpu => matches!(status.cpu, Some(CpuInfo::Loading)),
                    MetricKind::Disk => matches!(status.disk, Some(DiskInfo::Loading)),
                    MetricKind::Memory => matches!(status.memory, Some(MemoryInfo::Loading)),
                    MetricKind::Os => matches!(status.os, Some(OsInfo::Loading)),
                    MetricKind::Gpu => matches!(status.gpu, Some(GpuInfo::Loading)),
                }
            },
        }
    }
}

impl View for StatusStore {
    type V = StatusMap;

    /// The entries of the store: the states by host and kind.
    closed spec fn view(&self) -> StatusMap {
        Map::new(
            |key: (Seq<char>, MetricKind)| self.state(key.0, key.1) is Some,
            |key: (Seq<char>, MetricKind)| self.state(key.0, key.1)->0,
        )
    }
}

/// Every entry of a store is a state of the kind that it stands under.
pub proof fn law_entries_by_kind(store: StatusStore, host: Seq<char>, kind: MetricKind)
    requires
        store@.contains_key((host, kind)),
    ensures
        store@[(host, kind)].kind() == kind,
{
}

} // verus!
