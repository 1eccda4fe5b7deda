//! The collectors by the kind of metric that each of them collects.

use crate::cpu::{cpu_probe, fetch_cpu_info};
use crate::disk::{disk_probe, fetch_disk_info};
use crate::gpu::{fetch_gpu_info, gpu_probe};
use crate::memory::{fetch_memory_info, memory_probe};
use crate::os::{fetch_os_info, os_probe};
use crate::probe::{transcript, Reply, ReplyView, Step, StepView};
use crate::ssh_status::{connection_probe, verify_connection};
use crate::store::{failure_of, Metric, MetricKind, MetricView};
use vstd::prelude::*;

verus! {

/// The collection of the metric of the given kind after `replies`.
pub open spec fn probe(kind: MetricKind, replies: Seq<ReplyView>) -> StepView<MetricView> {
    match kind {
        MetricKind::Connectivity => match connection_probe(replies) {
            StepView::Need(request) => StepView::Need(request),
            StepView::Done(state) => StepView::Done(MetricView::Connectivity(state)),
        },
        MetricKind::Cpu => match cpu_probe(replies) {
            StepView::Need(request) => StepView::Need(request),
            StepView::Done(state) => StepView::Done(MetricView::Cpu(state)),
        },
        MetricKind::Disk => match disk_probe(replies) {
            StepView::Need(request) => StepView::Need(request),
            StepView::Done(state) => StepView::Done(MetricView::Disk(state)),
        },
        MetricKind::Memory => match memory_probe(replies) {
            StepView::Need(request) => StepView::Need(request),
            StepView::Done(state) => StepView::Done(MetricView::Memory(state)),
        },
        MetricKind::Os => match os_probe(replies) {
            StepView::Need(request) => StepView::Need(request),
            StepView::Done(state) => StepView::Done(MetricView::Os(state)),
        },
        MetricKind::Gpu => match gpu_probe(replies) {
            StepView::Need(request) => StepView::Need(request),
            StepView::Done(state) => StepView::Done(MetricView::Gpu(state)),
        },
    }
}

/// Every collector ends in success or failure, in a state of its own
/// metric: none ends in a state that is still being collected.
pub proof fn law_collectors_end_terminal(kind: MetricKind, replies: Seq<ReplyView>)
    ensures
        probe(kind, replies) matches StepView::Done(state) ==> state.kind() == kind
            && state.is_terminal(),
{
}

/// A collection whose session could not be opened fails with the reason
/// of that failure, whatever its kind and whatever replies follow.
pub proof fn law_no_session_no_metric(
    kind: MetricKind,
    replies: Seq<ReplyView>,
    reason: Seq<char>,
)
    requires
        replies.len() > 0,
        replies[0] == Err::<Seq<char>, Seq<char>>(reason),
    ensures
        probe(kind, replies) == StepView::Done(failure_of(kind, reason)),
{
}

/// Where the collection of the metric of the given kind stands after `replies`.
pub fn fetch(kind: MetricKind, replies: &Vec<Reply>) -> (r: Step<Metric>)
    ensures
        r@ == probe(kind, transcript(replies@)),
        r matches Step::Done(metric) ==> metric@.kind() == kind && metric@.is_terminal(),
{
    proof {
        law_collectors_end_terminal(kind, transcript(replies@));
    }
    match kind {
        MetricKind::Connectivity => match verify_connection(replies) {
            Step::Need(request) => Step::Need(request),
            Step::Done(state) => Step::Done(Metric::Connectivity(state)),
        },
        MetricKind::Cpu => match fetch_cpu_info(replies) {
            Step::Need(request) => Step::Need(request),
            Step::Done(state) => Step::Done(Metric::Cpu(state)),
        },
        MetricKind::Disk => match fetch_disk_info(replies) {
            Step::Need(request) => Step::Need(request),
            Step::Done(state) => Step::Done(Metric::Disk(state)),
        },
        MetricKind::Memory => match fetch_memory_info(replies) {
            Step::Need(request) => Step::Need(request),
            Step::Done(state) => Step::Done(Metric::Memory(state)),
        },
        MetricKind::Os => match fetch_os_info(replies) {
            Step::Need(request) => Step::Need(request),
            Step::Done(state) => Step::Done(Metric::Os(state)),
        },
        MetricKind::Gpu => match fetch_gpu_info(replies) {
            Step::Need(request) => Step::Need(request),
            Step::Done(state) => Step::Done(Metric::Gpu(state)),
        },
    }
}

} // verus!
