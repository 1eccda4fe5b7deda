//! Disk usage of the root file system.

use crate::probe::{
    join, transcript, MetricState, Reply, ReplyView, Request, RequestView, Step, StepView,
};
use crate::text::{split_whitespace, words};
use vstd::prelude::*;
use vstd::string::*;

verus! {

/// Disk usage of a host, as `df` words it.
#[derive(Debug, Clone, PartialEq, Eq)]
pub enum DiskInfo {
    Loading,
    Success { total: String, used: String, avail: String, usage_percent: String },
    Failure(String),
}

/// The four columns of `df`, kept as the host printed them.
pub struct DiskUsage {
    pub total: Seq<char>,
    pub used: Seq<char>,
    pub avail: Seq<char>,
    pub usage_percent: Seq<char>,
}

impl View for DiskInfo {
    type V = MetricState<DiskUsage>;

    open spec fn view(&self) -> MetricState<DiskUsage> {
        match self {
            DiskInfo::Loading => MetricState::Loading,
            DiskInfo::Success { total, used, avail, usage_percent } => MetricState::Success(
                DiskUsage {
                    total: total@,
                    used: used@,
                    avail: avail@,
                    usage_percent: usage_percent@,
                },
            ),
            DiskInfo::Failure(reason) => MetricState::Failure(reason@),
        }
    }
}

impl DiskInfo {
    pub fn success(total: String, used: String, avail: String, usage_percent: String) -> (r: Self)
        ensures
            r@ == MetricState::Success(
                DiskUsage {
                    total: total@,
                    used: used@,
                    avail: avail@,
                    usage_percent: usage_percent@,
                },
            ),
    {
        DiskInfo::Success { total, used, avail, usage_percent }
    }

    pub fn failure(msg: String) -> (r: Self)
        ensures
            r@ == MetricState::<DiskUsage>::Failure(msg@),
    {
        DiskInfo::Failure(msg)
    }
}

/// The command whose output `disk_report` reads.
pub open spec fn disk_command_text() -> Seq<char> {
    "df -h / | awk 'NR==2 {print $2, $3, $4, $5}'"@
}

/// What the output of the disk command says: its first four words are
/// total, used, available and usage; fewer words are a failure.
pub open spec fn disk_report(output: Seq<char>) -> MetricState<DiskUsage> {
    let parts = words(output);
    if parts.len() < 4 {
        MetricState::Failure("Unexpected df output: "@ + output)
    } else {
        MetricState::Success(
            DiskUsage { total: parts[0], used: parts[1], avail: parts[2], usage_percent: parts[3] },
        )
    }
}

/// The disk collection after `replies`: connect, run the disk command,
/// read its output. A failed request ends the collection with its reason.
pub open spec fn disk_probe(replies: Seq<ReplyView>) -> StepView<MetricState<DiskUsage>> {
    if replies.len() == 0 {
        StepView::Need(RequestView::Connect)
    } else if replies[0] is Err {
        StepView::Done(MetricState::Failure(replies[0]->Err_0))
    } else if replies.len() == 1 {
        StepView::Need(RequestView::Run(disk_command_text()))
    } else {
        match replies[1] {
            Ok(output) => StepView::Done(disk_report(output)),
            Err(reason) => StepView::Done(MetricState::Failure(reason)),
        }
    }
}

pub fn disk_command() -> (r: String)
    ensures
        r@ == disk_command_text(),
{
    String::from_str("df -h / | awk 'NR==2 {print $2, $3, $4, $5}'")
}

/// Reads the output of the disk command.
pub fn parse_disk_output(output: &str) -> (r: DiskInfo)
    ensures
        r@ == disk_report(output@),
{
    let parts = split_whitespace(output);
    if parts.len() < 4 {
        return DiskInfo::failure(join("Unexpected df output: ", output));
    }
    assert(parts.deep_view()[0] == parts@[0]@ && parts.deep_view()[1] == parts@[1]@
        && parts.deep_view()[2] == parts@[2]@ && parts.deep_view()[3] == parts@[3]@);
    DiskInfo::success(parts[0].clone(), parts[1].clone(), parts[2].clone(), parts[3].clone())
}

/// Where the collection of disk usage stands after `replies`.
pub fn fetch_disk_info(replies: &Vec<Reply>) -> (r: Step<DiskInfo>)
    ensures
        r@ == disk_probe(transcript(replies@)),
{
    if replies.len() == 0 {
        return Step::Need(Request::Connect);
    }
    if let Err(reason) = &replies[0] {
        return Step::Done(DiskInfo::failure(reason.clone()));
    }
    if replies.len() == 1 {
        return Step::Need(Request::Run(disk_command()));
    }
    match &replies[1] {
        Ok(output) => Step::Done(parse_disk_output(output.as_str())),
        Err(reason) => Step::Done(DiskInfo::failure(reason.clone())),
    }
}

} // verus!
