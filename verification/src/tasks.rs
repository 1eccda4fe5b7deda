//! Collectors that run one command and read what it printed.

use crate::cpu::{cpu_report, CpuInfo, CpuUsage};
use crate::number::{
    check_float, check_float_literal, float_error_text, number_error_text, parse_decimal,
    parse_u64, parse_usize,
};
use crate::probe::{
    join, transcript, MetricState, Reply, ReplyView, Request, RequestView, Step, StepView,
};
use crate::text::{lines, split_lines, trim, trimmed};
use vstd::prelude::*;
use vstd::string::*;

verus! {

/// A unit of work over a remote shell: the command to run on the host and
/// the way to read what it printed.
pub trait SshTask {
    /// What the task reads from the command's output.
    type Output: View;

    /// The command, as `command` gives it.
    spec fn command_text(&self) -> Seq<char>;

    /// What `parse` makes of a given output.
    spec fn parsed(&self, raw: Seq<char>) -> Result<<Self::Output as View>::V, Seq<char>>;

    /// Name of the task, for logs.
    fn name(&self) -> &'static str;

    /// Seconds from one run of the task to the next.
    fn interval(&self) -> u64;

    /// The command line to run on the host.
    fn command(&self) -> (r: String)
        ensures
            r@ == self.command_text(),
    ;

    /// Reads the output of the command.
    fn parse(&self, raw: &str) -> (r: Result<Self::Output, String>)
        ensures
            match r {
                Ok(value) => self.parsed(raw@) == Ok::<<Self::Output as View>::V, Seq<char>>(
                    value@,
                ),
                Err(reason) => self.parsed(raw@) == Err::<<Self::Output as View>::V, Seq<char>>(
                    reason@,
                ),
            },
    ;
}

/// Number of cores and load; the load as the host printed it.
#[derive(Debug, Clone, PartialEq, Eq)]
pub struct CpuMetrics {
    pub core_count: usize,
    pub usage_percent: String,
}

impl View for CpuMetrics {
    type V = CpuUsage;

    open spec fn view(&self) -> CpuUsage {
        CpuUsage { core_count: self.core_count, usage_percent: self.usage_percent@ }
    }
}

/// Total and used space.
#[derive(Debug, Clone, Copy, PartialEq, Eq, Structural)]
pub struct DiskMetrics {
    pub total: u64,
    pub used: u64,
}

impl View for DiskMetrics {
    type V = DiskMetrics;

    open spec fn view(&self) -> DiskMetrics {
        *self
    }
}

/// Total and used memory.
#[derive(Debug, Clone, Copy, PartialEq, Eq, Structural)]
pub struct MemMetrics {
    pub total: u64,
    pub used: u64,
}

impl View for MemMetrics {
    type V = MemMetrics;

    open spec fn view(&self) -> MemMetrics {
        *self
    }
}

/// Line number `i` of `raw`, trimmed, if there is such a line.
pub open spec fn field(raw: Seq<char>, i: int) -> Option<Seq<char>> {
    if 0 <= i < lines(raw).len() {
        Some(trimmed(lines(raw)[i]))
    } else {
        None
    }
}

/// What two lines of numbers say: each stands on a line of its own, the
/// first called `first` and the second `second` where one is reported
/// missing or unreadable.
pub open spec fn two_numbers(raw: Seq<char>, first: Seq<char>, second: Seq<char>) -> Result<
    (u64, u64),
    Seq<char>,
> {
    match field(raw, 0) {
        None => Err("missing "@ + first),
        Some(a) => match parse_decimal(a, u64::MAX as nat) {
            Err(e) => Err("parse "@ + first + ": "@ + number_error_text(e)),
            Ok(total) => match field(raw, 1) {
                None => Err("missing "@ + second),
                Some(b) => match parse_decimal(b, u64::MAX as nat) {
                    Err(e) => Err("parse "@ + second + ": "@ + number_error_text(e)),
                    Ok(used) => Ok((total as u64, used as u64)),
                },
            },
        },
    }
}

/// What the output of the processor command says: the number of cores on
/// the first line, the load on the second.
pub open spec fn cpu_metrics(raw: Seq<char>) -> Result<CpuUsage, Seq<char>> {
    match field(raw, 0) {
        None => Err("missing core count"@),
        Some(a) => match parse_decimal(a, usize::MAX as nat) {
            Err(e) => Err("parse core count: "@ + number_error_text(e)),
            Ok(cores) => match field(raw, 1) {
                None => Err("missing usage percent"@),
                Some(b) => match check_float(b) {
                    Err(e) => Err("parse usage percent: "@ + float_error_text(e)),
                    Ok(_) => Ok(CpuUsage { core_count: cores as usize, usage_percent: b }),
                },
            },
        },
    }
}

/// The processor collector and the processor task read an output alike:
/// one ends in success exactly where the other gives a value, and with
/// the same value.
pub proof fn law_cpu_readings_agree(raw: Seq<char>, usage: CpuUsage)
    ensures
        cpu_report(raw) == MetricState::Success(usage) <==> cpu_metrics(raw) == Ok::<
            CpuUsage,
            Seq<char>,
        >(usage),
{
}

/// Line number `i` of `all`, trimmed.
fn field_of(all: &Vec<String>, i: usize, Ghost(raw): Ghost<Seq<char>>) -> (r: Option<String>)
    requires
        all.deep_view() == lines(raw),
    ensures
        r.deep_view() == field(raw, i as int),
{
    if i < all.len() {
        assert(all.deep_view()[i as int] == all@[i as int]@);
        Some(trim(all[i].as_str()))
    } else {
        None
    }
}

/// `parse <what>: <why>`.
fn parse_complaint(what: &str, why: &str) -> (r: String)
    ensures
        r@ == "parse "@ + what@ + ": "@ + why@,
{
    let mut r = join("parse ", what);
    r.append(": ");
    r.append(why);
    r
}

/// Reads two numbers, each from a line of its own.
pub fn parse_two_numbers(raw: &str, first: &str, second: &str) -> (r: Result<(u64, u64), String>)
    ensures
        match r {
            Ok(pair) => two_numbers(raw@, first@, second@) == Ok::<(u64, u64), Seq<char>>(pair),
            Err(reason) => two_numbers(raw@, first@, second@) == Err::<(u64, u64), Seq<char>>(
                reason@,
            ),
        },
{
    let all = split_lines(raw);
    let a = match field_of(&all, 0, Ghost(raw@)) {
        Some(a) => a,
        None => {
            return Err(join("missing ", first));
        },
    };
    let total = match parse_u64(a.as_str()) {
        Ok(n) => n,
        Err(e) => {
            return Err(parse_complaint(first, e.message().as_str()));
        },
    };
    let b = match field_of(&all, 1, Ghost(raw@)) {
        Some(b) => b,
        None => {
            return Err(join("missing ", second));
        },
    };
    match parse_u64(b.as_str()) {
        Ok(used) => Ok((total, used)),
        Err(e) => Err(parse_complaint(second, e.message().as_str())),
    }
}

/// Collects number of cores and load with one command.
pub struct CpuTask;

impl SshTask for CpuTask {
    type Output = CpuMetrics;

    open spec fn command_text(&self) -> Seq<char> {
        "echo $(nproc); echo $(ps -A -o %cpu | awk '{s+=$1} END {print s}')"@
    }

    open spec fn parsed(&self, raw: Seq<char>) -> Result<CpuUsage, Seq<char>> {
        cpu_metrics(raw)
    }

    fn name(&self) -> (r: &'static str)
        ensures
            r@ == "cpu_metrics"@,
    {
        "cpu_metrics"
    }

    fn interval(&self) -> (r: u64)
        ensures
            r == 30,
    {
        30
    }

    fn command(&self) -> (r: String) {
        String::from_str("echo $(nproc); echo $(ps -A -o %cpu | awk '{s+=$1} END {print s}')")
    }

    fn parse(&self, raw: &str) -> (r: Result<CpuMetrics, String>) {
        let all = split_lines(raw);
        let a = match field_of(&all, 0, Ghost(raw@)) {
            Some(a) => a,
            None => {
                return Err(String::from_str("missing core count"));
            },
        };
        let core_count = match parse_usize(a.as_str()) {
            Ok(n) => n,
            Err(e) => {
                return Err(join("parse core count: ", e.message().as_str()));
            },
        };
        let b = match field_of(&all, 1, Ghost(raw@)) {
            Some(b) => b,
            None => {
                return Err(String::from_str("missing usage percent"));
            },
        };
        match check_float_literal(b.as_str()) {
            Ok(_) => Ok(CpuMetrics { core_count, usage_percent: b }),
            Err(e) => Err(join("parse usage percent: ", e.message().as_str())),
        }
    }
}

/// Collects total and used disk space with one command.
pub struct DiskTask;

impl SshTask for DiskTask {
    type Output = DiskMetrics;

    open spec fn command_text(&self) -> Seq<char> {
        "echo 1000000; echo 500000"@
    }

    open spec fn parsed(&self, raw: Seq<char>) -> Result<DiskMetrics, Seq<char>> {
        match two_numbers(raw, "total"@, "used"@) {
            Ok((total, used)) => Ok(DiskMetrics { total, used }),
            Err(reason) => Err(reason),
        }
    }

    fn name(&self) -> (r: &'static str)
        ensures
            r@ == "disk_metrics"@,
    {
        "disk_metrics"
    }

    fn interval(&self) -> (r: u64)
        ensures
            r == 60,
    {
        60
    }

    fn command(&self) -> (r: String) {
        String::from_str("echo 1000000; echo 500000")
    }

    fn parse(&self, raw: &str) -> (r: Result<DiskMetrics, String>) {
        match parse_two_numbers(raw, "total", "used") {
            Ok((total, used)) => Ok(DiskMetrics { total, used }),
            Err(reason) => Err(reason),
        }
    }
}

/// Collects total and used memory with one command.
pub struct MemTask;

impl SshTask for MemTask {
    type Output = MemMetrics;

    open spec fn command_text(&self) -> Seq<char> {
        "echo 8192; echo 4096"@
    }

    open spec fn parsed(&self, raw: Seq<char>) -> Result<MemMetrics, Seq<char>> {
        match two_numbers(raw, "total"@, "used"@) {
            Ok((total, used)) => Ok(MemMetrics { total, used }),
            Err(reason) => Err(reason),
        }
    }

    fn name(&self) -> (r: &'static str)
        ensures
            r@ == "mem_metrics"@,
    {
        "mem_metrics"
    }

    fn interval(&self) -> (r: u64)
        ensures
            r == 30,
    {
        30
    }

    fn command(&self) -> (r: String) {
        String::from_str("echo 8192; echo 4096")
    }

    fn parse(&self, raw: &str) -> (r: Result<MemMetrics, String>) {
        match parse_two_numbers(raw, "total", "used") {
            Ok((total, used)) => Ok(MemMetrics { total, used }),
            Err(reason) => Err(reason),
        }
    }
}

/// A task's collection after `replies`: connect, run the task's command,
/// read its output. A failed request ends the collection with its reason.
pub open spec fn task_probe<T: SshTask>(task: T, replies: Seq<ReplyView>) -> StepView<
    Result<<T::Output as View>::V, Seq<char>>,
> {
    if replies.len() == 0 {
        StepView::Need(RequestView::Connect)
    } else if replies[0] is Err {
        StepView::Done(Err(replies[0]->Err_0))
    } else if replies.len() == 1 {
        StepView::Need(RequestView::Run(task.command_text()))
    } else {
        match replies[1] {
            Ok(output) => StepView::Done(task.parsed(output)),
            Err(reason) => StepView::Done(Err(reason)),
        }
    }
}

/// Where the collection of `task` stands after `replies`.
pub fn run_task<T: SshTask>(task: &T, replies: &Vec<Reply>) -> (r: Step<Result<T::Output, String>>)
    ensures
        task_probe(*task, transcript(replies@)) == (match r {
            Step::Need(request) => StepView::<Result<<T::Output as View>::V, Seq<char>>>::Need(
                request@,
            ),
            Step::Done(Ok(value)) => StepView::Done(Ok(value@)),
            Step::Done(Err(reason)) => StepView::Done(Err(reason@)),
        }),
{
    if replies.len() == 0 {
        return Step::Need(Request::Connect);
    }
    if let Err(reason) = &replies[0] {
        return Step::Done(Err(reason.clone()));
    }
    if replies.len() == 1 {
        return Step::Need(Request::Run(task.command()));
    }
    match &replies[1] {
        Ok(output) => Step::Done(task.parse(output.as_str())),
        Err(reason) => Step::Done(Err(reason.clone())),
    }
}

impl CpuInfo {
    /// The state that the outcome of a `CpuTask` stands for.
    pub fn from_metrics(outcome: Result<CpuMetrics, String>) -> (r: CpuInfo)
        ensures
            r@ == (match outcome {
                Ok(metrics) => MetricState::Success(metrics@),
                Err(reason) => MetricState::Failure(reason@),
            }),
    {
        match outcome {
            Ok(metrics) => CpuInfo::success(metrics.core_count, metrics.usage_percent),
            Err(reason) => CpuInfo::failure(reason),
        }
    }
}

} // verus!
