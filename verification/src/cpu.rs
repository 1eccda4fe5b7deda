//! Number of cores and load of a host's processors.

use crate::number::{
    check_float, check_float_literal, complain, float_error_text, number_complaint,
    parse_decimal, parse_usize,
};
use crate::probe::{
    join, transcript, MetricState, Reply, ReplyView, Request, RequestView, Step, StepView,
};
use crate::text::{lines, same_text, split_lines, trim, trimmed};
use vstd::prelude::*;
use vstd::string::*;

verus! {

/// Processor load of a host.
///
/// `usage_percent` is the number as the host printed it: a literal of a
/// floating-point number.
#[derive(Debug, Clone, PartialEq, Eq)]
pub enum CpuInfo {
    Loading,
    Success { core_count: usize, usage_percent: String },
    Failure(String),
}

/// Number of cores, and the load summed over all processes as text.
pub struct CpuUsage {
    pub core_count: usize,
    pub usage_percent: Seq<char>,
}

impl View for CpuInfo {
    type V = MetricState<CpuUsage>;

    open spec fn view(&self) -> MetricState<CpuUsage> {
        match self {
            CpuInfo::Loading => MetricState::Loading,
            CpuInfo::Success { core_count, usage_percent } => MetricState::Success(
                CpuUsage { core_count: *core_count, usage_percent: usage_percent@ },
            ),
            CpuInfo::Failure(reason) => MetricState::Failure(reason@),
        }
    }
}

impl CpuInfo {
    pub fn success(core_count: usize, usage_percent: String) -> (r: Self)
        ensures
            r@ == MetricState::Success(CpuUsage { core_count, usage_percent: usage_percent@ }),
    {
        CpuInfo::Success { core_count, usage_percent }
    }

    pub fn failure(msg: String) -> (r: Self)
        ensures
            r@ == MetricState::<CpuUsage>::Failure(msg@),
    {
        CpuInfo::Failure(msg)
    }
}

pub open spec fn system_command_text() -> Seq<char> {
    "uname"@
}

/// The command that prints the number of cores on one line and the load
/// on the next.
pub open spec fn cpu_command_text(mac: bool) -> Seq<char> {
    if mac {
        "echo $(sysctl -n hw.ncpu); echo $(ps -A -o %cpu | awk '{s+=$1} END {print s}')"@
    } else {
        "echo $(nproc); echo $(ps -A -o %cpu | awk '{s+=$1} END {print s}')"@
    }
}

/// Line number `i` of `output`, trimmed; empty where there is no such line.
pub open spec fn cpu_line(output: Seq<char>, i: int) -> Seq<char> {
    if 0 <= i < lines(output).len() {
        trimmed(lines(output)[i])
    } else {
        Seq::empty()
    }
}

/// What the output of the processor command says: its first line,
/// trimmed, is the number of cores, and its second line, trimmed, is the
/// load, a floating-point literal. A line that cannot be read so, or
/// that is not there, is a failure that names what was to be read.
pub open spec fn cpu_report(output: Seq<char>) -> MetricState<CpuUsage> {
    match parse_decimal(cpu_line(output, 0), usize::MAX as nat) {
        Err(e) => MetricState::Failure(number_complaint("core count"@, e)),
        Ok(n) => match check_float(cpu_line(output, 1)) {
            Err(e) => MetricState::Failure("Parse usage percent error: "@ + float_error_text(e)),
            Ok(_) => MetricState::Success(
                CpuUsage { core_count: n as usize, usage_percent: cpu_line(output, 1) },
            ),
        },
    }
}

/// The collection from the third request on: run the processor command
/// of the platform and read its output.
pub open spec fn cpu_probe_load(replies: Seq<ReplyView>, mac: bool) -> StepView<
    MetricState<CpuUsage>,
> {
    if replies.len() <= 2 {
        StepView::Need(RequestView::Run(cpu_command_text(mac)))
    } else {
        match replies[2] {
            Err(reason) => StepView::Done(MetricState::Failure(reason)),
            Ok(output) => StepView::Done(cpu_report(output)),
        }
    }
}

/// The collection after `replies`: connect, ask the platform's name,
/// then run the one processor command of that platform. A failed
/// request ends the collection with its reason; so does a platform other
/// than Linux and Darwin.
pub open spec fn cpu_probe(replies: Seq<ReplyView>) -> StepView<MetricState<CpuUsage>> {
    if replies.len() == 0 {
        StepView::Need(RequestView::Connect)
    } else if replies[0] is Err {
        StepView::Done(MetricState::Failure(replies[0]->Err_0))
    } else if replies.len() == 1 {
        StepView::Need(RequestView::Run(system_command_text()))
    } else {
        match replies[1] {
            Err(reason) => StepView::Done(
                MetricState::Failure("Failed to detect platform: "@ + reason),
            ),
            Ok(name) => {
                let platform = trimmed(name);
                if platform == "Linux"@ {
                    cpu_probe_load(replies, false)
                } else if platform == "Darwin"@ {
                    cpu_probe_load(replies, true)
                } else {
                    StepView::Done(MetricState::Failure("Unsupported platform: "@ + platform))
                }
            },
        }
    }
}

/// Line number `i` of `all`, trimmed; empty where there is none.
fn line_of(all: &Vec<String>, i: usize, Ghost(output): Ghost<Seq<char>>) -> (r: String)
    requires
        all.deep_view() == lines(output),
    ensures
        r@ == cpu_line(output, i as int),
{
    if i < all.len() {
        assert(all.deep_view()[i as int] == all@[i as int]@);
        trim(all[i].as_str())
    } else {
        String::new()
    }
}

/// Reads the output of the processor command.
pub fn parse_cpu_output(output: &str) -> (r: CpuInfo)
    ensures
        r@ == cpu_report(output@),
{
    let all = split_lines(output);
    let cores = line_of(&all, 0, Ghost(output@));
    let usage = line_of(&all, 1, Ghost(output@));
    match parse_usize(cores.as_str()) {
        Err(e) => CpuInfo::failure(complain("core count", e)),
        Ok(n) => match check_float_literal(usage.as_str()) {
            Err(e) => CpuInfo::failure(join("Parse usage percent error: ", e.message().as_str())),
            Ok(_) => CpuInfo::success(n, usage),
        },
    }
}

fn fetch_cpu_load(replies: &Vec<Reply>, mac: bool) -> (r: Step<CpuInfo>)
    ensures
        r@ == cpu_probe_load(transcript(replies@), mac),
{
    if replies.len() <= 2 {
        let command = if mac {
            "echo $(sysctl -n hw.ncpu); echo $(ps -A -o %cpu | awk '{s+=$1} END {print s}')"
        } else {
            "echo $(nproc); echo $(ps -A -o %cpu | awk '{s+=$1} END {print s}')"
        };
        return Step::Need(Request::Run(String::from_str(command)));
    }
    match &replies[2] {
        Err(reason) => Step::Done(CpuInfo::failure(reason.clone())),
        Ok(output) => Step::Done(parse_cpu_output(output.as_str())),
    }
}

/// Where the collection of processor load stands after `replies`.
pub fn fetch_cpu_info(replies: &Vec<Reply>) -> (r: Step<CpuInfo>)
    ensures
        r@ == cpu_probe(transcript(replies@)),
{
    if replies.len() == 0 {
        return Step::Need(Request::Connect);
    }
    if let Err(reason) = &replies[0] {
        return Step::Done(CpuInfo::failure(reason.clone()));
    }
    if replies.len() == 1 {
        return Step::Need(Request::Run(String::from_str("uname")));
    }
    match &replies[1] {
        Err(reason) => Step::Done(
            CpuInfo::failure(join("Failed to detect platform: ", reason.as_str())),
        ),
        Ok(name) => {
            let platform = trim(name.as_str());
            if same_text(platform.as_str(), "Linux") {
                fetch_cpu_load(replies, false)
            } else if same_text(platform.as_str(), "Darwin") {
                fetch_cpu_load(replies, true)
            } else {
                Step::Done(CpuInfo::failure(join("Unsupported platform: ", platform.as_str())))
            }
        },
    }
}

} // verus!
