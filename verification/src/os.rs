//! Name, version and time zone of a host's operating system.

use crate::probe::{
    join, reply_view, transcript, MetricState, Reply, ReplyView, Request, RequestView, Step,
    StepView,
};
use crate::text::{after_first, lines, same_text, second_piece, split_lines, trim, trimmed};
use vstd::prelude::*;
use vstd::string::*;

verus! {

/// What is known of the operating system of a host.
#[derive(Debug, Clone, PartialEq, Eq)]
pub enum OsInfo {
    Loading,
    Success { name: String, version: String, timezone: String },
    Failure(String),
}

/// Name, version and time zone of an operating system.
pub struct OsIdentity {
    pub name: Seq<char>,
    pub version: Seq<char>,
    pub timezone: Seq<char>,
}

impl View for OsInfo {
    type V = MetricState<OsIdentity>;

    open spec fn view(&self) -> MetricState<OsIdentity> {
        match self {
            OsInfo::Loading => MetricState::Loading,
            OsInfo::Success { name, version, timezone } => MetricState::Success(
                OsIdentity { name: name@, version: version@, timezone: timezone@ },
            ),
            OsInfo::Failure(reason) => MetricState::Failure(reason@),
        }
    }
}

impl OsInfo {
    pub fn success(name: String, version: String, timezone: String) -> (r: Self)
        ensures
            r@ == MetricState::Success(
                OsIdentity { name: name@, version: version@, timezone: timezone@ },
            ),
    {
        OsInfo::Success { name, version, timezone }
    }

    pub fn failure(msg: String) -> (r: Self)
        ensures
            r@ == MetricState::<OsIdentity>::Failure(msg@),
    {
        OsInfo::Failure(msg)
    }
}

pub open spec fn os_platform_command_text() -> Seq<char> {
    "uname -s"@
}

pub open spec fn linux_release_command_text() -> Seq<char> {
    "awk -F= '/^NAME=|^VERSION_ID=/{gsub(/\"/, \"\", $2); print $2}' /etc/os-release"@
}

pub open spec fn linux_zone_command_text() -> Seq<char> {
    "cat /etc/timezone || timedatectl | grep 'Time zone' | awk '{print $3}'"@
}

pub open spec fn mac_release_command_text() -> Seq<char> {
    "sw_vers -productName && sw_vers -productVersion"@
}

pub open spec fn mac_zone_command_text() -> Seq<char> {
    "readlink /etc/localtime"@
}

/// Line number `i` of `output`, trimmed; empty where there is no such line.
pub open spec fn trimmed_line(output: Seq<char>, i: int) -> Seq<char> {
    if 0 <= i < lines(output).len() {
        trimmed(lines(output)[i])
    } else {
        Seq::empty()
    }
}

/// The time zone in the reply to the command of Linux: the first line,
/// trimmed; `Unknown` where the command failed or printed nothing.
pub open spec fn linux_zone(reply: ReplyView) -> Seq<char> {
    match reply {
        Ok(output) => {
            if lines(output).len() > 0 {
                trimmed(lines(output)[0])
            } else {
                "Unknown"@
            }
        },
        Err(_) => "Unknown"@,
    }
}

/// The time zone in the reply to the command of macOS: what follows
/// `zoneinfo/` in the path of the zone file; `Unknown` where the command
/// failed or the path holds no `zoneinfo/`.
pub open spec fn mac_zone(reply: ReplyView) -> Seq<char> {
    match reply {
        Ok(output) => match after_first(trimmed(output), "zoneinfo/"@) {
            Some(zone) => zone,
            None => "Unknown"@,
        },
        Err(_) => "Unknown"@,
    }
}

/// The collection from the third request on. The first two lines of the
/// release command's output are name and version; if one of them is
/// empty the collection fails with `complaint` and the output. Else the
/// zone command is run, and `mac` tells how its reply is read.
pub open spec fn os_probe_release(
    replies: Seq<ReplyView>,
    mac: bool,
    release_command: Seq<char>,
    zone_command: Seq<char>,
    complaint: Seq<char>,
) -> StepView<MetricState<OsIdentity>> {
    if replies.len() <= 2 {
        StepView::Need(RequestView::Run(release_command))
    } else {
        match replies[2] {
            Err(reason) => StepView::Done(MetricState::Failure(reason)),
            Ok(output) => {
                let name = trimmed_line(output, 0);
                let version = trimmed_line(output, 1);
                if name.len() == 0 || version.len() == 0 {
                    StepView::Done(MetricState::Failure(complaint + output))
                } else if replies.len() <= 3 {
                    StepView::Need(RequestView::Run(zone_command))
                } else {
                    StepView::Done(
                        MetricState::Success(
                            OsIdentity {
                                name,
                                version,
                                timezone: if mac {
                                    mac_zone(replies[3])
                                } else {
                                    linux_zone(replies[3])
                                },
                            },
                        ),
                    )
                }
            },
        }
    }
}

/// The collection after `replies`: connect, ask the platform's name, then
/// ask for release and time zone as the platform requires.
pub open spec fn os_probe(replies: Seq<ReplyView>) -> StepView<MetricState<OsIdentity>> {
    if replies.len() == 0 {
        StepView::Need(RequestView::Connect)
    } else if replies[0] is Err {
        StepView::Done(MetricState::Failure(replies[0]->Err_0))
    } else if replies.len() == 1 {
        StepView::Need(RequestView::Run(os_platform_command_text()))
    } else {
        match replies[1] {
            Err(reason) => StepView::Done(
                MetricState::Failure("Failed to detect platform: "@ + reason),
            ),
            Ok(name) => {
                let platform = trimmed(name);
                if platform == "Linux"@ {
                    os_probe_release(
                        replies,
                        false,
                        linux_release_command_text(),
                        linux_zone_command_text(),
                        "Unexpected Linux os-release output: "@,
                    )
                } else if platform == "Darwin"@ {
                    os_probe_release(
                        replies,
                        true,
                        mac_release_command_text(),
                        mac_zone_command_text(),
                        "Unexpected macOS sw_vers output: "@,
                    )
                } else {
                    StepView::Done(MetricState::Failure("Unsupported platform: "@ + platform))
                }
            },
        }
    }
}

/// Reads the time zone from the reply of Linux.
pub fn read_linux_zone(reply: &Reply) -> (r: String)
    ensures
        r@ == linux_zone(reply_view(*reply)),
{
    match reply {
        Ok(output) => {
            let all = split_lines(output.as_str());
            if all.len() > 0 {
                assert(all.deep_view()[0] == all@[0]@);
                trim(all[0].as_str())
            } else {
                String::from_str("Unknown")
            }
        },
        Err(_) => String::from_str("Unknown"),
    }
}

/// Reads the time zone from the reply of macOS.
pub fn read_mac_zone(reply: &Reply) -> (r: String)
    ensures
        r@ == mac_zone(reply_view(*reply)),
{
    match reply {
        Ok(output) => {
            let path = trim(output.as_str());
            match second_piece(path.as_str(), "zoneinfo/") {
                Some(zone) => zone,
                None => String::from_str("Unknown"),
            }
        },
        Err(_) => String::from_str("Unknown"),
    }
}

/// Line number `i` of `all`, trimmed; empty where there is none.
fn line_or_empty(all: &Vec<String>, i: usize, Ghost(output): Ghost<Seq<char>>) -> (r: String)
    requires
        all.deep_view() == lines(output),
    ensures
        r@ == trimmed_line(output, i as int),
{
    if i < all.len() {
        assert(all.deep_view()[i as int] == all@[i as int]@);
        trim(all[i].as_str())
    } else {
        String::new()
    }
}

fn fetch_os_release(
    replies: &Vec<Reply>,
    mac: bool,
    release_command: &str,
    zone_command: &str,
    complaint: &str,
) -> (r: Step<OsInfo>)
    ensures
        r@ == os_probe_release(
            transcript(replies@),
            mac,
            release_command@,
            zone_command@,
            complaint@,
        ),
{
    if replies.len() <= 2 {
        return Step::Need(Request::Run(String::from_str(release_command)));
    }
    match &replies[2] {
        Err(reason) => Step::Done(OsInfo::failure(reason.clone())),
        Ok(output) => {
            let all = split_lines(output.as_str());
            let name = line_or_empty(&all, 0, Ghost(output@));
            let version = line_or_empty(&all, 1, Ghost(output@));
            if name.as_str().unicode_len() == 0 || version.as_str().unicode_len() == 0 {
                return Step::Done(OsInfo::failure(join(complaint, output.as_str())));
            }
            if replies.len() <= 3 {
                return Step::Need(Request::Run(String::from_str(zone_command)));
            }
            assert(transcript(replies@)[3] == reply_view(replies@[3]));
            let timezone = if mac {
                read_mac_zone(&replies[3])
            } else {
                read_linux_zone(&replies[3])
            };
            Step::Done(OsInfo::success(name, version, timezone))
        },
    }
}

/// Where the collection of the operating system's identity stands after `replies`.
pub fn fetch_os_info(replies: &Vec<Reply>) -> (r: Step<OsInfo>)
    ensures
        r@ == os_probe(transcript(replies@)),
{
    if replies.len() == 0 {
        return Step::Need(Request::Connect);
    }
    if let Err(reason) = &replies[0] {
        return Step::Done(OsInfo::failure(reason.clone()));
    }
    if replies.len() == 1 {
        return Step::Need(Request::Run(String::from_str("uname -s")));
    }
    match &replies[1] {
        Err(reason) => Step::Done(
            OsInfo::failure(join("Failed to detect platform: ", reason.as_str())),
        ),
        Ok(name) => {
            let platform = trim(name.as_str());
            if same_text(platform.as_str(), "Linux") {
                fetch_os_release(
                    replies,
                    false,
                    "awk -F= '/^NAME=|^VERSION_ID=/{gsub(/\"/, \"\", $2); print $2}' /etc/os-release",
                    "cat /etc/timezone || timedatectl | grep 'Time zone' | awk '{print $3}'",
                    "Unexpected Linux os-release output: ",
                )
            } else if same_text(platform.as_str(), "Darwin") {
                fetch_os_release(
                    replies,
                    true,
                    "sw_vers -productName && sw_vers -productVersion",
                    "readlink /etc/localtime",
                    "Unexpected macOS sw_vers output: ",
                )
            } else {
                Step::Done(OsInfo::failure(join("Unsupported platform: ", platform.as_str())))
            }
        },
    }
}

} // verus!
