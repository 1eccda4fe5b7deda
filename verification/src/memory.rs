//! Memory usage, from `free` on Linux and from `sysctl` and `vm_stat` on macOS.

use crate::number::{
    check_float, check_float_literal, complain, decimal, float_error_text, named_number,
    number_complaint, read_number, u64_to_string, NumberError,
};
use crate::probe::{
    join, transcript, MetricState, Reply, ReplyView, Request, RequestView, Step, StepView,
};
use crate::text::{
    after_first, chars_of, contains, contains_text, cut_once, lines, remove_char, same_text,
    second_piece, split_lines, split_once, split_whitespace, trim, trimmed, without_char, words,
};
use vstd::prelude::*;
use vstd::string::*;

verus! {

/// Memory usage of a host.
#[derive(Debug, Clone, PartialEq, Eq)]
pub enum MemoryInfo {
    Loading,
    Success { total: String, used: String, usage_percent: String },
    Failure(String),
}

/// Total and used memory and the share in use, each as text.
pub struct MemoryUsage {
    pub total: Seq<char>,
    pub used: Seq<char>,
    pub usage_percent: Seq<char>,
}

impl View for MemoryInfo {
    type V = MetricState<MemoryUsage>;

    open spec fn view(&self) -> MetricState<MemoryUsage> {
        match self {
            MemoryInfo::Loading => MetricState::Loading,
            MemoryInfo::Success { total, used, usage_percent } => MetricState::Success(
                MemoryUsage { total: total@, used: used@, usage_percent: usage_percent@ },
            ),
            MemoryInfo::Failure(reason) => MetricState::Failure(reason@),
        }
    }
}

impl MemoryInfo {
    pub fn success(total: String, used: String, usage_percent: String) -> (r: Self)
        ensures
            r@ == MetricState::Success(
                MemoryUsage { total: total@, used: used@, usage_percent: usage_percent@ },
            ),
    {
        MemoryInfo::Success { total, used, usage_percent }
    }

    pub fn failure(msg: String) -> (r: Self)
        ensures
            r@ == MetricState::<MemoryUsage>::Failure(msg@),
    {
        MemoryInfo::Failure(msg)
    }
}

/// The counters of `vm_stat` that make up the memory in use, in pages,
/// and the size of a page in bytes.
#[derive(Debug, Clone, Copy, PartialEq, Eq, Structural)]
pub struct VmCounters {
    pub page_size: u64,
    pub active: u64,
    pub speculative: u64,
    pub compressed: u64,
    pub wired: u64,
    pub file_backed: u64,
}

pub open spec fn platform_command_text() -> Seq<char> {
    "uname -s"@
}

pub open spec fn linux_memory_command_text() -> Seq<char> {
    "free -m | awk '/Mem:/ {print $2, $3}'"@
}

pub open spec fn mac_total_command_text() -> Seq<char> {
    "sysctl -n hw.memsize"@
}

pub open spec fn mac_pages_command_text() -> Seq<char> {
    "vm_stat"@
}

/// The counters before any line of `vm_stat` is read: pages of 4096 bytes, none in use.
pub open spec fn vm_start() -> VmCounters {
    VmCounters { page_size: 4096, active: 0, speculative: 0, compressed: 0, wired: 0, file_backed: 0 }
}

/// Whether `name` is one of the counters that make up the memory in use.
pub open spec fn is_vm_counter(name: Seq<char>) -> bool {
    ||| name == "Pages active"@
    ||| name == "Pages speculative"@
    ||| name == "Pages occupied by compressor"@
    ||| name == "Pages wired down"@
    ||| name == "File-backed pages"@
}

/// The counters with the one called `name` set to `n`.
pub open spec fn with_vm_counter(c: VmCounters, name: Seq<char>, n: u64) -> VmCounters {
    if name == "Pages active"@ {
        VmCounters { active: n, ..c }
    } else if name == "Pages speculative"@ {
        VmCounters { speculative: n, ..c }
    } else if name == "Pages occupied by compressor"@ {
        VmCounters { compressed: n, ..c }
    } else if name == "Pages wired down"@ {
        VmCounters { wired: n, ..c }
    } else if name == "File-backed pages"@ {
        VmCounters { file_backed: n, ..c }
    } else {
        c
    }
}

/// The word behind `page size of` in `line`; empty where none stands there.
pub open spec fn page_size_word(line: Seq<char>) -> Seq<char> {
    match after_first(line, "page size of"@) {
        Some(rest) => if words(rest).len() > 0 {
            words(rest)[0]
        } else {
            Seq::empty()
        },
        None => Seq::empty(),
    }
}

/// The counters after one more line of `vm_stat`, or why the line could
/// not be read.
///
/// A line that holds `page size of` sets the page size to the word
/// behind these words. Any other line with a colon sets the counter that
/// its trimmed left part names, if it names one, to the number on its
/// right: the trimmed text with its points left out. A word or text that
/// is no number is a failure that names the counter.
pub open spec fn vm_line(c: VmCounters, line: Seq<char>) -> Result<VmCounters, Seq<char>> {
    if contains_text(line, "page size of"@) {
        match named_number("page size"@, page_size_word(line), u64::MAX as nat) {
            Ok(n) => Ok(VmCounters { page_size: n as u64, ..c }),
            Err(reason) => Err(reason),
        }
    } else {
        match cut_once(line, ':') {
            Some((key, value)) => {
                if is_vm_counter(trimmed(key)) {
                    match named_number(
                        trimmed(key),
                        without_char(trimmed(value), '.'),
                        u64::MAX as nat,
                    ) {
                        Ok(n) => Ok(with_vm_counter(c, trimmed(key), n as u64)),
                        Err(reason) => Err(reason),
                    }
                } else {
                    Ok(c)
                }
            },
            None => Ok(c),
        }
    }
}

/// The counters after the given lines of `vm_stat`, read in order, or
/// why the first line that could not be read could not.
pub open spec fn vm_scan(lines: Seq<Seq<char>>) -> Result<VmCounters, Seq<char>>
    decreases lines.len(),
{
    if lines.len() == 0 {
        Ok(vm_start())
    } else {
        match vm_scan(lines.drop_last()) {
            Ok(c) => vm_line(c, lines.last()),
            Err(reason) => Err(reason),
        }
    }
}

/// The pages in use that the counters stand for.
pub open spec fn vm_used_pages(c: VmCounters) -> int {
    c.active + c.speculative + c.wired + c.compressed + c.file_backed
}

/// The memory in use in MiB that the counters stand for, if the pages
/// and the bytes in use are numbers of 64 bits.
pub open spec fn vm_used_mb(c: VmCounters) -> Option<u64> {
    if vm_used_pages(c) > u64::MAX || vm_used_pages(c) * c.page_size > u64::MAX {
        None
    } else {
        Some((vm_used_pages(c) * c.page_size / 1024 / 1024) as u64)
    }
}

/// The complaint about memory in use that is beyond 64 bits.
pub open spec fn used_complaint() -> Seq<char> {
    number_complaint("used"@, NumberError::TooLarge)
}

/// `n` followed by ` MB`.
pub open spec fn megabytes(n: u64) -> Seq<char> {
    decimal(n as nat) + " MB"@
}

/// The end of the collection, once total and used memory are known in
/// MiB. Where the total is 0 the share in use is `0.0%`. Else the share
/// is asked of the caller as reply number `at`: the reply is to be a
/// floating-point literal, and the share is that literal and a `%` sign.
pub open spec fn memory_result(total_mb: u64, used_mb: u64, replies: Seq<ReplyView>, at: int)
    -> StepView<MetricState<MemoryUsage>> {
    if total_mb == 0 {
        StepView::Done(
            MetricState::Success(
                MemoryUsage {
                    total: megabytes(total_mb),
                    used: megabytes(used_mb),
                    usage_percent: "0.0%"@,
                },
            ),
        )
    } else if replies.len() <= at {
        StepView::Need(RequestView::Percent { part: used_mb, whole: total_mb })
    } else {
        match replies[at] {
            Ok(share) => match check_float(share) {
                Ok(_) => StepView::Done(
                    MetricState::Success(
                        MemoryUsage {
                            total: megabytes(total_mb),
                            used: megabytes(used_mb),
                            usage_percent: share + "%"@,
                        },
                    ),
                ),
                Err(e) => StepView::Done(
                    MetricState::Failure("Parse usage percent error: "@ + float_error_text(e)),
                ),
            },
            Err(reason) => StepView::Done(MetricState::Failure(reason)),
        }
    }
}

/// What the output of `free` says: its first two words are total and
/// used memory in MiB.
pub open spec fn free_report(output: Seq<char>) -> Result<(u64, u64), Seq<char>> {
    let parts = words(output);
    if parts.len() < 2 {
        Err("Unexpected free output: "@ + output)
    } else {
        match named_number("total"@, parts[0], u64::MAX as nat) {
            Err(reason) => Err(reason),
            Ok(total) => match named_number("used"@, parts[1], u64::MAX as nat) {
                Err(reason) => Err(reason),
                Ok(used) => Ok((total as u64, used as u64)),
            },
        }
    }
}

/// The collection on Linux, from the third request on.
pub open spec fn memory_probe_linux(replies: Seq<ReplyView>) -> StepView<MetricState<MemoryUsage>> {
    if replies.len() <= 2 {
        StepView::Need(RequestView::Run(linux_memory_command_text()))
    } else {
        match replies[2] {
            Err(reason) => StepView::Done(MetricState::Failure(reason)),
            Ok(output) => match free_report(output) {
                Err(reason) => StepView::Done(MetricState::Failure(reason)),
                Ok((total_mb, used_mb)) => memory_result(total_mb, used_mb, replies, 3),
            },
        }
    }
}

/// What the output of `vm_stat` says of the memory in use, in MiB.
pub open spec fn pages_report(output: Seq<char>) -> Result<u64, Seq<char>> {
    match vm_scan(lines(output)) {
        Err(reason) => Err(reason),
        Ok(c) => match vm_used_mb(c) {
            Some(used_mb) => Ok(used_mb),
            None => Err(used_complaint()),
        },
    }
}

/// The collection on macOS, from the third request on: `sysctl` prints
/// the total in bytes, `vm_stat` the counters of the pages in use.
pub open spec fn memory_probe_mac(replies: Seq<ReplyView>) -> StepView<MetricState<MemoryUsage>> {
    if replies.len() <= 2 {
        StepView::Need(RequestView::Run(mac_total_command_text()))
    } else {
        match replies[2] {
            Err(reason) => StepView::Done(MetricState::Failure(reason)),
            Ok(total) => match named_number("total"@, trimmed(total), u64::MAX as nat) {
                Err(reason) => StepView::Done(MetricState::Failure(reason)),
                Ok(total_bytes) => {
                    if replies.len() <= 3 {
                        StepView::Need(RequestView::Run(mac_pages_command_text()))
                    } else {
                        match replies[3] {
                            Err(reason) => StepView::Done(MetricState::Failure(reason)),
                            Ok(pages) => match pages_report(pages) {
                                Err(reason) => StepView::Done(MetricState::Failure(reason)),
                                Ok(used_mb) => memory_result(
                                    (total_bytes as u64 / 1024 / 1024) as u64,
                                    used_mb,
                                    replies,
                                    4,
                                ),
                            },
                        }
                    }
                },
            },
        }
    }
}

/// The memory collection after `replies`: connect, ask the platform's
/// name, then go on as the platform requires. A failed request ends the
/// collection with its reason; so does a platform other than Linux and
/// Darwin, and so does a number that cannot be read.
pub open spec fn memory_probe(replies: Seq<ReplyView>) -> StepView<MetricState<MemoryUsage>> {
    if replies.len() == 0 {
        StepView::Need(RequestView::Connect)
    } else if replies[0] is Err {
        StepView::Done(MetricState::Failure(replies[0]->Err_0))
    } else if replies.len() == 1 {
        StepView::Need(RequestView::Run(platform_command_text()))
    } else {
        match replies[1] {
            Err(reason) => StepView::Done(
                MetricState::Failure("Failed to detect platform: "@ + reason),
            ),
            Ok(name) => {
                let platform = trimmed(name);
                if platform == "Linux"@ {
                    memory_probe_linux(replies)
                } else if platform == "Darwin"@ {
                    memory_probe_mac(replies)
                } else {
                    StepView::Done(MetricState::Failure("Unsupported platform: "@ + platform))
                }
            },
        }
    }
}

/// Once a line could not be read, the lines behind it change nothing.
pub proof fn lemma_vm_scan_stops(all: Seq<Seq<char>>, j: int, k: int)
    requires
        0 <= j <= k <= all.len(),
        vm_scan(all.take(j)) is Err,
    ensures
        vm_scan(all.take(k)) == vm_scan(all.take(j)),
    decreases k - j,
{
    if j < k {
        lemma_vm_scan_stops(all, j, k - 1);
        assert(all.take(k).drop_last() == all.take(k - 1));
    }
}

/// A `Result` of counters and reason as a result of counters and the
/// characters of the reason.
pub open spec fn scan_view(r: Result<VmCounters, String>) -> Result<VmCounters, Seq<char>> {
    match r {
        Ok(c) => Ok(c),
        Err(reason) => Err(reason@),
    }
}

/// A `Result` of a number and reason by the characters of the reason.
pub open spec fn size_view(r: Result<u64, String>) -> Result<u64, Seq<char>> {
    match r {
        Ok(n) => Ok(n),
        Err(reason) => Err(reason@),
    }
}

/// Takes one line of `vm_stat` into the counters.
pub fn read_vm_line(c: VmCounters, line: &str) -> (r: Result<VmCounters, String>)
    ensures
        scan_view(r) == vm_line(c, line@),
{
    let mut r = c;
    if contains(line, "page size of") {
        let word = match second_piece(line, "page size of") {
            Some(rest) => {
                let parts = split_whitespace(rest.as_str());
                if parts.len() > 0 {
                    assert(parts.deep_view()[0] == parts@[0]@);
                    chars_of(parts[0].as_str())
                } else {
                    Vec::new()
                }
            },
            None => Vec::new(),
        };
        assert(word@ == page_size_word(line@));
        match read_number("page size", &word, u64::MAX) {
            Ok(n) => {
                r.page_size = n;
                Ok(r)
            },
            Err(reason) => Err(reason),
        }
    } else if let Some((key, value)) = split_once(line, ':') {
        let name = trim(key.as_str());
        let active = same_text(name.as_str(), "Pages active");
        let speculative = same_text(name.as_str(), "Pages speculative");
        let compressed = same_text(name.as_str(), "Pages occupied by compressor");
        let wired = same_text(name.as_str(), "Pages wired down");
        let file_backed = same_text(name.as_str(), "File-backed pages");
        if !(active || speculative || compressed || wired || file_backed) {
            return Ok(r);
        }
        let value = trim(value.as_str());
        let digits = remove_char(value.as_str(), '.');
        match read_number(name.as_str(), &digits, u64::MAX) {
            Ok(n) => {
                if active {
                    r.active = n;
                } else if speculative {
                    r.speculative = n;
                } else if compressed {
                    r.compressed = n;
                } else if wired {
                    r.wired = n;
                } else {
                    r.file_backed = n;
                }
                Ok(r)
            },
            Err(reason) => Err(reason),
        }
    } else {
        Ok(r)
    }
}

/// Reads the counters from the output of `vm_stat`.
pub fn read_vm_stat(output: &str) -> (r: Result<VmCounters, String>)
    ensures
        scan_view(r) == vm_scan(lines(output@)),
{
    let all = split_lines(output);
    let mut c = VmCounters {
        page_size: 4096,
        active: 0,
        speculative: 0,
        compressed: 0,
        wired: 0,
        file_backed: 0,
    };
    let mut i: usize = 0;
    while i < all.len()
        invariant
            i <= all.len(),
            all.deep_view() == lines(output@),
            vm_scan(all.deep_view().take(i as int)) == Ok::<VmCounters, Seq<char>>(c),
        decreases all.len() - i,
    {
        assert(all.deep_view().take(i + 1).drop_last() == all.deep_view().take(i as int));
        assert(all.deep_view()[i as int] == all@[i as int]@);
        match read_vm_line(c, all[i].as_str()) {
            Ok(next) => {
                c = next;
            },
            Err(reason) => {
                proof {
                    lemma_vm_scan_stops(all.deep_view(), i + 1, all.len() as int);
                    assert(all.deep_view().take(all.len() as int) == all.deep_view());
                }
                return Err(reason);
            },
        }
        i += 1;
    }
    assert(all.deep_view().take(i as int) == all.deep_view());
    Ok(c)
}

/// The memory in use in MiB that the counters stand for, if it can be
/// told in 64 bits.
pub fn used_megabytes(c: &VmCounters) -> (r: Option<u64>)
    ensures
        r == vm_used_mb(*c),
{
    let pages: u128 = c.active as u128 + c.speculative as u128 + c.wired as u128
        + c.compressed as u128 + c.file_backed as u128;
    if pages > u64::MAX as u128 {
        return None;
    }
    assert(pages * c.page_size <= 0xffff_ffff_ffff_ffff * 0xffff_ffff_ffff_ffff) by (nonlinear_arith)
        requires
            0 <= pages <= 0xffff_ffff_ffff_ffff,
            0 <= c.page_size <= 0xffff_ffff_ffff_ffff,
    ;
    let bytes: u128 = pages * (c.page_size as u128);
    if bytes > u64::MAX as u128 {
        return None;
    }
    Some((bytes / 1024 / 1024) as u64)
}

/// `n` followed by ` MB`.
fn megabytes_text(n: u64) -> (r: String)
    ensures
        r@ == megabytes(n),
{
    let mut r = u64_to_string(n);
    r.append(" MB");
    r
}

/// Ends the collection once total and used memory are known.
fn finish_memory(total_mb: u64, used_mb: u64, replies: &Vec<Reply>, at: usize) -> (r: Step<
    MemoryInfo,
>)
    ensures
        r@ == memory_result(total_mb, used_mb, transcript(replies@), at as int),
{
    if total_mb == 0 {
        return Step::Done(
            MemoryInfo::success(
                megabytes_text(total_mb),
                megabytes_text(used_mb),
                String::from_str("0.0%"),
            ),
        );
    }
    if replies.len() <= at {
        return Step::Need(Request::Percent { part: used_mb, whole: total_mb });
    }
    match &replies[at] {
        Ok(share) => match check_float_literal(share.as_str()) {
            Ok(_) => Step::Done(
                MemoryInfo::success(
                    megabytes_text(total_mb),
                    megabytes_text(used_mb),
                    join(share.as_str(), "%"),
                ),
            ),
            Err(e) => Step::Done(
                MemoryInfo::failure(join("Parse usage percent error: ", e.message().as_str())),
            ),
        },
        Err(reason) => Step::Done(MemoryInfo::failure(reason.clone())),
    }
}

/// Reads the output of `free`.
pub fn parse_free_output(output: &str) -> (r: Result<(u64, u64), String>)
    ensures
        free_report(output@) == (match r {
            Ok(pair) => Ok::<(u64, u64), Seq<char>>(pair),
            Err(reason) => Err(reason@),
        }),
{
    let parts = split_whitespace(output);
    if parts.len() < 2 {
        return Err(join("Unexpected free output: ", output));
    }
    assert(parts.deep_view()[0] == parts@[0]@ && parts.deep_view()[1] == parts@[1]@);
    let total = match read_number("total", &chars_of(parts[0].as_str()), u64::MAX) {
        Ok(n) => n,
        Err(reason) => {
            return Err(reason);
        },
    };
    match read_number("used", &chars_of(parts[1].as_str()), u64::MAX) {
        Ok(used) => Ok((total, used)),
        Err(reason) => Err(reason),
    }
}

/// Reads the memory in use, in MiB, from the output of `vm_stat`.
pub fn parse_vm_output(output: &str) -> (r: Result<u64, String>)
    ensures
        size_view(r) == pages_report(output@),
{
    match read_vm_stat(output) {
        Err(reason) => Err(reason),
        Ok(c) => match used_megabytes(&c) {
            Some(used_mb) => Ok(used_mb),
            None => Err(complain("used", NumberError::TooLarge)),
        },
    }
}

fn fetch_memory_linux(replies: &Vec<Reply>) -> (r: Step<MemoryInfo>)
    ensures
        r@ == memory_probe_linux(transcript(replies@)),
{
    if replies.len() <= 2 {
        return Step::Need(Request::Run(String::from_str("free -m | awk '/Mem:/ {print $2, $3}'")));
    }
    match &replies[2] {
        Err(reason) => Step::Done(MemoryInfo::failure(reason.clone())),
        Ok(output) => match parse_free_output(output.as_str()) {
            Err(reason) => Step::Done(MemoryInfo::failure(reason)),
            Ok((total_mb, used_mb)) => finish_memory(total_mb, used_mb, replies, 3),
        },
    }
}

fn fetch_memory_mac(replies: &Vec<Reply>) -> (r: Step<MemoryInfo>)
    ensures
        r@ == memory_probe_mac(transcript(replies@)),
{
    if replies.len() <= 2 {
        return Step::Need(Request::Run(String::from_str("sysctl -n hw.memsize")));
    }
    match &replies[2] {
        Err(reason) => Step::Done(MemoryInfo::failure(reason.clone())),
        Ok(total) => {
            let total = trim(total.as_str());
            let total_bytes = match read_number("total", &chars_of(total.as_str()), u64::MAX) {
                Ok(n) => n,
                Err(reason) => {
                    return Step::Done(MemoryInfo::failure(reason));
                },
            };
            if replies.len() <= 3 {
                return Step::Need(Request::Run(String::from_str("vm_stat")));
            }
            match &replies[3] {
                Err(reason) => Step::Done(MemoryInfo::failure(reason.clone())),
                Ok(pages) => match parse_vm_output(pages.as_str()) {
                    Err(reason) => Step::Done(MemoryInfo::failure(reason)),
                    Ok(used_mb) => finish_memory(total_bytes / 1024 / 1024, used_mb, replies, 4),
                },
            }
        },
    }
}

/// Where the collection of memory usage stands after `replies`.
pub fn fetch_memory_info(replies: &Vec<Reply>) -> (r: Step<MemoryInfo>)
    ensures
        r@ == memory_probe(transcript(replies@)),
{
    if replies.len() == 0 {
        return Step::Need(Request::Connect);
    }
    if let Err(reason) = &replies[0] {
        return Step::Done(MemoryInfo::failure(reason.clone()));
    }
    if replies.len() == 1 {
        return Step::Need(Request::Run(String::from_str("uname -s")));
    }
    match &replies[1] {
        Err(reason) => Step::Done(
            MemoryInfo::failure(join("Failed to detect platform: ", reason.as_str())),
        ),
        Ok(name) => {
            let platform = trim(name.as_str());
            if same_text(platform.as_str(), "Linux") {
                fetch_memory_linux(replies)
            } else if same_text(platform.as_str(), "Darwin") {
                fetch_memory_mac(replies)
            } else {
                Step::Done(MemoryInfo::failure(join("Unsupported platform: ", platform.as_str())))
            }
        },
    }
}

} // verus!
