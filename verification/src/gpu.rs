//! Graphics card of a host: `nvidia-smi` on Linux with `lspci` to fall
//! back on, `system_profiler` on macOS.

use crate::number::{complain, named_number, number_complaint, read_number, NumberError};
use crate::probe::{
    join, reply_view, transcript, MetricState, Reply, ReplyView, Request, RequestView, Step,
    StepView,
};
use crate::text::{
    chars_of, contains, contains_text, eq_ignore_ascii_case, lines, pieces, remove_char,
    same_ignoring_case, same_text, split_char, split_lines, split_whitespace, strip_prefix, trim,
    trimmed, without_char, without_prefix, words,
};
use vstd::prelude::*;
use vstd::string::*;

verus! {

/// What is known of the graphics card of a host.
#[derive(Debug, Clone, PartialEq, Eq)]
pub enum GpuInfo {
    Loading,
    Success {
        name: String,
        memory_total_mb: u32,
        memory_used_mb: u32,
        utilization_percent: u8,
        temperature_c: u8,
    },
    /// The vendor's tool gave nothing, but the host named its card.
    Fallback(String),
    Failure(String),
}

/// A reading of the graphics card.
pub enum GpuMetrics {
    /// The figures of the vendor's tool.
    Card {
        name: Seq<char>,
        memory_total_mb: u32,
        memory_used_mb: u32,
        utilization_percent: u8,
        temperature_c: u8,
    },
    /// A line of text that names the card, where no figures could be had.
    Fallback(Seq<char>),
}

impl View for GpuInfo {
    type V = MetricState<GpuMetrics>;

    open spec fn view(&self) -> MetricState<GpuMetrics> {
        match self {
            GpuInfo::Loading => MetricState::Loading,
            GpuInfo::Success {
                name,
                memory_total_mb,
                memory_used_mb,
                utilization_percent,
                temperature_c,
            } => MetricState::Success(
                GpuMetrics::Card {
                    name: name@,
                    memory_total_mb: *memory_total_mb,
                    memory_used_mb: *memory_used_mb,
                    utilization_percent: *utilization_percent,
                    temperature_c: *temperature_c,
                },
            ),
            GpuInfo::Fallback(text) => MetricState::Success(GpuMetrics::Fallback(text@)),
            GpuInfo::Failure(reason) => MetricState::Failure(reason@),
        }
    }
}

impl GpuInfo {
    pub fn success(
        name: String,
        memory_total_mb: u32,
        memory_used_mb: u32,
        utilization_percent: u8,
        temperature_c: u8,
    ) -> (r: Self)
        ensures
            r@ == MetricState::Success(
                GpuMetrics::Card {
                    name: name@,
                    memory_total_mb,
                    memory_used_mb,
                    utilization_percent,
                    temperature_c,
                },
            ),
    {
        GpuInfo::Success {
            name,
            memory_total_mb,
            memory_used_mb,
            utilization_percent,
            temperature_c,
        }
    }

    pub fn failure(msg: String) -> (r: Self)
        ensures
            r@ == MetricState::<GpuMetrics>::Failure(msg@),
    {
        GpuInfo::Failure(msg)
    }
}

/// Name and memory of the card as read from `system_profiler` so far.
pub struct MacGpu {
    pub name: Option<String>,
    pub memory_total_mb: u32,
}

/// A `MacGpu` with its name as a sequence of characters.
pub struct MacGpuView {
    pub name: Option<Seq<char>>,
    pub memory_total_mb: u32,
}

impl View for MacGpu {
    type V = MacGpuView;

    open spec fn view(&self) -> MacGpuView {
        MacGpuView {
            name: match self.name {
                Some(name) => Some(name@),
                None => None,
            },
            memory_total_mb: self.memory_total_mb,
        }
    }
}

pub open spec fn gpu_platform_command_text() -> Seq<char> {
    "uname -s"@
}

pub open spec fn nvidia_command_text() -> Seq<char> {
    "nvidia-smi --query-gpu=name,memory.total,memory.used,utilization.gpu,temperature.gpu --format=csv,noheader,nounits"@
}

pub open spec fn lspci_command_text() -> Seq<char> {
    "lspci | grep -i -E 'vga|3d|display'"@
}

pub open spec fn profiler_command_text() -> Seq<char> {
    "system_profiler SPDisplaysDataType | grep -E 'Chipset Model|VRAM'"@
}

/// What five fields of `nvidia-smi` say: the first is the name of the
/// card, the others are memory in all and in use, load and temperature.
/// A field that is no number ends in a failure that names the field.
pub open spec fn nvidia_card(parts: Seq<Seq<char>>) -> MetricState<GpuMetrics> {
    match named_number("memory total"@, trimmed(parts[1]), u32::MAX as nat) {
        Err(reason) => MetricState::Failure(reason),
        Ok(total) => match named_number("memory used"@, trimmed(parts[2]), u32::MAX as nat) {
            Err(reason) => MetricState::Failure(reason),
            Ok(used) => match named_number("utilization"@, trimmed(parts[3]), u8::MAX as nat) {
                Err(reason) => MetricState::Failure(reason),
                Ok(load) => match named_number(
                    "temperature"@,
                    trimmed(parts[4]),
                    u8::MAX as nat,
                ) {
                    Err(reason) => MetricState::Failure(reason),
                    Ok(heat) => MetricState::Success(
                        GpuMetrics::Card {
                            name: trimmed(parts[0]),
                            memory_total_mb: total as u32,
                            memory_used_mb: used as u32,
                            utilization_percent: load as u8,
                            temperature_c: heat as u8,
                        },
                    ),
                },
            },
        },
    }
}

/// What the reply of `nvidia-smi` says, if the tool has answered at all:
/// it has where the first line of the reply has five fields between commas.
pub open spec fn nvidia_report(reply: ReplyView) -> Option<MetricState<GpuMetrics>> {
    match reply {
        Err(_) => None,
        Ok(output) => {
            if lines(output).len() == 0 {
                None
            } else if pieces(lines(output)[0], ',').len() != 5 {
                None
            } else {
                Some(nvidia_card(pieces(lines(output)[0], ',')))
            }
        },
    }
}

/// What the reply of `lspci` gives to fall back on: its first line,
/// trimmed, if that is not empty.
pub open spec fn lspci_report(reply: ReplyView) -> MetricState<GpuMetrics> {
    match reply {
        Ok(output) => {
            if lines(output).len() > 0 && trimmed(lines(output)[0]).len() > 0 {
                MetricState::Success(GpuMetrics::Fallback(trimmed(lines(output)[0])))
            } else {
                MetricState::Failure("nvidia-smi not available"@)
            }
        },
        Err(_) => MetricState::Failure("nvidia-smi not available"@),
    }
}

/// The word that states the size in a line with `VRAM`: the first word
/// behind the first colon, its commas left out; empty where none stands there.
pub open spec fn vram_word(line: Seq<char>) -> Seq<char> {
    if pieces(line, ':').len() < 2 || words(trimmed(pieces(line, ':')[1])).len() == 0 {
        Seq::empty()
    } else {
        without_char(words(trimmed(pieces(line, ':')[1]))[0], ',')
    }
}

/// Whether the size in a line with `VRAM` is given in GiB: the second
/// word behind the first colon is `GB`, in any case.
pub open spec fn vram_in_gb(line: Seq<char>) -> bool {
    &&& pieces(line, ':').len() >= 2
    &&& words(trimmed(pieces(line, ':')[1])).len() > 1
    &&& same_ignoring_case(words(trimmed(pieces(line, ':')[1]))[1], "GB"@)
}

/// The size that a line with `VRAM` states, in MiB, or why it could not
/// be read. A size in GiB is multiplied by 1024; one that is then
/// beyond 32 bits is too large.
pub open spec fn vram_megabytes(line: Seq<char>) -> Result<u32, Seq<char>> {
    match named_number("VRAM"@, vram_word(line), u32::MAX as nat) {
        Err(reason) => Err(reason),
        Ok(n) => {
            if !vram_in_gb(line) {
                Ok(n as u32)
            } else if n * 1024 > u32::MAX {
                Err(number_complaint("VRAM"@, NumberError::TooLarge))
            } else {
                Ok((n * 1024) as u32)
            }
        },
    }
}

/// What is known of the card after one more line of `system_profiler`,
/// or why the line could not be read. A line that starts with `Chipset
/// Model:` names the card; any other line that holds `VRAM` states the
/// size of its memory.
pub open spec fn profiler_line(g: MacGpuView, line: Seq<char>) -> Result<MacGpuView, Seq<char>> {
    let line = trimmed(line);
    match without_prefix(line, "Chipset Model:"@) {
        Some(rest) => Ok(MacGpuView { name: Some(trimmed(rest)), ..g }),
        None => {
            if contains_text(line, "VRAM"@) {
                match vram_megabytes(line) {
                    Ok(n) => Ok(MacGpuView { memory_total_mb: n, ..g }),
                    Err(reason) => Err(reason),
                }
            } else {
                Ok(g)
            }
        },
    }
}

/// What is known of the card after the given lines, read in order, or
/// why the first line that could not be read could not.
pub open spec fn profiler_scan(lines: Seq<Seq<char>>) -> Result<MacGpuView, Seq<char>>
    decreases lines.len(),
{
    if lines.len() == 0 {
        Ok(MacGpuView { name: None, memory_total_mb: 0 })
    } else {
        match profiler_scan(lines.drop_last()) {
            Ok(g) => profiler_line(g, lines.last()),
            Err(reason) => Err(reason),
        }
    }
}

/// What the output of `system_profiler` says. Usage, load and
/// temperature are not to be had there and stand as 0.
pub open spec fn profiler_report(output: Seq<char>) -> MetricState<GpuMetrics> {
    let output = trimmed(output);
    if output.len() == 0 {
        MetricState::Failure("No GPU info found with system_profiler"@)
    } else {
        match profiler_scan(lines(output)) {
            Err(reason) => MetricState::Failure(reason),
            Ok(g) => MetricState::Success(
                GpuMetrics::Card {
                    name: match g.name {
                        Some(name) => name,
                        None => "Unknown"@,
                    },
                    memory_total_mb: g.memory_total_mb,
                    memory_used_mb: 0,
                    utilization_percent: 0,
                    temperature_c: 0,
                },
            ),
        }
    }
}

/// Once a line could not be read, the lines behind it change nothing.
pub proof fn lemma_profiler_scan_stops(all: Seq<Seq<char>>, j: int, k: int)
    requires
        0 <= j <= k <= all.len(),
        profiler_scan(all.take(j)) is Err,
    ensures
        profiler_scan(all.take(k)) == profiler_scan(all.take(j)),
    decreases k - j,
{
    if j < k {
        lemma_profiler_scan_stops(all, j, k - 1);
        assert(all.take(k).drop_last() == all.take(k - 1));
    }
}

/// What is known of a card, or a reason, by the characters of its texts.
pub open spec fn card_view(r: Result<MacGpu, String>) -> Result<MacGpuView, Seq<char>> {
    match r {
        Ok(g) => Ok(g@),
        Err(reason) => Err(reason@),
    }
}

/// A size, or a reason by its characters.
pub open spec fn vram_view(r: Result<u32, String>) -> Result<u32, Seq<char>> {
    match r {
        Ok(n) => Ok(n),
        Err(reason) => Err(reason@),
    }
}

/// The collection on Linux, from the third request on: what
/// `nvidia-smi` says where it answers, else what `lspci` names.
pub open spec fn gpu_probe_linux(replies: Seq<ReplyView>) -> StepView<MetricState<GpuMetrics>> {
    if replies.len() <= 2 {
        StepView::Need(RequestView::Run(nvidia_command_text()))
    } else {
        match nvidia_report(replies[2]) {
            Some(state) => StepView::Done(state),
            None => {
                if replies.len() <= 3 {
                    StepView::Need(RequestView::Run(lspci_command_text()))
                } else {
                    StepView::Done(lspci_report(replies[3]))
                }
            },
        }
    }
}

/// The collection on macOS, from the third request on.
pub open spec fn gpu_probe_mac(replies: Seq<ReplyView>) -> StepView<MetricState<GpuMetrics>> {
    if replies.len() <= 2 {
        StepView::Need(RequestView::Run(profiler_command_text()))
    } else {
        match replies[2] {
            Err(reason) => StepView::Done(MetricState::Failure(reason)),
            Ok(output) => StepView::Done(profiler_report(output)),
        }
    }
}

/// The collection after `replies`: connect, ask the platform's name, then
/// go on as the platform requires.
pub open spec fn gpu_probe(replies: Seq<ReplyView>) -> StepView<MetricState<GpuMetrics>> {
    if replies.len() == 0 {
        StepView::Need(RequestView::Connect)
    } else if replies[0] is Err {
        StepView::Done(MetricState::Failure(replies[0]->Err_0))
    } else if replies.len() == 1 {
        StepView::Need(RequestView::Run(gpu_platform_command_text()))
    } else {
        match replies[1] {
            Err(reason) => StepView::Done(
                MetricState::Failure("Failed to detect platform: "@ + reason),
            ),
            Ok(name) => {
                let platform = trimmed(name);
                if platform == "Linux"@ {
                    gpu_probe_linux(replies)
                } else if platform == "Darwin"@ {
                    gpu_probe_mac(replies)
                } else {
                    StepView::Done(MetricState::Failure("Unsupported platform: "@ + platform))
                }
            },
        }
    }
}

/// Reads five fields of `nvidia-smi`.
pub fn parse_nvidia_fields(parts: &Vec<String>) -> (r: GpuInfo)
    requires
        parts.len() == 5,
    ensures
        r@ == nvidia_card(parts.deep_view()),
{
    assert(parts.deep_view()[0] == parts@[0]@ && parts.deep_view()[1] == parts@[1]@
        && parts.deep_view()[2] == parts@[2]@ && parts.deep_view()[3] == parts@[3]@
        && parts.deep_view()[4] == parts@[4]@);
    let name = trim(parts[0].as_str());
    let total = match read_number(
        "memory total",
        &chars_of(trim(parts[1].as_str()).as_str()),
        0xffff_ffff,
    ) {
        Ok(n) => n as u32,
        Err(reason) => {
            return GpuInfo::failure(reason);
        },
    };
    let used = match read_number(
        "memory used",
        &chars_of(trim(parts[2].as_str()).as_str()),
        0xffff_ffff,
    ) {
        Ok(n) => n as u32,
        Err(reason) => {
            return GpuInfo::failure(reason);
        },
    };
    let load = match read_number("utilization", &chars_of(trim(parts[3].as_str()).as_str()), 0xff) {
        Ok(n) => n as u8,
        Err(reason) => {
            return GpuInfo::failure(reason);
        },
    };
    match read_number("temperature", &chars_of(trim(parts[4].as_str()).as_str()), 0xff) {
        Ok(n) => GpuInfo::success(name, total, used, load, n as u8),
        Err(reason) => GpuInfo::failure(reason),
    }
}

/// Reads the reply of `nvidia-smi`.
pub fn parse_nvidia_reply(reply: &Reply) -> (r: Option<GpuInfo>)
    ensures
        match r {
            Some(info) => nvidia_report(reply_view(*reply)) == Some(info@),
            None => nvidia_report(reply_view(*reply)) is None,
        },
{
    match reply {
        Err(_) => None,
        Ok(output) => {
            let all = split_lines(output.as_str());
            if all.len() == 0 {
                return None;
            }
            assert(all.deep_view()[0] == all@[0]@);
            let parts = split_char(all[0].as_str(), ',');
            if parts.len() != 5 {
                return None;
            }
            Some(parse_nvidia_fields(&parts))
        },
    }
}

/// Reads the reply of `lspci`.
pub fn parse_lspci_reply(reply: &Reply) -> (r: GpuInfo)
    ensures
        r@ == lspci_report(reply_view(*reply)),
{
    if let Ok(output) = reply {
        let all = split_lines(output.as_str());
        if all.len() > 0 {
            assert(all.deep_view()[0] == all@[0]@);
            let first = trim(all[0].as_str());
            if first.as_str().unicode_len() > 0 {
                return GpuInfo::Fallback(first);
            }
        }
    }
    GpuInfo::failure(String::from_str("nvidia-smi not available"))
}

/// Reads the size that a line with `VRAM` states.
pub fn parse_vram(line: &str) -> (r: Result<u32, String>)
    ensures
        vram_view(r) == vram_megabytes(line@),
{
    let fields = split_char(line, ':');
    let mut word: Vec<char> = Vec::new();
    let mut in_gb = false;
    if fields.len() >= 2 {
        assert(fields.deep_view()[1] == fields@[1]@);
        let value = trim(fields[1].as_str());
        let parts = split_whitespace(value.as_str());
        if parts.len() > 0 {
            assert(parts.deep_view()[0] == parts@[0]@);
            word = remove_char(parts[0].as_str(), ',');
            if parts.len() > 1 {
                assert(parts.deep_view()[1] == parts@[1]@);
                in_gb = eq_ignore_ascii_case(parts[1].as_str(), "GB");
            }
        }
    }
    assert(word@ == vram_word(line@));
    assert(in_gb == vram_in_gb(line@));
    match read_number("VRAM", &word, 0xffff_ffff) {
        Err(reason) => Err(reason),
        Ok(n) => {
            if !in_gb {
                Ok(n as u32)
            } else if n > 0xffff_ffff / 1024 {
                Err(complain("VRAM", NumberError::TooLarge))
            } else {
                Ok((n * 1024) as u32)
            }
        },
    }
}

/// Takes one line of `system_profiler` into what is known of the card.
pub fn read_profiler_line(g: MacGpu, line: &str) -> (r: Result<MacGpu, String>)
    ensures
        card_view(r) == profiler_line(g@, line@),
{
    let line = trim(line);
    match strip_prefix(line.as_str(), "Chipset Model:") {
        Some(rest) => Ok(
            MacGpu { name: Some(trim(rest.as_str())), memory_total_mb: g.memory_total_mb },
        ),
        None => {
            if contains(line.as_str(), "VRAM") {
                match parse_vram(line.as_str()) {
                    Ok(n) => Ok(MacGpu { name: g.name, memory_total_mb: n }),
                    Err(reason) => Err(reason),
                }
            } else {
                Ok(g)
            }
        },
    }
}

/// Reads the output of `system_profiler`.
pub fn parse_profiler_output(output: &str) -> (r: GpuInfo)
    ensures
        r@ == profiler_report(output@),
{
    let text = trim(output);
    if text.as_str().unicode_len() == 0 {
        return GpuInfo::failure(String::from_str("No GPU info found with system_profiler"));
    }
    let all = split_lines(text.as_str());
    let mut g = MacGpu { name: None, memory_total_mb: 0 };
    let mut i: usize = 0;
    while i < all.len()
        invariant
            i <= all.len(),
            text@ == trimmed(output@),
            text@.len() > 0,
            all.deep_view() == lines(text@),
            profiler_scan(all.deep_view().take(i as int)) == Ok::<MacGpuView, Seq<char>>(g@),
        decreases all.len() - i,
    {
        assert(all.deep_view().take(i + 1).drop_last() == all.deep_view().take(i as int));
        assert(all.deep_view()[i as int] == all@[i as int]@);
        match read_profiler_line(g, all[i].as_str()) {
            Ok(next) => {
                g = next;
            },
            Err(reason) => {
                proof {
                    lemma_profiler_scan_stops(all.deep_view(), i + 1, all.len() as int);
                    assert(all.deep_view().take(all.len() as int) == all.deep_view());
                }
                return GpuInfo::failure(reason);
            },
        }
        i += 1;
    }
    assert(all.deep_view().take(i as int) == all.deep_view());
    let name = match g.name {
        Some(name) => name,
        None => String::from_str("Unknown"),
    };
    GpuInfo::success(name, g.memory_total_mb, 0, 0, 0)
}

fn fetch_gpu_linux(replies: &Vec<Reply>) -> (r: Step<GpuInfo>)
    ensures
        r@ == gpu_probe_linux(transcript(replies@)),
{
    if replies.len() <= 2 {
        return Step::Need(
            Request::Run(
                String::from_str(
                    "nvidia-smi --query-gpu=name,memory.total,memory.used,utilization.gpu,temperature.gpu --format=csv,noheader,nounits",
                ),
            ),
        );
    }
    assert(transcript(replies@)[2] == reply_view(replies@[2]));
    match parse_nvidia_reply(&replies[2]) {
        Some(info) => Step::Done(info),
        None => {
            if replies.len() <= 3 {
                return Step::Need(
                    Request::Run(String::from_str("lspci | grep -i -E 'vga|3d|display'")),
                );
            }
            assert(transcript(replies@)[3] == reply_view(replies@[3]));
            Step::Done(parse_lspci_reply(&replies[3]))
        },
    }
}

fn fetch_gpu_mac(replies: &Vec<Reply>) -> (r: Step<GpuInfo>)
    ensures
        r@ == gpu_probe_mac(transcript(replies@)),
{
    if replies.len() <= 2 {
        return Step::Need(
            Request::Run(
                String::from_str(
                    "system_profiler SPDisplaysDataType | grep -E 'Chipset Model|VRAM'",
                ),
            ),
        );
    }
    match &replies[2] {
        Err(reason) => Step::Done(GpuInfo::failure(reason.clone())),
        Ok(output) => Step::Done(parse_profiler_output(output.as_str())),
    }
}

/// Where the collection of the graphics card's state stands after `replies`.
pub fn fetch_gpu_info(replies: &Vec<Reply>) -> (r: Step<GpuInfo>)
    ensures
        r@ == gpu_probe(transcript(replies@)),
{
    if replies.len() == 0 {
        return Step::Need(Request::Connect);
    }
    if let Err(reason) = &replies[0] {
        return Step::Done(GpuInfo::failure(reason.clone()));
    }
    if replies.len() == 1 {
        return Step::Need(Request::Run(String::from_str("uname -s")));
    }
    match &replies[1] {
        Err(reason) => Step::Done(
            GpuInfo::failure(join("Failed to detect platform: ", reason.as_str())),
        ),
        Ok(name) => {
            let platform = trim(name.as_str());
            if same_text(platform.as_str(), "Linux") {
                fetch_gpu_linux(replies)
            } else if same_text(platform.as_str(), "Darwin") {
                fetch_gpu_mac(replies)
            } else {
                Step::Done(GpuInfo::failure(join("Unsupported platform: ", platform.as_str())))
            }
        },
    }
}

} // verus!
