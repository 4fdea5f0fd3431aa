//! Machine telemetry for the provider record.
//!
//! Matchmakers route inference work by hardware, so the record carries real
//! values; chip and RAM are the ones that routing leans on. What a host's probes
//! gave comes in as plain values and [`collect`] reads a [`SystemProfile`] from it:
//!
//!   * macOS on Apple Silicon: the outputs of `sysctl`, `system_profiler`,
//!     `sw_vers` and `hostname`;
//!   * Linux: the contents of `/proc/meminfo`, `/proc/cpuinfo`,
//!     `/etc/os-release` and `/proc/sys/kernel/hostname`.
//!
//! Every probe may fail on its own. One that does leaves its field at `None` or at
//! its fallback and touches no other field.

use crate::json::{
    bytes_read, lemma_trees_of, parse_slice, tree_get, tree_text, trees_of, Json, Tree,
};
use crate::text::{
    after_prefix, ascii_lower, blank, chars_of, contains, copies, decimal, digit, first_word,
    law_after_prefix, law_first_word, law_split_at_first, law_stripped, law_trimmed, law_unsigned,
    lemma_decimal_digits, lines, lines_of, occurs, parse_u32, parse_u64, same, split_at_first,
    split_once, strip_end, strip_prefix, strip_start, stripped_end, stripped_start, text_of,
    text_view, trim, trimmed, unsigned, viewed, views, whitespace, word,
};
use vstd::prelude::*;
use vstd::utf8::{decode_utf8, is_ascii_chars, valid_utf8};

verus! {

/// What the provider record says of a machine.
#[derive(Debug, Clone)]
pub struct SystemProfile {
    pub machine_label: String,
    pub chip: String,
    pub ram_gb: u32,
    pub cpu_cores: Option<u32>,
    pub p_cores: Option<u32>,
    pub e_cores: Option<u32>,
    pub gpu_cores: Option<u32>,
    pub memory_bandwidth_gbs: Option<u32>,
    pub model_identifier: Option<String>,
    pub os: Option<String>,
}

/// What a command that ran left behind.
#[derive(Debug)]
pub struct CommandOutput {
    /// Whether it exited with success.
    pub success: bool,
    pub stdout: Vec<u8>,
}

// -- Bandwidth of Apple chips --

/// Memory bandwidth in GB/s by chip family, from public spec sheets. The first row
/// whose name stands in a chip's name counts.
pub open spec fn bandwidth_rows() -> Seq<(Seq<char>, u32)> {
    seq![
        ("m4 max"@, 546u32),
        ("m4 pro"@, 273u32),
        ("m4"@, 120u32),
        ("m3 ultra"@, 800u32),
        ("m3 max"@, 400u32),
        ("m3 pro"@, 150u32),
        ("m3"@, 100u32),
        ("m2 ultra"@, 800u32),
        ("m2 max"@, 400u32),
        ("m2 pro"@, 200u32),
        ("m2"@, 100u32),
        ("m1 ultra"@, 800u32),
        ("m1 max"@, 400u32),
        ("m1 pro"@, 200u32),
        ("m1"@, 68u32),
    ]
}

/// The bandwidth of the first row whose name stands in `lower`.
pub open spec fn first_bandwidth(rows: Seq<(Seq<char>, u32)>, lower: Seq<char>) -> Option<u32>
    decreases rows.len(),
{
    if rows.len() == 0 {
        None
    } else if occurs(lower, rows.first().0) {
        Some(rows.first().1)
    } else {
        first_bandwidth(rows.skip(1), lower)
    }
}

/// The text in lower case, as Unicode has it.
pub uninterp spec fn lowercase(s: Seq<char>) -> Seq<char>;

/// `str::to_lowercase`: the lower case depends on the text alone. That of an ASCII
/// text has the letters `A` to `Z` replaced. In any text it makes no difference
/// whether an ASCII letter is written in upper or lower case: the one mapping that
/// looks at other letters, that of the sigma at a word's end, asks whether they are
/// letters and not which case they have.
#[verifier::external_body]
fn to_lowercase(s: &str) -> (r: String)
    ensures
        r@ == lowercase(s@),
        r@ == lowercase(ascii_lower(s@)),
        is_ascii_chars(s@) ==> r@ == ascii_lower(s@),
{
    s.to_lowercase()
}

/// The bandwidth of a chip whose name is given in lower case.
pub fn bandwidth_for_lowercase(lower: &str) -> (r: Option<u32>)
    ensures
        r == first_bandwidth(bandwidth_rows(), lower@),
{
    let rows: [(&str, u32); 15] = [
        ("m4 max", 546),
        ("m4 pro", 273),
        ("m4", 120),
        ("m3 ultra", 800),
        ("m3 max", 400),
        ("m3 pro", 150),
        ("m3", 100),
        ("m2 ultra", 800),
        ("m2 max", 400),
        ("m2 pro", 200),
        ("m2", 100),
        ("m1 ultra", 800),
        ("m1 max", 400),
        ("m1 pro", 200),
        ("m1", 68),
    ];
    let chars = chars_of(lower);
    let mut i: usize = 0;
    assert(bandwidth_rows().skip(0) =~= bandwidth_rows());
    assert forall|j: int| 0 <= j < 15 implies bandwidth_rows()[j] == (#[trigger] rows@[j].0@, rows@[j].1) by {}
    while i < 15
        invariant
            i <= 15,
            chars@ == lower@,
            rows@.len() == 15,
            forall|j: int|
                0 <= j < 15 ==> bandwidth_rows()[j] == (#[trigger] rows@[j].0@, rows@[j].1),
            first_bandwidth(bandwidth_rows(), lower@) == first_bandwidth(
                bandwidth_rows().skip(i as int),
                lower@,
            ),
        decreases 15 - i,
    {
        let row = rows[i];
        assert(bandwidth_rows().skip(i as int).first() == (row.0@, row.1));
        if contains(chars.as_slice(), chars_of(row.0).as_slice()) {
            return Some(row.1);
        }
        assert(bandwidth_rows().skip(i as int).skip(1) =~= bandwidth_rows().skip(i + 1));
        i += 1;
    }
    None
}

/// The bandwidth of a chip, whose name may be written in upper or lower case.
pub open spec fn chip_bandwidth(chip: Seq<char>) -> Option<u32> {
    first_bandwidth(bandwidth_rows(), lowercase(ascii_lower(chip)))
}

/// Memory bandwidth in GB/s by chip name.
pub fn bandwidth_for_chip(chip: &str) -> (r: Option<u32>)
    ensures
        r == first_bandwidth(bandwidth_rows(), lowercase(chip@)),
        r == chip_bandwidth(chip@),
        is_ascii_chars(chip@) ==> r == first_bandwidth(bandwidth_rows(), ascii_lower(chip@)),
{
    bandwidth_for_lowercase(to_lowercase(chip).as_str())
}

// -- Commands on macOS --

/// The text that bytes hold, each stretch that is not UTF-8 replaced by U+FFFD.
pub uninterp spec fn lossy_text(b: Seq<u8>) -> Seq<char>;

/// `String::from_utf8_lossy`: the text depends on the bytes alone, and bytes that
/// are UTF-8 give the text that they encode.
#[verifier::external_body]
fn from_utf8_lossy(b: &[u8]) -> (r: String)
    ensures
        r@ == lossy_text(b@),
        valid_utf8(b@) ==> r@ == decode_utf8(b@),
{
    String::from_utf8_lossy(b).into_owned()
}

/// The number that an optional value is, as a mathematical integer.
pub open spec fn number_view(o: Option<u32>) -> Option<nat> {
    match o {
        Some(n) => Some(n as nat),
        None => None,
    }
}

/// `s`, unless it is empty.
pub open spec fn filled(s: Option<Seq<char>>) -> Option<Seq<char>> {
    match s {
        Some(t) if t.len() > 0 => Some(t),
        _ => None,
    }
}

/// What a command that succeeded printed, without the white space around it.
pub open spec fn printed(o: Option<CommandOutput>) -> Option<Seq<char>> {
    match o {
        Some(c) if c.success => Some(trimmed(lossy_text(c.stdout@))),
        _ => None,
    }
}

/// What a `sysctl` key holds.
pub open spec fn sysctl_text(o: Option<CommandOutput>) -> Option<Seq<char>> {
    filled(printed(o))
}

/// The number that a text writes, where it writes one of at most `max`.
pub open spec fn number_in(s: Option<Seq<char>>, max: nat) -> Option<nat> {
    match s {
        Some(t) => unsigned(t, max),
        None => None,
    }
}

/// The text without the white space around it.
fn trim_text(s: &str) -> (r: String)
    ensures
        r@ == trimmed(s@),
{
    let chars = chars_of(s);
    text_of(trim(chars.as_slice()))
}

/// What a command that succeeded printed, without the white space around it.
pub fn command_text(output: &Option<CommandOutput>) -> (r: Option<String>)
    ensures
        text_view(r) == printed(*output),
{
    match output {
        Some(c) => if c.success {
            Some(trim_text(from_utf8_lossy(c.stdout.as_slice()).as_str()))
        } else {
            None
        },
        None => None,
    }
}

/// What a `sysctl` key holds. `None` where the command failed or printed nothing but
/// white space.
pub fn sysctl(output: &Option<CommandOutput>) -> (r: Option<String>)
    ensures
        text_view(r) == sysctl_text(*output),
{
    match command_text(output) {
        Some(s) => if s.as_str().is_empty() {
            None
        } else {
            Some(s)
        },
        None => None,
    }
}

/// The number that a `sysctl` key holds.
pub fn sysctl_u32(output: &Option<CommandOutput>) -> (r: Option<u32>)
    ensures
        number_view(r) == number_in(sysctl_text(*output), u32::MAX as nat),
{
    match sysctl(output) {
        Some(s) => parse_u32(chars_of(s.as_str()).as_slice()),
        None => None,
    }
}

/// The version that `sw_vers -productVersion` printed.
pub fn sw_vers_product_version(output: &Option<CommandOutput>) -> (r: Option<String>)
    ensures
        text_view(r) == printed(*output),
{
    command_text(output)
}

/// The core count of a display entry.
pub open spec fn display_cores(display: Tree) -> Option<nat> {
    number_in(tree_text(tree_get(display, "sppci_cores"@)), u32::MAX as nat)
}

/// The first core count among display entries.
pub open spec fn first_cores(displays: Seq<Tree>) -> Option<nat>
    decreases displays.len(),
{
    if displays.len() == 0 {
        None
    } else {
        match display_cores(displays.first()) {
            Some(n) => Some(n),
            None => first_cores(displays.skip(1)),
        }
    }
}

/// The core count that a `system_profiler` report gives.
pub open spec fn report_cores(report: Tree) -> Option<nat> {
    match tree_get(report, "SPDisplaysDataType"@) {
        Some(Tree::Array(displays)) => first_cores(displays),
        _ => None,
    }
}

/// The core count that the output of `system_profiler` gives.
pub open spec fn gpu_cores_in(o: Option<CommandOutput>) -> Option<nat> {
    match o {
        Some(c) if c.success => match bytes_read(c.stdout@) {
            Ok(report) => report_cores(report),
            Err(_) => None,
        },
        _ => None,
    }
}

/// The core count of a display entry.
fn cores_of_display(display: &Json) -> (r: Option<u32>)
    ensures
        number_view(r) == display_cores(display@),
{
    match display.get("sppci_cores") {
        Some(cores) => match cores.as_str() {
            Some(s) => parse_u32(chars_of(s.as_str()).as_slice()),
            None => None,
        },
        None => None,
    }
}

/// The core count that a `system_profiler` report gives: integrated GPUs of Apple
/// Silicon carry an `sppci_cores` field, and the first one that holds a number
/// counts.
pub fn gpu_cores_of_report(report: &Json) -> (r: Option<u32>)
    ensures
        number_view(r) == report_cores(report@),
{
    let displays = match report.get("SPDisplaysDataType") {
        Some(d) => match d.as_array() {
            Some(items) => items,
            None => {
                return None;
            },
        },
        None => {
            return None;
        },
    };
    let ghost all = trees_of(displays@);
    proof {
        lemma_trees_of(displays@);
    }
    assert(all.skip(0) =~= all);
    let mut i: usize = 0;
    while i < displays.len()
        invariant
            i <= displays@.len(),
            all == trees_of(displays@),
            all.len() == displays@.len(),
            forall|j: int|
                0 <= j < displays@.len() ==> #[trigger] trees_of(displays@)[j] == displays@[j]@,
            report_cores(report@) == first_cores(all),
            first_cores(all) == first_cores(all.skip(i as int)),
        decreases displays@.len() - i,
    {
        assert(all.skip(i as int).first() == displays@[i as int]@);
        assert(all.skip(i as int).skip(1) =~= all.skip(i + 1));
        let cores = cores_of_display(&displays[i]);
        if cores.is_some() {
            return cores;
        }
        i += 1;
    }
    None
}

/// The GPU's core count by the output of `system_profiler -json SPDisplaysDataType`.
pub fn parse_gpu_cores(output: &Option<CommandOutput>) -> (r: Option<u32>)
    ensures
        number_view(r) == gpu_cores_in(*output),
{
    match output {
        Some(c) => if c.success {
            match parse_slice(c.stdout.as_slice()) {
                Ok(report) => gpu_cores_of_report(&report),
                Err(_) => None,
            }
        } else {
            None
        },
        None => None,
    }
}

// -- Files on Linux --

/// What follows `prefix` in the first line that starts with it.
pub open spec fn first_after(lines: Seq<Seq<char>>, prefix: Seq<char>) -> Option<Seq<char>>
    decreases lines.len(),
{
    if lines.len() == 0 {
        None
    } else {
        match after_prefix(lines.first(), prefix) {
            Some(rest) => Some(rest),
            None => first_after(lines.skip(1), prefix),
        }
    }
}

/// Total RAM in kB: the first word after `MemTotal:`, where it is a number.
pub open spec fn meminfo_total_kb(contents: Seq<char>) -> Option<nat> {
    match first_after(lines_of(contents), "MemTotal:"@) {
        Some(rest) => number_in(first_word(rest), u64::MAX as nat),
        None => None,
    }
}

/// The value of a `key : value` line, where the key is `key` and the value is not
/// empty.
pub open spec fn line_value(line: Seq<char>, key: Seq<char>) -> Option<Seq<char>> {
    match split_at_first(line, ':') {
        Some((k, v)) if trimmed(k) == key => filled(Some(trimmed(v))),
        _ => None,
    }
}

/// The value of the first line that has one for `key`.
pub open spec fn first_value(lines: Seq<Seq<char>>, key: Seq<char>) -> Option<Seq<char>>
    decreases lines.len(),
{
    if lines.len() == 0 {
        None
    } else {
        match line_value(lines.first(), key) {
            Some(v) => Some(v),
            None => first_value(lines.skip(1), key),
        }
    }
}

/// The CPU's name: the first value of `model name`, else of `Model`, else of
/// `Hardware`.
pub open spec fn cpuinfo_model(contents: Seq<char>) -> Option<Seq<char>> {
    let lines = lines_of(contents);
    match first_value(lines, "model name"@) {
        Some(v) => Some(v),
        None => match first_value(lines, "Model"@) {
            Some(v) => Some(v),
            None => first_value(lines, "Hardware"@),
        },
    }
}

/// The system's name: what follows `PRETTY_NAME=`, without the white space and then
/// the quotes around it.
pub open spec fn os_release_pretty(contents: Seq<char>) -> Option<Seq<char>> {
    match first_after(lines_of(contents), "PRETTY_NAME="@) {
        Some(rest) => Some(stripped_end(stripped_start(trimmed(rest), '"'), '"')),
        None => None,
    }
}

/// What follows `prefix` in the first line that starts with it.
fn after_first<'a>(all: &Vec<&'a [char]>, prefix: &str) -> (r: Option<&'a [char]>)
    ensures
        viewed(r) == first_after(views(all@), prefix@),
{
    let ghost lines = views(all@);
    assert(lines.skip(0) =~= lines);
    let mut i: usize = 0;
    while i < all.len()
        invariant
            i <= all@.len(),
            lines == views(all@),
            first_after(lines, prefix@) == first_after(lines.skip(i as int), prefix@),
        decreases all@.len() - i,
    {
        assert(lines.skip(i as int).first() == all@[i as int]@);
        assert(lines.skip(i as int).skip(1) =~= lines.skip(i + 1));
        let rest = strip_prefix(all[i], prefix);
        if rest.is_some() {
            return rest;
        }
        i += 1;
    }
    None
}

/// The value of a `key : value` line.
fn value_of_line<'a>(line: &'a [char], key: &str) -> (r: Option<&'a [char]>)
    ensures
        viewed(r) == line_value(line@, key@),
{
    match split_once(line, ':') {
        Some((k, v)) => {
            let value = trim(v);
            if same(trim(k), chars_of(key).as_slice()) && value.len() > 0 {
                Some(value)
            } else {
                None
            }
        },
        None => None,
    }
}

/// The value of the first line that has one for `key`.
fn value_of_first<'a>(all: &Vec<&'a [char]>, key: &str) -> (r: Option<&'a [char]>)
    ensures
        viewed(r) == first_value(views(all@), key@),
{
    let ghost lines = views(all@);
    assert(lines.skip(0) =~= lines);
    let mut i: usize = 0;
    while i < all.len()
        invariant
            i <= all@.len(),
            lines == views(all@),
            first_value(lines, key@) == first_value(lines.skip(i as int), key@),
        decreases all@.len() - i,
    {
        assert(lines.skip(i as int).first() == all@[i as int]@);
        assert(lines.skip(i as int).skip(1) =~= lines.skip(i + 1));
        let value = value_of_line(all[i], key);
        if value.is_some() {
            return value;
        }
        i += 1;
    }
    None
}

/// Total RAM in kB from the `MemTotal:` line of `/proc/meminfo`.
pub fn parse_meminfo_total_kb(contents: &str) -> (r: Option<u64>)
    ensures
        match r {
            Some(n) => meminfo_total_kb(contents@) == Some(n as nat),
            None => meminfo_total_kb(contents@) is None,
        },
{
    let chars = chars_of(contents);
    match after_first(&lines(chars.as_slice()), "MemTotal:") {
        Some(rest) => match word(rest) {
            Some(w) => parse_u64(w),
            None => None,
        },
        None => None,
    }
}

/// The CPU's name from `/proc/cpuinfo`. x86 reports it as `model name`; some ARM
/// kernels use `Model` or `Hardware` instead.
pub fn parse_cpuinfo_model(contents: &str) -> (r: Option<String>)
    ensures
        text_view(r) == cpuinfo_model(contents@),
{
    let chars = chars_of(contents);
    let all = lines(chars.as_slice());
    if let Some(v) = value_of_first(&all, "model name") {
        return Some(text_of(v));
    }
    if let Some(v) = value_of_first(&all, "Model") {
        return Some(text_of(v));
    }
    match value_of_first(&all, "Hardware") {
        Some(v) => Some(text_of(v)),
        None => None,
    }
}

/// `PRETTY_NAME` from `/etc/os-release`, without the quotes around it.
pub fn parse_os_release_pretty(contents: &str) -> (r: Option<String>)
    ensures
        text_view(r) == os_release_pretty(contents@),
{
    let chars = chars_of(contents);
    match after_first(&lines(chars.as_slice()), "PRETTY_NAME=") {
        Some(rest) => Some(text_of(strip_end(strip_start(trim(rest), '"'), '"'))),
        None => None,
    }
}

/// A text without the white space around it, unless nothing is left.
pub open spec fn tidied(o: Option<Seq<char>>) -> Option<Seq<char>> {
    match o {
        Some(t) => filled(Some(trimmed(t))),
        None => None,
    }
}

/// A text without the white space around it, unless nothing is left.
fn tidy(o: &Option<String>) -> (r: Option<String>)
    ensures
        text_view(r) == tidied(text_view(*o)),
{
    match o {
        Some(s) => {
            let t = trim_text(s.as_str());
            if t.as_str().is_empty() {
                None
            } else {
                Some(t)
            }
        },
        None => None,
    }
}

/// The host's name from the contents of `/proc/sys/kernel/hostname`.
pub fn hostname(contents: &Option<String>) -> (r: Option<String>)
    ensures
        text_view(r) == tidied(text_view(*contents)),
{
    tidy(contents)
}

// -- The whole profile --

/// The name that a machine is shown by: the owner's choice, else the host's name,
/// else a fallback.
pub open spec fn label_text(
    chosen: Option<Seq<char>>,
    host: Option<Seq<char>>,
    fallback: Seq<char>,
) -> Seq<char> {
    match tidied(chosen) {
        Some(label) => label,
        None => match host {
            Some(name) => name,
            None => fallback,
        },
    }
}

/// The name that a machine is shown by. The owner's choice (`COCORE_MACHINE_LABEL`)
/// wins over the host's name, so that a provider need not expose it.
pub fn machine_label(chosen: &Option<String>, host: Option<String>, fallback: &str) -> (r: String)
    ensures
        r@ == label_text(text_view(*chosen), text_view(host), fallback@),
{
    match tidy(chosen) {
        Some(label) => label,
        None => match host {
            Some(name) => name,
            None => fallback.to_owned(),
        },
    }
}

/// What the probes of a macOS host gave. A command that could not run is `None`.
#[derive(Debug)]
pub struct MacProbes {
    /// `COCORE_MACHINE_LABEL`.
    pub label: Option<String>,
    /// `hostname`.
    pub hostname: Option<CommandOutput>,
    /// `sysctl -n machdep.cpu.brand_string`.
    pub brand: Option<CommandOutput>,
    /// `sysctl -n hw.memsize`.
    pub memsize: Option<CommandOutput>,
    /// `sysctl -n hw.ncpu`.
    pub ncpu: Option<CommandOutput>,
    /// `sysctl -n hw.perflevel0.physicalcpu`.
    pub perflevel0: Option<CommandOutput>,
    /// `sysctl -n hw.perflevel1.physicalcpu`.
    pub perflevel1: Option<CommandOutput>,
    /// `system_profiler -json SPDisplaysDataType`.
    pub displays: Option<CommandOutput>,
    /// `sysctl -n hw.model`.
    pub model: Option<CommandOutput>,
    /// `sw_vers -productVersion`.
    pub product_version: Option<CommandOutput>,
}

/// What the probes of a Linux host gave. A file that could not be read is `None`.
#[derive(Debug)]
pub struct LinuxProbes {
    /// `COCORE_MACHINE_LABEL`.
    pub label: Option<String>,
    /// `/proc/sys/kernel/hostname`.
    pub hostname: Option<String>,
    /// `/proc/cpuinfo`.
    pub cpuinfo: Option<String>,
    /// `/proc/meminfo`.
    pub meminfo: Option<String>,
    /// `/etc/os-release`.
    pub os_release: Option<String>,
    /// How many threads can run at once.
    pub parallelism: Option<usize>,
}

/// What the probes of any other host gave.
#[derive(Debug)]
pub struct OtherProbes {
    /// `COCORE_MACHINE_LABEL`.
    pub label: Option<String>,
    /// How many threads can run at once.
    pub parallelism: Option<usize>,
}

/// What a host's probes gave.
#[derive(Debug)]
pub enum Host {
    MacOs(MacProbes),
    Linux(LinuxProbes),
    Other(OtherProbes),
}

/// What a profile says.
pub struct Profile {
    pub machine_label: Seq<char>,
    pub chip: Seq<char>,
    pub ram_gb: nat,
    pub cpu_cores: Option<nat>,
    pub p_cores: Option<nat>,
    pub e_cores: Option<nat>,
    pub gpu_cores: Option<nat>,
    pub memory_bandwidth_gbs: Option<u32>,
    pub model_identifier: Option<Seq<char>>,
    pub os: Option<Seq<char>>,
}

impl View for SystemProfile {
    type V = Profile;

    open spec fn view(&self) -> Profile {
        Profile {
            machine_label: self.machine_label@,
            chip: self.chip@,
            ram_gb: self.ram_gb as nat,
            cpu_cores: number_view(self.cpu_cores),
            p_cores: number_view(self.p_cores),
            e_cores: number_view(self.e_cores),
            gpu_cores: number_view(self.gpu_cores),
            memory_bandwidth_gbs: self.memory_bandwidth_gbs,
            model_identifier: text_view(self.model_identifier),
            os: text_view(self.os),
        }
    }
}

/// The lowest 32 bits of a number.
pub open spec fn low_bits(n: nat) -> nat {
    n % 0x1_0000_0000
}

/// Whole units in an amount, in the lowest 32 bits; none where the amount is not
/// known.
pub open spec fn whole_units(amount: Option<nat>, unit: nat) -> nat {
    match amount {
        Some(n) => low_bits(n / unit),
        None => 0,
    }
}

/// The text, or `unknown` where there is none.
pub open spec fn or_unknown(s: Option<Seq<char>>) -> Seq<char> {
    match s {
        Some(t) => t,
        None => "unknown"@,
    }
}

/// A thread count in the lowest 32 bits.
pub open spec fn thread_count(n: Option<usize>) -> Option<nat> {
    match n {
        Some(k) => Some(low_bits(k as nat)),
        None => None,
    }
}

/// The system's name by its version.
pub open spec fn macos_version(version: Option<Seq<char>>) -> Option<Seq<char>> {
    match version {
        Some(v) => Some("macOS "@ + v),
        None => None,
    }
}

/// The CPU's name by an optional file.
pub open spec fn cpu_name(cpuinfo: Option<String>) -> Option<Seq<char>> {
    match cpuinfo {
        Some(c) => cpuinfo_model(c@),
        None => None,
    }
}

/// Total RAM in kB by an optional file.
pub open spec fn total_kb(meminfo: Option<String>) -> Option<nat> {
    match meminfo {
        Some(c) => meminfo_total_kb(c@),
        None => None,
    }
}

/// The system's name by an optional file.
pub open spec fn os_name(os_release: Option<String>) -> Option<Seq<char>> {
    match os_release {
        Some(c) => os_release_pretty(c@),
        None => None,
    }
}

/// The profile of a macOS host.
pub open spec fn mac_profile(p: MacProbes) -> Profile {
    let chip = or_unknown(sysctl_text(p.brand));
    Profile {
        machine_label: label_text(text_view(p.label), printed(p.hostname), "macOS host"@),
        chip,
        ram_gb: whole_units(number_in(sysctl_text(p.memsize), u64::MAX as nat), 0x4000_0000),
        cpu_cores: number_in(sysctl_text(p.ncpu), u32::MAX as nat),
        p_cores: number_in(sysctl_text(p.perflevel0), u32::MAX as nat),
        e_cores: number_in(sysctl_text(p.perflevel1), u32::MAX as nat),
        gpu_cores: gpu_cores_in(p.displays),
        memory_bandwidth_gbs: chip_bandwidth(chip),
        model_identifier: sysctl_text(p.model),
        os: macos_version(printed(p.product_version)),
    }
}

/// The profile of a Linux host. What only Apple reports stays absent.
pub open spec fn linux_profile(p: LinuxProbes) -> Profile {
    Profile {
        machine_label: label_text(
            text_view(p.label),
            tidied(text_view(p.hostname)),
            "linux host"@,
        ),
        chip: or_unknown(cpu_name(p.cpuinfo)),
        ram_gb: whole_units(total_kb(p.meminfo), 0x10_0000),
        cpu_cores: thread_count(p.parallelism),
        p_cores: None,
        e_cores: None,
        gpu_cores: None,
        memory_bandwidth_gbs: None,
        model_identifier: None,
        os: os_name(p.os_release),
    }
}

/// The profile of any other host.
pub open spec fn other_profile(p: OtherProbes) -> Profile {
    Profile {
        machine_label: label_text(text_view(p.label), None, "host"@),
        chip: "unknown"@,
        ram_gb: 0,
        cpu_cores: thread_count(p.parallelism),
        p_cores: None,
        e_cores: None,
        gpu_cores: None,
        memory_bandwidth_gbs: None,
        model_identifier: None,
        os: None,
    }
}

/// The profile of a host.
pub open spec fn profile_of(host: Host) -> Profile {
    match host {
        Host::MacOs(p) => mac_profile(p),
        Host::Linux(p) => linux_profile(p),
        Host::Other(p) => other_profile(p),
    }
}

/// Whole units in an amount.
fn units_of(amount: u64, unit: u64) -> (r: u32)
    requires
        unit > 0,
    ensures
        r == low_bits(amount as nat / unit as nat),
{
    let n: u64 = amount / unit;
    assert(n as u32 == n % 0x1_0000_0000u64) by (bit_vector);
    #[verifier::truncate]
    (n as u32)
}

/// A thread count.
fn threads_of(n: Option<usize>) -> (r: Option<u32>)
    ensures
        number_view(r) == thread_count(n),
{
    match n {
        Some(k) => Some(units_of(k as u64, 1)),
        None => None,
    }
}

/// The text, or `unknown` where there is none.
fn unless_unknown(s: Option<String>) -> (r: String)
    ensures
        r@ == or_unknown(text_view(s)),
{
    match s {
        Some(t) => t,
        None => "unknown".to_owned(),
    }
}

/// Reads the profile of a macOS host.
fn collect_macos(p: &MacProbes) -> (r: SystemProfile)
    ensures
        r@ == mac_profile(*p),
        r@.memory_bandwidth_gbs == first_bandwidth(bandwidth_rows(), lowercase(r@.chip)),
        is_ascii_chars(r@.chip) ==> r@.memory_bandwidth_gbs == first_bandwidth(
            bandwidth_rows(),
            ascii_lower(r@.chip),
        ),
{
    let chip = unless_unknown(sysctl(&p.brand));
    let ram_gb: u32 = match sysctl(&p.memsize) {
        Some(s) => match parse_u64(chars_of(s.as_str()).as_slice()) {
            Some(bytes) => units_of(bytes, 0x4000_0000),
            None => 0,
        },
        None => 0,
    };
    let memory_bandwidth_gbs = bandwidth_for_chip(chip.as_str());
    let os = match sw_vers_product_version(&p.product_version) {
        Some(v) => Some("macOS ".to_owned().concat(v.as_str())),
        None => None,
    };
    SystemProfile {
        machine_label: machine_label(&p.label, command_text(&p.hostname), "macOS host"),
        chip,
        ram_gb,
        cpu_cores: sysctl_u32(&p.ncpu),
        p_cores: sysctl_u32(&p.perflevel0),
        e_cores: sysctl_u32(&p.perflevel1),
        gpu_cores: parse_gpu_cores(&p.displays),
        memory_bandwidth_gbs,
        model_identifier: sysctl(&p.model),
        os,
    }
}

/// Reads the profile of a Linux host.
fn collect_linux(p: &LinuxProbes) -> (r: SystemProfile)
    ensures
        r@ == linux_profile(*p),
{
    let chip = unless_unknown(
        match &p.cpuinfo {
            Some(c) => parse_cpuinfo_model(c.as_str()),
            None => None,
        },
    );
    let ram_gb: u32 = match &p.meminfo {
        Some(c) => match parse_meminfo_total_kb(c.as_str()) {
            Some(kb) => units_of(kb, 0x10_0000),
            None => 0,
        },
        None => 0,
    };
    let os = match &p.os_release {
        Some(c) => parse_os_release_pretty(c.as_str()),
        None => None,
    };
    SystemProfile {
        machine_label: machine_label(&p.label, hostname(&p.hostname), "linux host"),
        chip,
        ram_gb,
        cpu_cores: threads_of(p.parallelism),
        p_cores: None,
        e_cores: None,
        gpu_cores: None,
        memory_bandwidth_gbs: None,
        model_identifier: None,
        os,
    }
}

/// Reads the profile of any other host.
fn collect_other(p: &OtherProbes) -> (r: SystemProfile)
    ensures
        r@ == other_profile(*p),
{
    SystemProfile {
        machine_label: machine_label(&p.label, None, "host"),
        chip: "unknown".to_owned(),
        ram_gb: 0,
        cpu_cores: threads_of(p.parallelism),
        p_cores: None,
        e_cores: None,
        gpu_cores: None,
        memory_bandwidth_gbs: None,
        model_identifier: None,
        os: None,
    }
}

/// Reads a host's profile from what its probes gave. A probe that failed leaves its
/// field at `None` or at its fallback. On macOS the bandwidth is that of the chip by
/// its name in lower case.
pub fn collect(host: &Host) -> (r: SystemProfile)
    ensures
        r@ == profile_of(*host),
        *host is MacOs ==> r@.memory_bandwidth_gbs == first_bandwidth(
            bandwidth_rows(),
            lowercase(r@.chip),
        ),
        *host is MacOs && is_ascii_chars(r@.chip) ==> r@.memory_bandwidth_gbs == first_bandwidth(
            bandwidth_rows(),
            ascii_lower(r@.chip),
        ),
{
    match host {
        Host::MacOs(p) => collect_macos(p),
        Host::Linux(p) => collect_linux(p),
        Host::Other(p) => collect_other(p),
    }
}

// -- Laws --

/// A chip always has a name: where nothing is known it is `unknown`.
pub proof fn law_chip_is_never_empty(host: Host)
    ensures
        profile_of(host).chip.len() > 0,
{
    reveal_strlit("unknown");
    match host {
        Host::Linux(p) => {
            if let Some(c) = p.cpuinfo {
                law_cpu_name_is_filled(c@);
            }
        },
        _ => {},
    }
}

/// A value that a line has for a key is not empty.
proof fn lemma_first_value_is_filled(lines: Seq<Seq<char>>, key: Seq<char>)
    ensures
        first_value(lines, key) matches Some(v) ==> v.len() > 0,
    decreases lines.len(),
{
    if lines.len() > 0 {
        lemma_first_value_is_filled(lines.skip(1), key);
    }
}

/// A CPU name that `/proc/cpuinfo` gives is not empty.
pub proof fn law_cpu_name_is_filled(contents: Seq<char>)
    ensures
        cpuinfo_model(contents) matches Some(name) ==> name.len() > 0,
{
    let lines = lines_of(contents);
    lemma_first_value_is_filled(lines, "model name"@);
    lemma_first_value_is_filled(lines, "Model"@);
    lemma_first_value_is_filled(lines, "Hardware"@);
}

/// The name that the owner chose is shown whatever the host's name is.
pub proof fn law_chosen_label_wins(
    chosen: Option<Seq<char>>,
    host: Option<Seq<char>>,
    fallback: Seq<char>,
)
    requires
        tidied(chosen) is Some,
    ensures
        label_text(chosen, host, fallback) == tidied(chosen)->0,
{
}

/// On Linux each field rests on its own probe: what the other probes gave, or whether
/// they failed, does not reach it.
pub proof fn law_linux_probes_stand_alone(p: LinuxProbes, q: LinuxProbes)
    ensures
        p.cpuinfo == q.cpuinfo ==> linux_profile(p).chip == linux_profile(q).chip,
        p.meminfo == q.meminfo ==> linux_profile(p).ram_gb == linux_profile(q).ram_gb,
        p.parallelism == q.parallelism ==> linux_profile(p).cpu_cores == linux_profile(q).cpu_cores,
        p.os_release == q.os_release ==> linux_profile(p).os == linux_profile(q).os,
        p.label == q.label && p.hostname == q.hostname ==> linux_profile(p).machine_label
            == linux_profile(q).machine_label,
{
}

/// On Linux a probe that failed leaves its field at `None` or at its fallback.
pub proof fn law_linux_fallbacks(p: LinuxProbes)
    ensures
        p.cpuinfo is None ==> linux_profile(p).chip == "unknown"@,
        p.meminfo is None ==> linux_profile(p).ram_gb == 0,
        p.parallelism is None ==> linux_profile(p).cpu_cores is None,
        p.os_release is None ==> linux_profile(p).os is None,
        p.label is None && p.hostname is None ==> linux_profile(p).machine_label == "linux host"@,
{
}

/// A Linux host has none of the fields that only Apple reports.
pub proof fn law_linux_has_no_apple_fields(p: LinuxProbes)
    ensures
        linux_profile(p).p_cores is None,
        linux_profile(p).e_cores is None,
        linux_profile(p).gpu_cores is None,
        linux_profile(p).memory_bandwidth_gbs is None,
        linux_profile(p).model_identifier is None,
{
}

/// On macOS each field rests on its own probe, and the bandwidth on that of the chip.
pub proof fn law_mac_probes_stand_alone(p: MacProbes, q: MacProbes)
    ensures
        p.brand == q.brand ==> mac_profile(p).chip == mac_profile(q).chip
            && mac_profile(p).memory_bandwidth_gbs == mac_profile(q).memory_bandwidth_gbs,
        p.memsize == q.memsize ==> mac_profile(p).ram_gb == mac_profile(q).ram_gb,
        p.ncpu == q.ncpu ==> mac_profile(p).cpu_cores == mac_profile(q).cpu_cores,
        p.perflevel0 == q.perflevel0 ==> mac_profile(p).p_cores == mac_profile(q).p_cores,
        p.perflevel1 == q.perflevel1 ==> mac_profile(p).e_cores == mac_profile(q).e_cores,
        p.displays == q.displays ==> mac_profile(p).gpu_cores == mac_profile(q).gpu_cores,
        p.model == q.model ==> mac_profile(p).model_identifier == mac_profile(q).model_identifier,
        p.product_version == q.product_version ==> mac_profile(p).os == mac_profile(q).os,
        p.label == q.label && p.hostname == q.hostname ==> mac_profile(p).machine_label
            == mac_profile(q).machine_label,
{
}

/// Whether a command could not run or did not succeed.
pub open spec fn failed(o: Option<CommandOutput>) -> bool {
    o is None || !o->0.success
}

/// On macOS a probe that failed leaves its field at `None` or at its fallback.
pub proof fn law_mac_fallbacks(p: MacProbes)
    ensures
        failed(p.brand) ==> mac_profile(p).chip == "unknown"@,
        failed(p.memsize) ==> mac_profile(p).ram_gb == 0,
        failed(p.ncpu) ==> mac_profile(p).cpu_cores is None,
        failed(p.perflevel0) ==> mac_profile(p).p_cores is None,
        failed(p.perflevel1) ==> mac_profile(p).e_cores is None,
        failed(p.displays) ==> mac_profile(p).gpu_cores is None,
        failed(p.model) ==> mac_profile(p).model_identifier is None,
        failed(p.product_version) ==> mac_profile(p).os is None,
        p.label is None && failed(p.hostname) ==> mac_profile(p).machine_label == "macOS host"@,
{
}

/// Names that differ only in the case of ASCII letters are the same chip: they have
/// the same bandwidth.
pub proof fn law_chip_case_is_ignored(a: Seq<char>, b: Seq<char>)
    requires
        ascii_lower(a) == ascii_lower(b),
    ensures
        chip_bandwidth(a) == chip_bandwidth(b),
{
}

/// A chip family's longer names stand before the bare one, so that the bare name does
/// not hide them.
pub proof fn law_specific_rows_first(i: int, j: int)
    requires
        0 <= i < bandwidth_rows().len(),
        0 <= j < bandwidth_rows().len(),
        i != j,
        bandwidth_rows()[j].0.is_prefix_of(bandwidth_rows()[i].0),
    ensures
        i < j,
{
    reveal_strlit("m4 max");
    reveal_strlit("m4 pro");
    reveal_strlit("m4");
    reveal_strlit("m3 ultra");
    reveal_strlit("m3 max");
    reveal_strlit("m3 pro");
    reveal_strlit("m3");
    reveal_strlit("m2 ultra");
    reveal_strlit("m2 max");
    reveal_strlit("m2 pro");
    reveal_strlit("m2");
    reveal_strlit("m1 ultra");
    reveal_strlit("m1 max");
    reveal_strlit("m1 pro");
    reveal_strlit("m1");
    let name = bandwidth_rows()[i].0;
    let prefix = bandwidth_rows()[j].0;
    assert(name.len() >= prefix.len() && prefix.len() >= 2);
    assert(name.subrange(0, prefix.len() as int)[1] == prefix[1]);
    if prefix.len() > 3 {
        assert(name.subrange(0, prefix.len() as int)[3] == prefix[3]);
    }
}

/// The bandwidth of each chip family, by a name in lower case: the longer name of a family
/// counts before the bare one, and a later family before an earlier one.
pub proof fn law_bandwidths(lower: Seq<char>)
    ensures
        first_bandwidth(bandwidth_rows(), lower) == if occurs(lower, "m4 max"@) {
            Some(546u32)
        } else if occurs(lower, "m4 pro"@) {
            Some(273u32)
        } else if occurs(lower, "m4"@) {
            Some(120u32)
        } else if occurs(lower, "m3 ultra"@) {
            Some(800u32)
        } else if occurs(lower, "m3 max"@) {
            Some(400u32)
        } else if occurs(lower, "m3 pro"@) {
            Some(150u32)
        } else if occurs(lower, "m3"@) {
            Some(100u32)
        } else if occurs(lower, "m2 ultra"@) {
            Some(800u32)
        } else if occurs(lower, "m2 max"@) {
            Some(400u32)
        } else if occurs(lower, "m2 pro"@) {
            Some(200u32)
        } else if occurs(lower, "m2"@) {
            Some(100u32)
        } else if occurs(lower, "m1 ultra"@) {
            Some(800u32)
        } else if occurs(lower, "m1 max"@) {
            Some(400u32)
        } else if occurs(lower, "m1 pro"@) {
            Some(200u32)
        } else if occurs(lower, "m1"@) {
            Some(68u32)
        } else {
            None
        },
{
    reveal_with_fuel(first_bandwidth, 16);
}

/// What a command printed counts where it succeeded, without the white space around it; a
/// `sysctl` key that holds nothing holds none.
pub proof fn law_printed(c: CommandOutput)
    ensures
        c.success ==> printed(Some(c)) == Some(trimmed(lossy_text(c.stdout@))),
        !c.success ==> printed(Some(c)) is None,
        printed(None) is None,
        c.success && trimmed(lossy_text(c.stdout@)).len() > 0 ==> sysctl_text(Some(c)) == Some(
            trimmed(lossy_text(c.stdout@)),
        ),
        c.success && trimmed(lossy_text(c.stdout@)).len() == 0 ==> sysctl_text(Some(c)) is None,
        !c.success ==> sysctl_text(Some(c)) is None,
        sysctl_text(None) is None,
{
}

/// The number in a text is the one that the whole text writes.
pub proof fn law_number_in(t: Seq<char>, max: nat)
    ensures
        number_in(Some(t), max) == unsigned(t, max),
        number_in(None, max) is None,
{
}

/// Whether a display entry has a core count: a text that writes a number.
pub open spec fn has_cores(display: Tree) -> bool {
    tree_get(display, "sppci_cores"@) matches Some(Tree::Text(s)) && unsigned(
        s,
        u32::MAX as nat,
    ) is Some
}

/// The core count of a report is that of its first display entry that has one, and a report
/// in which none has one has none.
pub proof fn law_first_display_with_cores(report: Tree, displays: Seq<Tree>, i: int, s: Seq<char>)
    requires
        tree_get(report, "SPDisplaysDataType"@) == Some(Tree::Array(displays)),
        0 <= i <= displays.len(),
        forall|j: int| 0 <= j < i ==> !has_cores(#[trigger] displays[j]),
        i < displays.len() ==> has_cores(displays[i]) && tree_get(displays[i], "sppci_cores"@)
            == Some(Tree::Text(s)),
    ensures
        i < displays.len() ==> report_cores(report) == unsigned(s, u32::MAX as nat),
        i == displays.len() ==> report_cores(report) is None,
{
    lemma_first_cores(displays, i);
}

/// The first core count among display entries is that of the first entry that has one.
proof fn lemma_first_cores(displays: Seq<Tree>, i: int)
    requires
        0 <= i <= displays.len(),
        forall|j: int| 0 <= j < i ==> !has_cores(#[trigger] displays[j]),
        i < displays.len() ==> has_cores(displays[i]),
    ensures
        i < displays.len() ==> first_cores(displays) == display_cores(displays[i]),
        i == displays.len() ==> first_cores(displays) is None,
    decreases displays.len(),
{
    if i > 0 {
        assert(!has_cores(displays[0]));
        assert forall|j: int| 0 <= j < i - 1 implies !has_cores(
            #[trigger] displays.skip(1)[j],
        ) by {
            assert(!has_cores(displays[j + 1]));
        }
        lemma_first_cores(displays.skip(1), i - 1);
    }
}

/// The GPU's core count is that of the report that a command which succeeded printed; there is
/// none where it failed, printed no JSON, or printed no array of displays.
pub proof fn law_gpu_cores(c: CommandOutput, report: Tree)
    ensures
        gpu_cores_in(None) is None,
        !c.success ==> gpu_cores_in(Some(c)) is None,
        bytes_read(c.stdout@) is Err ==> gpu_cores_in(Some(c)) is None,
        c.success && (bytes_read(c.stdout@) matches Ok(t) && t == report) ==> gpu_cores_in(Some(c))
            == report_cores(report),
        !(tree_get(report, "SPDisplaysDataType"@) matches Some(Tree::Array(_))) ==> report_cores(
            report,
        ) is None,
{
}

/// What follows a prefix is looked for in the first line that starts with it; where none does,
/// nothing follows.
pub proof fn law_first_after(lines: Seq<Seq<char>>, prefix: Seq<char>, i: int, rest: Seq<char>)
    requires
        0 <= i <= lines.len(),
        forall|j: int| 0 <= j < i ==> !prefix.is_prefix_of(#[trigger] lines[j]),
        i < lines.len() ==> lines[i] == prefix + rest,
    ensures
        i < lines.len() ==> first_after(lines, prefix) == Some(rest),
        i == lines.len() ==> first_after(lines, prefix) is None,
    decreases lines.len(),
{
    if i > 0 {
        assert(!prefix.is_prefix_of(lines[0]));
        assert forall|j: int| 0 <= j < i - 1 implies !prefix.is_prefix_of(
            #[trigger] lines.skip(1)[j],
        ) by {
            assert(!prefix.is_prefix_of(lines[j + 1]));
        }
        law_first_after(lines.skip(1), prefix, i - 1, rest);
    } else if i < lines.len() {
        law_after_prefix(lines[0], prefix, rest);
    }
}

/// A row of digits holds no white space.
proof fn lemma_digits_are_no_space(s: Seq<char>)
    requires
        decimal(s) is Some,
    ensures
        forall|k: int| 0 <= k < s.len() ==> !whitespace(#[trigger] s[k]),
    decreases s.len(),
{
    assert(digit(s.last()) is Some);
    if s.len() > 1 {
        lemma_digits_are_no_space(s.drop_last());
        assert forall|k: int| 0 <= k < s.len() implies !whitespace(#[trigger] s[k]) by {
            if k < s.len() - 1 {
                assert(s.drop_last()[k] == s[k]);
            }
        }
    }
}

/// Total RAM is the number that stands first behind `MemTotal:` in the first line that starts
/// so, whatever stands behind the number and in all other lines.
pub proof fn law_total_ram(
    contents: Seq<char>,
    i: int,
    gap: Seq<char>,
    digits: Seq<char>,
    behind: Seq<char>,
)
    requires
        0 <= i < lines_of(contents).len(),
        forall|j: int| 0 <= j < i ==> !"MemTotal:"@.is_prefix_of(#[trigger] lines_of(contents)[j]),
        lines_of(contents)[i] == "MemTotal:"@ + (gap + digits + behind),
        blank(gap),
        decimal(digits) is Some,
        behind.len() > 0 ==> whitespace(behind.first()),
    ensures
        decimal(digits)->0 <= u64::MAX ==> meminfo_total_kb(contents) == decimal(digits),
        decimal(digits)->0 > u64::MAX ==> meminfo_total_kb(contents) is None,
{
    law_first_after(lines_of(contents), "MemTotal:"@, i, gap + digits + behind);
    lemma_digits_are_no_space(digits);
    lemma_decimal_digits(digits);
    law_first_word(gap, digits, behind);
    law_unsigned(digits, u64::MAX as nat);
}

/// There is no total RAM where no line starts with `MemTotal:`, and where the first that does
/// goes on with nothing, or with a word that is no number.
pub proof fn law_no_total_ram(
    contents: Seq<char>,
    i: int,
    gap: Seq<char>,
    w: Seq<char>,
    behind: Seq<char>,
)
    requires
        0 <= i <= lines_of(contents).len(),
        forall|j: int| 0 <= j < i ==> !"MemTotal:"@.is_prefix_of(#[trigger] lines_of(contents)[j]),
        blank(gap),
        forall|k: int| 0 <= k < w.len() ==> !whitespace(#[trigger] w[k]),
        behind.len() > 0 ==> whitespace(behind.first()),
    ensures
        i == lines_of(contents).len() ==> meminfo_total_kb(contents) is None,
        i < lines_of(contents).len() && lines_of(contents)[i] == "MemTotal:"@ + gap
            ==> meminfo_total_kb(contents) is None,
        i < lines_of(contents).len() && w.len() > 0 && lines_of(contents)[i] == "MemTotal:"@ + (gap
            + w + behind) ==> meminfo_total_kb(contents) == unsigned(w, u64::MAX as nat),
{
    law_first_word(gap, w, behind);
    let lines = lines_of(contents);
    if i == lines.len() {
        law_first_after(lines, "MemTotal:"@, i, gap);
    } else {
        if lines[i] == "MemTotal:"@ + gap {
            law_first_after(lines, "MemTotal:"@, i, gap);
        }
        if lines[i] == "MemTotal:"@ + (gap + w + behind) {
            law_first_after(lines, "MemTotal:"@, i, gap + w + behind);
        }
    }
}

/// A line gives a value for a key where the key stands before its first colon, white space
/// around it or not: what stands behind that colon, further colons included, without the white
/// space around it, unless nothing is left. Any other line gives none.
pub proof fn law_line_value(k: Seq<char>, v: Seq<char>, key: Seq<char>)
    requires
        !k.contains(':'),
    ensures
        trimmed(k) == key && trimmed(v).len() > 0 ==> line_value(k + seq![':'] + v, key) == Some(
            trimmed(v),
        ),
        trimmed(k) != key || trimmed(v).len() == 0 ==> line_value(k + seq![':'] + v, key) is None,
        line_value(k, key) is None,
{
    law_split_at_first(k, ':', v);
}

/// The value of a key is that of the first line that gives one.
pub proof fn law_first_value(lines: Seq<Seq<char>>, key: Seq<char>, i: int)
    requires
        0 <= i <= lines.len(),
        forall|j: int| 0 <= j < i ==> line_value(#[trigger] lines[j], key) is None,
        i < lines.len() ==> line_value(lines[i], key) is Some,
    ensures
        i < lines.len() ==> first_value(lines, key) == line_value(lines[i], key),
        i == lines.len() ==> first_value(lines, key) is None,
    decreases lines.len(),
{
    if i > 0 {
        assert(line_value(lines[0], key) is None);
        assert forall|j: int| 0 <= j < i - 1 implies line_value(
            #[trigger] lines.skip(1)[j],
            key,
        ) is None by {
            assert(line_value(lines[j + 1], key) is None);
        }
        law_first_value(lines.skip(1), key, i - 1);
    }
}

/// The CPU's name is the value of `model name` wherever it stands; without one, that of
/// `Model`, and without that one, that of `Hardware`.
pub proof fn law_cpu_keys(contents: Seq<char>)
    ensures
        first_value(lines_of(contents), "model name"@) is Some ==> cpuinfo_model(contents)
            == first_value(lines_of(contents), "model name"@),
        first_value(lines_of(contents), "model name"@) is None && first_value(
            lines_of(contents),
            "Model"@,
        ) is Some ==> cpuinfo_model(contents) == first_value(lines_of(contents), "Model"@),
        first_value(lines_of(contents), "model name"@) is None && first_value(
            lines_of(contents),
            "Model"@,
        ) is None ==> cpuinfo_model(contents) == first_value(lines_of(contents), "Hardware"@),
{
}

/// The system's name is what follows `PRETTY_NAME=` in the first line that starts so, without
/// the white space around it and then without the quotes around it; quotes and white space
/// within stay.
pub proof fn law_pretty_name(
    contents: Seq<char>,
    i: int,
    before: Seq<char>,
    opening: Seq<char>,
    name: Seq<char>,
    closing: Seq<char>,
    behind: Seq<char>,
)
    requires
        0 <= i < lines_of(contents).len(),
        forall|j: int|
            0 <= j < i ==> !"PRETTY_NAME="@.is_prefix_of(#[trigger] lines_of(contents)[j]),
        lines_of(contents)[i] == "PRETTY_NAME="@ + (before + (opening + (name + closing)) + behind),
        blank(before),
        blank(behind),
        copies(opening, '"'),
        copies(closing, '"'),
        name.len() > 0 ==> name.first() != '"' && name.last() != '"',
        name.len() > 0 && opening.len() == 0 ==> !whitespace(name.first()),
        name.len() > 0 && closing.len() == 0 ==> !whitespace(name.last()),
    ensures
        os_release_pretty(contents) == Some(name),
{
    let quoted = opening + (name + closing);
    assert(opening.len() > 0 ==> opening[0] == '"' && opening[opening.len() - 1] == '"');
    assert(closing.len() > 0 ==> closing[0] == '"' && closing[closing.len() - 1] == '"');
    law_first_after(lines_of(contents), "PRETTY_NAME="@, i, before + quoted + behind);
    law_trimmed(before, quoted, behind);
    if name.len() > 0 {
        law_stripped(name + closing, opening, '"');
        law_stripped(name, closing, '"');
    } else {
        let quotes = opening + closing;
        assert(quoted =~= quotes);
        assert forall|k: int| 0 <= k < quotes.len() implies #[trigger] quotes[k] == '"' by {
            if k < opening.len() {
                assert(opening[k] == '"');
            } else {
                assert(closing[k - opening.len()] == '"');
            }
        }
        law_stripped(name, quotes, '"');
        assert(quotes + name =~= quotes);
        law_stripped(name, Seq::empty(), '"');
        assert(name + Seq::<char>::empty() =~= name);
    }
}

/// There is no system's name where no line starts with `PRETTY_NAME=`.
pub proof fn law_no_pretty_name(contents: Seq<char>)
    requires
        forall|j: int|
            0 <= j < lines_of(contents).len() ==> !"PRETTY_NAME="@.is_prefix_of(
                #[trigger] lines_of(contents)[j],
            ),
    ensures
        os_release_pretty(contents) is None,
{
    law_first_after(
        lines_of(contents),
        "PRETTY_NAME="@,
        lines_of(contents).len() as int,
        Seq::empty(),
    );
}

/// A name counts without the white space around it, and not at all where nothing is left.
pub proof fn law_tidied(before: Seq<char>, name: Seq<char>, behind: Seq<char>)
    requires
        blank(before),
        blank(behind),
        name.len() > 0 ==> !whitespace(name.first()) && !whitespace(name.last()),
    ensures
        name.len() > 0 ==> tidied(Some(before + name + behind)) == Some(name),
        name.len() == 0 ==> tidied(Some(before + name + behind)) is None,
        tidied(None) is None,
{
    law_trimmed(before, name, behind);
}

/// A machine is shown by the name that its owner chose, else by the host's name, else by the
/// fallback.
pub proof fn law_label(chosen: Option<Seq<char>>, host: Option<Seq<char>>, fallback: Seq<char>)
    ensures
        tidied(chosen) matches Some(name) ==> label_text(chosen, host, fallback) == name,
        tidied(chosen) is None && host is Some ==> label_text(chosen, host, fallback) == host->0,
        tidied(chosen) is None && host is None ==> label_text(chosen, host, fallback) == fallback,
{
}

/// An amount comes in whole units, rounded down, as long as there is room for them; beyond that
/// the lowest 32 bits are kept. So does a thread count.
pub proof fn law_units(amount: nat, unit: nat, threads: usize)
    requires
        unit > 0,
    ensures
        amount / unit <= u32::MAX ==> whole_units(Some(amount), unit) == amount / unit,
        whole_units(Some(amount), unit) == (amount / unit) % 0x1_0000_0000,
        whole_units(None, unit) == 0,
        threads <= u32::MAX ==> thread_count(Some(threads)) == Some(threads as nat),
        thread_count(Some(threads)) == Some(threads as nat % 0x1_0000_0000),
        thread_count(None) is None,
{
}

/// Where each field of a Linux host's profile comes from: the chip from the CPU's name, the RAM
/// in units of 1024 * 1024 kB from the total, the cores from the thread count, and the system's
/// name from its own file.
pub proof fn law_linux_profile(p: LinuxProbes)
    ensures
        p.cpuinfo matches Some(c) ==> match cpuinfo_model(c@) {
            Some(name) => linux_profile(p).chip == name,
            None => linux_profile(p).chip == "unknown"@,
        },
        p.meminfo matches Some(c) ==> match meminfo_total_kb(c@) {
            Some(kb) => linux_profile(p).ram_gb == (kb / 1048576) % 0x1_0000_0000,
            None => linux_profile(p).ram_gb == 0,
        },
        p.parallelism matches Some(n) ==> linux_profile(p).cpu_cores == Some(
            n as nat % 0x1_0000_0000,
        ),
        p.os_release matches Some(c) ==> linux_profile(p).os == os_release_pretty(c@),
        linux_profile(p).machine_label == label_text(
            text_view(p.label),
            tidied(text_view(p.hostname)),
            "linux host"@,
        ),
        profile_of(Host::Linux(p)) == linux_profile(p),
{
}

/// Where each field of a macOS host's profile comes from: the RAM in units of 1024 * 1024 * 1024
/// bytes from the memory's size, each core count from its own probe, and the bandwidth from the
/// chip.
pub proof fn law_mac_profile(p: MacProbes)
    ensures
        sysctl_text(p.brand) matches Some(chip) ==> mac_profile(p).chip == chip,
        mac_profile(p).memory_bandwidth_gbs == first_bandwidth(
            bandwidth_rows(),
            lowercase(ascii_lower(mac_profile(p).chip)),
        ),
        sysctl_text(p.brand) is None ==> mac_profile(p).chip == "unknown"@,
        sysctl_text(p.memsize) matches Some(t) ==> match unsigned(t, u64::MAX as nat) {
            Some(bytes) => mac_profile(p).ram_gb == (bytes / 1073741824) % 0x1_0000_0000,
            None => mac_profile(p).ram_gb == 0,
        },
        sysctl_text(p.memsize) is None ==> mac_profile(p).ram_gb == 0,
        sysctl_text(p.ncpu) matches Some(t) ==> mac_profile(p).cpu_cores == unsigned(
            t,
            u32::MAX as nat,
        ),
        sysctl_text(p.perflevel0) matches Some(t) ==> mac_profile(p).p_cores == unsigned(
            t,
            u32::MAX as nat,
        ),
        sysctl_text(p.perflevel1) matches Some(t) ==> mac_profile(p).e_cores == unsigned(
            t,
            u32::MAX as nat,
        ),
        sysctl_text(p.ncpu) is None ==> mac_profile(p).cpu_cores is None,
        sysctl_text(p.perflevel0) is None ==> mac_profile(p).p_cores is None,
        sysctl_text(p.perflevel1) is None ==> mac_profile(p).e_cores is None,
        mac_profile(p).gpu_cores == gpu_cores_in(p.displays),
        mac_profile(p).model_identifier == sysctl_text(p.model),
        printed(p.product_version) matches Some(v) ==> mac_profile(p).os == Some("macOS "@ + v),
        printed(p.product_version) is None ==> mac_profile(p).os is None,
        mac_profile(p).machine_label == label_text(
            text_view(p.label),
            printed(p.hostname),
            "macOS host"@,
        ),
        profile_of(Host::MacOs(p)) == mac_profile(p),
{
}

/// Of any other host just the name and the thread count are known.
pub proof fn law_other_profile(p: OtherProbes)
    ensures
        profile_of(Host::Other(p)).machine_label == label_text(text_view(p.label), None, "host"@),
        profile_of(Host::Other(p)).chip == "unknown"@,
        profile_of(Host::Other(p)).ram_gb == 0,
        p.parallelism matches Some(n) ==> profile_of(Host::Other(p)).cpu_cores == Some(
            n as nat % 0x1_0000_0000,
        ),
        p.parallelism is None ==> profile_of(Host::Other(p)).cpu_cores is None,
        profile_of(Host::Other(p)).p_cores is None,
        profile_of(Host::Other(p)).e_cores is None,
        profile_of(Host::Other(p)).gpu_cores is None,
        profile_of(Host::Other(p)).memory_bandwidth_gbs is None,
        profile_of(Host::Other(p)).model_identifier is None,
        profile_of(Host::Other(p)).os is None,
{
}

/// What a profile's contract speaks of is the profile: each field as it is.
pub proof fn law_profile_parts(p: SystemProfile, n: Option<u32>)
    ensures
        p@.machine_label == p.machine_label@,
        p@.chip == p.chip@,
        p@.ram_gb == p.ram_gb,
        p@.cpu_cores == number_view(p.cpu_cores),
        p@.p_cores == number_view(p.p_cores),
        p@.e_cores == number_view(p.e_cores),
        p@.gpu_cores == number_view(p.gpu_cores),
        p@.memory_bandwidth_gbs == p.memory_bandwidth_gbs,
        p@.model_identifier == text_view(p.model_identifier),
        p@.os == text_view(p.os),
        n matches Some(k) ==> number_view(n) == Some(k as nat),
        n is None ==> number_view(n) is None,
{
}

} // verus!
