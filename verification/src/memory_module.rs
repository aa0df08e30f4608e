//! Memory scanning module: when a scan runs, which processes and regions it
//! looks at, and the alerts that it raises.

use crate::lifecycle::{health_of, status_of, status_spec, ModuleHealth, ModuleStatus};
use crate::lifecycle::{STATUS_FAILED, STATUS_INITIALIZED};
use crate::memory_scanner::{MemoryRegion, MockMemoryScanner, ScanError};
use crate::scan_host::{lemma_records_add, matched, raised, shown, Asked, ScanHost};
use crate::stream::{count_up, wrapping_succ};
use crate::text::{
    chars_of, lines, lines_of, list_has, number, parse_number, starts_with, string_of, texts, trim,
    trimmed, views, words, words_of,
};
use crate::types::PowerState;
use vstd::prelude::*;
use vstd::string::*;

verus! {

/// Settings of the memory scanning module.
#[derive(Debug, Clone, PartialEq, Eq)]
pub struct MemoryScannerConfig {
    pub enabled: bool,
    pub scan_interval_secs: u64,
    pub only_when_idle_below_cpu_pct: u32,
    pub allow_list_processes: Vec<String>,
    pub yara_rule_source: String,
    pub defer_on_battery: bool,
    pub max_region_bytes: usize,
}

impl Default for MemoryScannerConfig {
    fn default() -> (r: Self)
        ensures
            !r.enabled,
            r.scan_interval_secs == 300,
            r.only_when_idle_below_cpu_pct == 20,
            views(r.allow_list_processes@) == seq!["sn360-desktop-agent"@],
            r.yara_rule_source@ == "trds"@,
            r.defer_on_battery,
            r.max_region_bytes == 4 * 1024 * 1024,
    {
        let mut allow: Vec<String> = Vec::new();
        allow.push("sn360-desktop-agent".to_owned());
        assert(views(allow@) =~= seq!["sn360-desktop-agent"@]);
        MemoryScannerConfig {
            enabled: false,
            scan_interval_secs: 300,
            only_when_idle_below_cpu_pct: 20,
            allow_list_processes: allow,
            yara_rule_source: "trds".to_owned(),
            defer_on_battery: true,
            max_region_bytes: 4 * 1024 * 1024,
        }
    }
}

impl MemoryScannerConfig {
    /// Seconds between two scans, at least one.
    pub fn effective_interval_secs(&self) -> (r: u64)
        ensures
            r == if self.scan_interval_secs < 1 {
                1
            } else {
                self.scan_interval_secs
            },
    {
        if self.scan_interval_secs < 1 {
            1
        } else {
            self.scan_interval_secs
        }
    }
}

/// Handle of the memory scanning module.
#[derive(Debug)]
pub struct MemoryScannerModule {
    status: u8,
}

impl MemoryScannerModule {
    /// The stored status code.
    pub closed spec fn code(&self) -> u8 {
        self.status
    }

    pub fn name(&self) -> (r: &'static str)
        ensures
            r@ == "memory_scanner"@,
    {
        "memory_scanner"
    }

    /// Stores a status code.
    pub fn set_status(&mut self, code: u8)
        ensures
            final(self).code() == code,
    {
        self.status = code;
    }

    pub fn status(&self) -> (r: ModuleStatus)
        ensures
            r == status_spec(self.code()),
    {
        status_of(self.status)
    }

    pub fn health(&self) -> (r: ModuleHealth)
        ensures
            r is Unhealthy <==> self.code() == STATUS_FAILED,
    {
        health_of(self.status)
    }
}

impl Default for MemoryScannerModule {
    fn default() -> (r: Self)
        ensures
            r.code() == STATUS_INITIALIZED,
    {
        MemoryScannerModule { status: STATUS_INITIALIZED }
    }
}

// ---------------------------------------------------------------------
// Alerts
// ---------------------------------------------------------------------

/// Kinds of alert.
#[derive(Debug, Clone, Copy, PartialEq, Eq, Structural)]
pub enum MemoryAlertKind {
    YaraMatch,
    AmsiMatch,
    RwxRegionEnumerated,
}

impl MemoryAlertKind {
    /// The name of the kind on the wire.
    pub open spec fn wire(self) -> Seq<char> {
        match self {
            MemoryAlertKind::YaraMatch => "yara_match"@,
            MemoryAlertKind::AmsiMatch => "amsi_match"@,
            MemoryAlertKind::RwxRegionEnumerated => "rwx_region_enumerated"@,
        }
    }

    /// The name of the kind on the wire.
    pub fn as_wire(&self) -> (r: &'static str)
        ensures
            r@ == self.wire(),
    {
        match self {
            MemoryAlertKind::YaraMatch => "yara_match",
            MemoryAlertKind::AmsiMatch => "amsi_match",
            MemoryAlertKind::RwxRegionEnumerated => "rwx_region_enumerated",
        }
    }
}

/// What is published of an alert.
#[derive(Debug, Clone, PartialEq, Eq)]
pub struct MemoryScanAlertPayload {
    pub pid: u32,
    pub process_name: String,
    pub region_base: u64,
    pub region_size: u64,
    pub alert_type: MemoryAlertKind,
    pub description: String,
    pub detected_at: String,
}

/// A hit of a matcher.
#[derive(Debug, PartialEq, Eq)]
pub struct MemoryMatch {
    pub alert_type: MemoryAlertKind,
    pub description: String,
}

impl Clone for MemoryMatch {
    fn clone(&self) -> (r: Self)
        ensures
            r == *self,
    {
        MemoryMatch { alert_type: self.alert_type, description: self.description.clone() }
    }
}

/// A process that may be scanned.
#[derive(Debug, PartialEq, Eq)]
pub struct ProcessHandle {
    pub pid: u32,
    pub name: String,
}

impl Clone for ProcessHandle {
    fn clone(&self) -> (r: Self)
        ensures
            r == *self,
    {
        ProcessHandle { pid: self.pid, name: self.name.clone() }
    }
}

/// An alert before it is given its time.
#[derive(Debug, PartialEq, Eq)]
pub struct AlertDraft {
    pub pid: u32,
    pub process_name: String,
    pub region_base: u64,
    pub region_size: u64,
    pub hit: MemoryMatch,
}

/// The alert that a hit in a region of a process raises.
pub open spec fn draft_of(handle: ProcessHandle, region: MemoryRegion, m: MemoryMatch) -> AlertDraft {
    AlertDraft {
        pid: handle.pid,
        process_name: handle.name,
        region_base: region.base,
        region_size: region.size,
        hit: m,
    }
}

/// The alert that a hit in a region of a process raises.
pub fn alert_for(handle: &ProcessHandle, region: &MemoryRegion, m: &MemoryMatch) -> (r: AlertDraft)
    ensures
        r == draft_of(*handle, *region, *m),
{
    AlertDraft {
        pid: handle.pid,
        process_name: handle.name.clone(),
        region_base: region.base,
        region_size: region.size,
        hit: m.clone(),
    }
}

/// Makes the payload of an alert that was raised at `detected_at`.
pub fn emit_alert(draft: AlertDraft, detected_at: String) -> (r: MemoryScanAlertPayload)
    ensures
        r.pid == draft.pid,
        r.process_name == draft.process_name,
        r.region_base == draft.region_base,
        r.region_size == draft.region_size,
        r.alert_type == draft.hit.alert_type,
        r.description == draft.hit.description,
        r.detected_at == detected_at,
{
    MemoryScanAlertPayload {
        pid: draft.pid,
        process_name: draft.process_name,
        region_base: draft.region_base,
        region_size: draft.region_size,
        alert_type: draft.hit.alert_type,
        description: draft.hit.description,
        detected_at,
    }
}

// ---------------------------------------------------------------------
// What a scan works with
// ---------------------------------------------------------------------

/// Process memory that can be listed and read. The agent's own process shows
/// no region, and no read of it succeeds.
pub trait MemoryScanner {
    /// The agent's own process.
    spec fn own(&self) -> u32;

    /// The agent's own process.
    fn self_pid(&self) -> (r: u32)
        ensures
            r == self.own(),
    ;

    /// The regions of `pid`.
    fn enumerate(&mut self, pid: u32) -> (r: Result<Vec<MemoryRegion>, ScanError>)
        ensures
            final(self).own() == old(self).own(),
            pid == old(self).own() && r is Ok ==> r->Ok_0@.len() == 0,
    ;

    /// Copies at most `len` octets at `base` to `buf` and returns how many.
    fn read(&mut self, pid: u32, base: u64, len: usize, buf: &mut [u8]) -> (r: Result<usize, ScanError>)
        ensures
            final(self).own() == old(self).own(),
            final(buf)@.len() == old(buf)@.len(),
            pid == old(self).own() ==> r is Err,
    ;
}

impl MemoryScanner for MockMemoryScanner {
    open spec fn own(&self) -> u32 {
        MockMemoryScanner::own(self)
    }

    fn self_pid(&self) -> (r: u32) {
        MockMemoryScanner::self_pid(self)
    }

    fn enumerate(&mut self, pid: u32) -> (r: Result<Vec<MemoryRegion>, ScanError>) {
        MockMemoryScanner::enumerate(self, pid)
    }

    fn read(&mut self, pid: u32, base: u64, len: usize, buf: &mut [u8]) -> (r: Result<usize, ScanError>) {
        MockMemoryScanner::read(self, pid, base, len, buf)
    }
}

/// Finds what a stretch of memory holds.
pub trait MemoryMatcher {
    fn match_bytes(&mut self, pid: u32, region: &MemoryRegion, bytes: &[u8]) -> Vec<MemoryMatch>;
}

/// Takes alerts as they are raised.
pub trait AlertSink {
    /// Publishes an alert and tells whether that went well.
    fn raise(&mut self, draft: AlertDraft) -> bool;
}

/// Lists the running processes.
pub trait ProcessLister {
    fn list(&self) -> Result<Vec<ProcessHandle>, ScanError>;
}

/// Samples how busy the processors are, in percent.
pub trait CpuSampler {
    fn sample_percent(&self) -> u32;
}

/// A matcher that finds nothing.
#[derive(Debug)]
pub struct NoopMatcher {}

impl MemoryMatcher for NoopMatcher {
    fn match_bytes(&mut self, pid: u32, region: &MemoryRegion, bytes: &[u8]) -> (r: Vec<MemoryMatch>)
        ensures
            r@ == Seq::<MemoryMatch>::empty(),
    {
        Vec::new()
    }
}

/// A lister for hosts whose processes cannot be listed.
#[derive(Debug)]
pub struct UnsupportedProcessLister {}

impl ProcessLister for UnsupportedProcessLister {
    fn list(&self) -> (r: Result<Vec<ProcessHandle>, ScanError>)
        ensures
            r is Ok,
            r->Ok_0@ == Seq::<ProcessHandle>::empty(),
    {
        Ok(Vec::new())
    }
}

/// A sampler that always says idle.
#[derive(Debug)]
pub struct ZeroCpuSampler {}

impl CpuSampler for ZeroCpuSampler {
    fn sample_percent(&self) -> (r: u32)
        ensures
            r == 0,
    {
        0
    }
}

/// Lister of the processes of a Linux host.
#[derive(Debug)]
pub struct LinuxProcessLister {}

impl LinuxProcessLister {
    /// The process that an entry of the process directory stands for: one
    /// whose name is a process number. Its name is the text of its `comm`
    /// file without white space around it, or empty where that cannot be
    /// read.
    pub fn entry(file_name: &str, comm: Option<&str>) -> (r: Option<ProcessHandle>)
        ensures
            match r {
                Some(h) => number(file_name@, 10, u32::MAX as nat) == Some(h.pid as nat) && h.name@ == (
                match comm {
                    Some(c) => trimmed(c@),
                    None => Seq::empty(),
                }),
                None => number(file_name@, 10, u32::MAX as nat) is None,
            },
    {
        let f = chars_of(file_name);
        match parse_number(f.as_slice(), 10, u32::MAX as u64) {
            Some(pid) => {
                let name = match comm {
                    Some(c) => {
                        let v = chars_of(c);
                        string_of(trim(v.as_slice()))
                    },
                    None => String::new(),
                };
                Some(ProcessHandle { pid: pid as u32, name })
            },
            None => None,
        }
    }
}

// ---------------------------------------------------------------------
// Processor load
// ---------------------------------------------------------------------

/// A sum that stays within 64 bits.
pub open spec fn capped_sum(a: int, b: int) -> int {
    if a + b > u64::MAX {
        u64::MAX as int
    } else {
        a + b
    }
}

/// The time of a column; what is no number counts as none.
pub open spec fn column_time(w: Seq<char>) -> nat {
    match number(w, 10, u64::MAX as nat) {
        Some(v) => v,
        None => 0,
    }
}

/// Time in the first `n` columns.
pub open spec fn total_time(w: Seq<Seq<char>>, n: int) -> int
    decreases n,
{
    if n <= 0 {
        0
    } else {
        capped_sum(total_time(w, n - 1), column_time(w[n - 1]) as int)
    }
}

/// Time in those of the first `n` columns that count as idle: the fourth
/// and the fifth.
pub open spec fn idle_time(w: Seq<Seq<char>>, n: int) -> int
    decreases n,
{
    if n <= 0 {
        0
    } else if n - 1 == 3 || n - 1 == 4 {
        capped_sum(idle_time(w, n - 1), column_time(w[n - 1]) as int)
    } else {
        idle_time(w, n - 1)
    }
}

/// The total and idle time that the first line of the statistics gives; it
/// must be the line of all processors together.
pub open spec fn stat_times(contents: Seq<char>) -> Option<(int, int)> {
    let l = lines_of(contents);
    if l.len() == 0 || !("cpu "@.is_prefix_of(l[0]) || "cpu\t"@.is_prefix_of(l[0])) {
        None
    } else {
        let w = words_of(l[0]).skip(1);
        Some((total_time(w, w.len() as int), idle_time(w, w.len() as int)))
    }
}

/// Sampler that compares two readings of the processor statistics.
#[derive(Debug)]
pub struct ProcStatCpuSampler {
    pub sample_window_ms: u64,
}

impl ProcStatCpuSampler {
    /// A sampler with a tenth of a second between the readings.
    pub fn new() -> (r: ProcStatCpuSampler)
        ensures
            r.sample_window_ms == 100,
    {
        ProcStatCpuSampler { sample_window_ms: 100 }
    }

    /// Reads the total and idle time from the statistics.
    pub fn read_totals(contents: &str) -> (r: Option<(u64, u64)>)
        ensures
            match r {
                Some((t, i)) => stat_times(contents@) == Some((t as int, i as int)),
                None => stat_times(contents@) is None,
            },
    {
        let chars = chars_of(contents);
        let all = lines(chars.as_slice());
        assert(texts(all@).len() == all@.len());
        if all.len() == 0 {
            return None;
        }
        let line = all[0];
        assert(texts(all@)[0] == line@);
        if !starts_with(line, "cpu ") && !starts_with(line, "cpu\t") {
            return None;
        }
        let w = words(line);
        let ghost cols = texts(w@).skip(1);
        proof {
            lemma_first_word(line@);
        }
        assert(w@.len() == texts(w@).len());
        let mut total: u64 = 0;
        let mut idle: u64 = 0;
        let mut i: usize = 1;
        while i < w.len()
            invariant
                1 <= i <= w@.len(),
                cols == texts(w@).skip(1),
                total == total_time(cols, i - 1),
                idle == idle_time(cols, i - 1),
            decreases w@.len() - i,
        {
            assert(cols[i - 1] == w@[i as int]@);
            let v: u64 = match parse_number(w[i], 10, u64::MAX) {
                Some(v) => v,
                None => 0,
            };
            total = total.saturating_add(v);
            if i == 4 || i == 5 {
                idle = idle.saturating_add(v);
            }
            i += 1;
        }
        Some((total, idle))
    }

    /// How busy the processors were between two readings, in percent. Where
    /// a reading failed or no time has passed, they count as idle.
    pub fn busy_percent(first: Option<(u64, u64)>, second: Option<(u64, u64)>) -> (r: u32)
        requires
            (first is Some && second is Some) ==> busy_time(first->0, second->0) * 100 <= u64::MAX,
        ensures
            r == (match (first, second) {
                (Some(a), Some(b)) => load(a, b),
                _ => 0,
            }),
    {
        match (first, second) {
            (Some((t1, i1)), Some((t2, i2))) => {
                let dt: u64 = t2.saturating_sub(t1);
                let di: u64 = i2.saturating_sub(i1);
                if dt == 0 {
                    return 0;
                }
                let busy: u64 = dt.saturating_sub(di);
                assert(busy == busy_time(first->0, second->0));
                let pct: u64 = (busy * 100) / dt;
                if pct > 100 {
                    100
                } else {
                    pct as u32
                }
            },
            _ => 0,
        }
    }
}

impl Default for ProcStatCpuSampler {
    fn default() -> (r: Self)
        ensures
            r.sample_window_ms == 100,
    {
        ProcStatCpuSampler::new()
    }
}

proof fn lemma_first_word(line: Seq<char>)
    requires
        "cpu "@.is_prefix_of(line) || "cpu\t"@.is_prefix_of(line),
    ensures
        words_of(line).len() >= 1,
{
    reveal_strlit("cpu ");
    reveal_strlit("cpu\t");
    if "cpu "@.is_prefix_of(line) {
        assert(line[0] == "cpu "@[0]);
    } else {
        assert(line[0] == "cpu\t"@[0]);
    }
    assert(line[0] == 'c');
    let f = crate::text::not_space();
    assert(f(line[0]));
    assert(crate::text::scan(line, f, 0) == 0);
}

/// A difference that does not go below zero.
pub open spec fn since(a: u64, b: u64) -> int {
    if b >= a {
        b - a
    } else {
        0
    }
}

/// Busy time between two readings of total and idle time.
pub open spec fn busy_time(a: (u64, u64), b: (u64, u64)) -> int {
    let dt = since(a.0, b.0);
    let di = since(a.1, b.1);
    if dt >= di {
        dt - di
    } else {
        0
    }
}

/// Load between two readings, in percent, at most 100.
pub open spec fn load(a: (u64, u64), b: (u64, u64)) -> int {
    let dt = since(a.0, b.0);
    if dt == 0 {
        0
    } else {
        let pct = (busy_time(a, b) * 100) / dt;
        if pct > 100 {
            100
        } else {
            pct
        }
    }
}

// ---------------------------------------------------------------------
// The scan
// ---------------------------------------------------------------------

/// Counters of the memory scanning module.
#[derive(Debug, Clone, Copy, PartialEq, Eq, Structural)]
pub struct MemoryScannerVitals {
    pub scans_started: u64,
    pub scans_skipped_cpu: u64,
    pub scans_skipped_battery: u64,
    pub regions_enumerated: u64,
    pub regions_scanned: u64,
    pub matches_emitted: u64,
    pub publish_failures: u64,
}

impl Default for MemoryScannerVitals {
    fn default() -> (r: Self)
        ensures
            r == (MemoryScannerVitals {
                scans_started: 0,
                scans_skipped_cpu: 0,
                scans_skipped_battery: 0,
                regions_enumerated: 0,
                regions_scanned: 0,
                matches_emitted: 0,
                publish_failures: 0,
            }),
    {
        MemoryScannerVitals {
            scans_started: 0,
            scans_skipped_cpu: 0,
            scans_skipped_battery: 0,
            regions_enumerated: 0,
            regions_scanned: 0,
            matches_emitted: 0,
            publish_failures: 0,
        }
    }
}

impl MemoryScannerVitals {
    /// Takes note of whether an alert was published.
    pub fn on_published(&mut self, ok: bool)
        ensures
            *final(self) == if ok {
                MemoryScannerVitals {
                    matches_emitted: wrapping_succ(old(self).matches_emitted),
                    ..*old(self)
                }
            } else {
                MemoryScannerVitals {
                    publish_failures: wrapping_succ(old(self).publish_failures),
                    ..*old(self)
                }
            },
    {
        if ok {
            self.matches_emitted = count_up(self.matches_emitted);
        } else {
            self.publish_failures = count_up(self.publish_failures);
        }
    }
}

/// The names that are never scanned: those of the settings, and the agent's
/// own two names always.
pub fn build_allow_list(cfg: &MemoryScannerConfig) -> (r: Vec<String>)
    ensures
        views(r@) == views(cfg.allow_list_processes@) + seq!["sn360-desktop-agent"@, "sda-agent"@],
{
    let mut list = cfg.allow_list_processes.clone();
    assert(views(list@) =~= views(cfg.allow_list_processes@));
    list.push("sn360-desktop-agent".to_owned());
    list.push("sda-agent".to_owned());
    assert(views(list@) =~= views(cfg.allow_list_processes@) + seq![
        "sn360-desktop-agent"@,
        "sda-agent"@,
    ]);
    list
}

/// Processes that are passed over: process 0, the agent's own, and those
/// with a name on the list.
pub open spec fn skipped(handle: ProcessHandle, self_pid: u32, allow: Seq<Seq<char>>) -> bool {
    handle.pid == 0 || handle.pid == self_pid || allow.contains(handle.name@)
}

/// Whether a process is passed over.
pub fn should_skip_pid(handle: &ProcessHandle, self_pid: u32, allow_list: &Vec<String>) -> (r: bool)
    ensures
        r == skipped(*handle, self_pid, views(allow_list@)),
{
    handle.pid == 0 || handle.pid == self_pid || list_has(allow_list, handle.name.as_str())
}

/// Whether a region is scanned.
pub fn is_interesting_region(region: &MemoryRegion) -> (r: bool)
    ensures
        r == region.interesting(),
{
    region.is_interesting()
}

/// How much of a region is read: all of it, or as much as the cap allows.
pub open spec fn read_len(size: usize, cap: usize) -> usize {
    if cap == 0 || size <= cap {
        size
    } else {
        cap
    }
}

/// How much of a region is read. A cap of zero is no cap.
pub fn bounded_read_len(region_size: usize, cap: usize) -> (r: usize)
    ensures
        r == read_len(region_size, cap),
        cap > 0 ==> r <= cap,
        r <= region_size,
{
    if cap == 0 || region_size <= cap {
        region_size
    } else {
        cap
    }
}

/// What keeps a scan from running.
#[derive(Debug, Clone, Copy, PartialEq, Eq, Structural)]
pub enum ScanGate {
    Open,
    Busy,
    OnBattery,
}

/// Whether a scan runs: not while the processors are busier than the
/// threshold, unless that is 100 or more, and not on battery where the
/// settings say so.
pub open spec fn gate_of(cfg: MemoryScannerConfig, busy: u32, power: PowerState) -> ScanGate {
    if cfg.only_when_idle_below_cpu_pct < 100 && busy >= cfg.only_when_idle_below_cpu_pct {
        ScanGate::Busy
    } else if cfg.defer_on_battery && power == PowerState::Battery {
        ScanGate::OnBattery
    } else {
        ScanGate::Open
    }
}

/// Whether a scan runs.
pub fn scan_gate(cfg: &MemoryScannerConfig, busy: u32, power: PowerState) -> (r: ScanGate)
    ensures
        r == gate_of(*cfg, busy, power),
{
    if cfg.only_when_idle_below_cpu_pct < 100 && busy >= cfg.only_when_idle_below_cpu_pct {
        ScanGate::Busy
    } else if cfg.defer_on_battery && power == PowerState::Battery {
        ScanGate::OnBattery
    } else {
        ScanGate::Open
    }
}

/// A counter after `k` more.
pub open spec fn wrapping_plus(n: u64, k: nat) -> int {
    (n + k) % 0x1_0000_0000_0000_0000
}

/// The counters after `found` more interesting regions and what was asked of
/// the host about them: each stretch that went to the matcher counts as a
/// region scanned, each alert as published or as failed.
pub open spec fn counted(before: MemoryScannerVitals, found: nat, asked: Seq<Asked>) -> MemoryScannerVitals {
    MemoryScannerVitals {
        regions_enumerated: wrapping_plus(before.regions_enumerated, found) as u64,
        regions_scanned: wrapping_plus(before.regions_scanned, matched(asked)) as u64,
        matches_emitted: wrapping_plus(before.matches_emitted, raised(asked, true)) as u64,
        publish_failures: wrapping_plus(before.publish_failures, raised(asked, false)) as u64,
        ..before
    }
}

proof fn lemma_wrapping_twice(n: u64, j: nat, k: nat)
    ensures
        0 <= wrapping_plus(n, j) <= u64::MAX,
        wrapping_plus(wrapping_plus(n, j) as u64, k) == wrapping_plus(n, j + k),
{
    vstd::arithmetic::div_mod::lemma_add_mod_noop(n + j, k as int, 0x1_0000_0000_0000_0000);
    vstd::arithmetic::div_mod::lemma_add_mod_noop(
        (n + j) % 0x1_0000_0000_0000_0000,
        k as int,
        0x1_0000_0000_0000_0000,
    );
}

/// What is counted in two goes is counted in one.
proof fn lemma_counted_twice(
    before: MemoryScannerVitals,
    m: nat,
    a: Seq<Asked>,
    n: nat,
    b: Seq<Asked>,
)
    ensures
        counted(counted(before, m, a), n, b) == counted(before, m + n, a + b),
{
    lemma_records_add(a, b);
    lemma_wrapping_twice(before.regions_enumerated, m, n);
    lemma_wrapping_twice(before.regions_scanned, matched(a), matched(b));
    lemma_wrapping_twice(before.matches_emitted, raised(a, true), raised(b, true));
    lemma_wrapping_twice(before.publish_failures, raised(a, false), raised(b, false));
}

/// What is to be read of the first `n` regions: of each interesting one its
/// index and how much of it.
pub open spec fn reads_planned(regions: Seq<MemoryRegion>, cap: usize, n: int) -> Seq<(usize, usize)>
    decreases n,
{
    if n <= 0 {
        Seq::empty()
    } else {
        let front = reads_planned(regions, cap, n - 1);
        if regions[n - 1].interesting() {
            front.push(((n - 1) as usize, read_len(regions[n - 1].size as usize, cap)))
        } else {
            front
        }
    }
}

/// Every planned read is of an interesting region and within the cap.
pub proof fn law_reads_are_bounded(regions: Seq<MemoryRegion>, cap: usize, n: int)
    requires
        0 <= n <= regions.len() <= usize::MAX,
    ensures
        forall|k: int|
            #![trigger reads_planned(regions, cap, n)[k]]
            0 <= k < reads_planned(regions, cap, n).len() ==> {
                let (i, len) = reads_planned(regions, cap, n)[k];
                &&& i < n
                &&& regions[i as int].interesting()
                &&& cap > 0 ==> len <= cap
            },
    decreases n,
{
    if n > 0 {
        law_reads_are_bounded(regions, cap, n - 1);
        let front = reads_planned(regions, cap, n - 1);
        assert forall|k: int|
            #![trigger reads_planned(regions, cap, n)[k]]
            0 <= k < reads_planned(regions, cap, n).len() implies {
            let (i, len) = reads_planned(regions, cap, n)[k];
            &&& i < n
            &&& regions[i as int].interesting()
            &&& cap > 0 ==> len <= cap
        } by {
            if k < front.len() {
                assert(reads_planned(regions, cap, n)[k] == front[k]);
            }
        }
    }
}

/// Plans what is to be read of a process: its interesting regions, in order,
/// and how much of each.
pub fn plan_reads(regions: &Vec<MemoryRegion>, cap: usize) -> (r: Vec<(usize, usize)>)
    ensures
        r@ == reads_planned(regions@, cap, regions@.len() as int),
        forall|k: int| 0 <= k < r@.len() ==> (#[trigger] r@[k]).0 < regions@.len(),
{
    let mut out: Vec<(usize, usize)> = Vec::new();
    let mut i: usize = 0;
    while i < regions.len()
        invariant
            i <= regions@.len(),
            out@ == reads_planned(regions@, cap, i as int),
            forall|k: int| 0 <= k < out@.len() ==> (#[trigger] out@[k]).0 < i,
        decreases regions@.len() - i,
    {
        if is_interesting_region(&regions[i]) {
            out.push((i, bounded_read_len(regions[i].size as usize, cap)));
        }
        i += 1;
    }
    out
}

/// What the alerts of the hits in a region ask of the host: one for each hit,
/// in order; `told` is whether each was published.
pub open spec fn raises(
    handle: ProcessHandle,
    region: MemoryRegion,
    hits: Seq<MemoryMatch>,
    told: Seq<bool>,
) -> Seq<Asked> {
    Seq::new(
        hits.len(),
        |i: int| Asked::Raise { draft: draft_of(handle, region, hits[i]), published: told[i] },
    )
}

/// What came of a planned read.
pub enum Answer {
    /// Nothing was to be read.
    Unasked,
    /// The read failed.
    Refused,
    /// These octets were read, and the matcher found these hits in them; each
    /// raised an alert, which was published or not.
    Seen { bytes: Seq<u8>, hits: Seq<MemoryMatch>, told: Seq<bool> },
}

impl Answer {
    /// What was asked for this answer: the read, what the octets read hold,
    /// and that the alerts be published.
    pub open spec fn asked(self, handle: ProcessHandle, region: MemoryRegion, len: usize) -> Seq<Asked> {
        let pid = handle.pid;
        match self {
            Answer::Unasked => Seq::empty(),
            Answer::Refused => seq![Asked::Read { pid, base: region.base, len, got: None }],
            Answer::Seen { bytes, hits, told } => seq![
                Asked::Read { pid, base: region.base, len, got: Some(bytes) },
                Asked::Match { pid, region, bytes, hits },
            ] + raises(handle, region, hits, told),
        }
    }
}

/// A look at a process: the regions that were listed, `None` where that
/// failed, and what came of each planned read.
pub struct Look {
    pub listing: Option<Seq<MemoryRegion>>,
    pub answers: Seq<Answer>,
}

impl Look {
    /// The regions shown.
    pub open spec fn regions(self) -> Seq<MemoryRegion> {
        match self.listing {
            Some(v) => v,
            None => Seq::empty(),
        }
    }

    /// The reads that the regions call for.
    pub open spec fn plan(self, cap: usize) -> Seq<(usize, usize)> {
        reads_planned(self.regions(), cap, self.regions().len() as int)
    }

    /// The region of the planned read `k`.
    pub open spec fn region(self, cap: usize, k: int) -> MemoryRegion {
        self.regions()[self.plan(cap)[k].0 as int]
    }

    /// Every planned read has its answer: it is made just where it is of at
    /// least one octet, and brings no more than was asked for.
    pub open spec fn fits(self, cap: usize) -> bool {
        &&& self.regions().len() <= usize::MAX
        &&& self.answers.len() == self.plan(cap).len()
        &&& forall|k: int| 0 <= k < self.answers.len() ==> #[trigger] self.answer_fits(cap, k)
    }

    /// Whether the answer to the planned read `k` is in order.
    pub open spec fn answer_fits(self, cap: usize, k: int) -> bool {
        match self.answers[k] {
            Answer::Unasked => self.plan(cap)[k].1 == 0,
            Answer::Refused => self.plan(cap)[k].1 > 0,
            Answer::Seen { bytes, hits, told } => {
                &&& self.plan(cap)[k].1 > 0
                &&& bytes.len() <= self.plan(cap)[k].1
                &&& told.len() == hits.len()
            },
        }
    }

    /// What the first `n` planned reads asked, in order.
    pub open spec fn reads_asked(self, handle: ProcessHandle, cap: usize, n: int) -> Seq<Asked>
        decreases n,
    {
        if n <= 0 {
            Seq::empty()
        } else {
            self.reads_asked(handle, cap, n - 1) + self.answers[n - 1].asked(
                handle,
                self.region(cap, n - 1),
                self.plan(cap)[n - 1].1,
            )
        }
    }

    /// All that the look asked: the regions of the process, then the planned
    /// reads.
    pub open spec fn asked(self, handle: ProcessHandle, cap: usize) -> Seq<Asked> {
        seq![Asked::Enumerate { pid: handle.pid, regions: self.listing }] + self.reads_asked(
            handle,
            cap,
            self.answers.len() as int,
        )
    }

    /// How many interesting regions were found.
    pub open spec fn found(self) -> nat {
        self.answers.len()
    }
}

/// Raises one alert for each hit in a region of a process, in order, and
/// counts which were published.
pub fn raise_alerts<S: MemoryScanner, L: ProcessLister, M: MemoryMatcher, A: AlertSink>(
    host: &mut ScanHost<S, L, M, A>,
    handle: &ProcessHandle,
    region: &MemoryRegion,
    hits: &Vec<MemoryMatch>,
    vitals: &mut MemoryScannerVitals,
) -> (told: Ghost<Seq<bool>>)
    ensures
        final(host).scanner_now() == old(host).scanner_now(),
        final(host).lister_now() == old(host).lister_now(),
        final(host).matcher_now() == old(host).matcher_now(),
        told@.len() == hits@.len(),
        final(host).asked() == old(host).asked() + raises(*handle, *region, hits@, told@),
        *final(vitals) == counted(*old(vitals), 0, raises(*handle, *region, hits@, told@)),
{
    let ghost mut told: Seq<bool> = Seq::empty();
    let mut i: usize = 0;
    assert(raises(*handle, *region, hits@.take(0), told) =~= Seq::empty());
    while i < hits.len()
        invariant
            i <= hits@.len(),
            told.len() == i,
            host.scanner_now() == old(host).scanner_now(),
            host.lister_now() == old(host).lister_now(),
            host.matcher_now() == old(host).matcher_now(),
            host.asked() == old(host).asked() + raises(
                *handle,
                *region,
                hits@.take(i as int),
                told,
            ),
            *vitals == counted(
                *old(vitals),
                0,
                raises(*handle, *region, hits@.take(i as int), told),
            ),
        decreases hits@.len() - i,
    {
        let ghost before = raises(*handle, *region, hits@.take(i as int), told);
        let draft = alert_for(handle, region, &hits[i]);
        let ghost question = draft;
        let ok = host.raise(draft);
        vitals.on_published(ok);
        proof {
            told = told.push(ok);
            let after = raises(*handle, *region, hits@.take(i + 1), told);
            assert(after =~= before.push(Asked::Raise { draft: question, published: ok }));
            assert(after.drop_last() =~= before);
        }
        i += 1;
    }
    assert(hits@.take(i as int) =~= hits@);
    Ghost(told)
}

/// Makes one planned read: `len` octets of an interesting region, where there
/// are any. What was read goes to the matcher, and each hit raises one alert.
fn scan_region<S: MemoryScanner, L: ProcessLister, M: MemoryMatcher, A: AlertSink>(
    host: &mut ScanHost<S, L, M, A>,
    handle: &ProcessHandle,
    region: &MemoryRegion,
    len: usize,
    vitals: &mut MemoryScannerVitals,
) -> (answer: Ghost<Answer>)
    ensures
        final(host).own() == old(host).own(),
        final(host).lister_now() == old(host).lister_now(),
        final(host).asked() == old(host).asked() + answer@.asked(*handle, *region, len),
        *final(vitals) == counted(*old(vitals), 1, answer@.asked(*handle, *region, len)),
        match answer@ {
            Answer::Unasked => len == 0,
            Answer::Refused => len > 0,
            Answer::Seen { bytes, hits, told } => {
                &&& len > 0
                &&& bytes.len() <= len
                &&& told.len() == hits.len()
            },
        },
{
    vitals.regions_enumerated = count_up(vitals.regions_enumerated);
    if len == 0 {
        return Ghost(Answer::Unasked);
    }
    match host.read(handle.pid, region.base, len) {
        Ok(bytes) => {
            vitals.regions_scanned = count_up(vitals.regions_scanned);
            let hits = host.match_bytes(handle.pid, region, bytes.as_slice());
            let ghost two = seq![
                Asked::Read { pid: handle.pid, base: region.base, len, got: Some(bytes@) },
                Asked::Match { pid: handle.pid, region: *region, bytes: bytes@, hits: hits@ },
            ];
            proof {
                assert(two.drop_last() =~= seq![two[0]]);
                assert(two.drop_last().drop_last() =~= Seq::empty());
                assert(matched(two) == 1) by {
                    reveal_with_fuel(matched, 3);
                }
                assert(raised(two, true) == 0 && raised(two, false) == 0) by {
                    reveal_with_fuel(raised, 3);
                }
                assert(host.asked() =~= old(host).asked() + two);
            }
            let told = raise_alerts(host, handle, region, &hits, vitals);
            let ghost more = raises(*handle, *region, hits@, told@);
            proof {
                lemma_counted_twice(*old(vitals), 1, two, 0, more);
                assert(host.asked() =~= old(host).asked() + (two + more));
            }
            Ghost(Answer::Seen { bytes: bytes@, hits: hits@, told: told@ })
        },
        Err(_) => {
            proof {
                let one = Answer::Refused.asked(*handle, *region, len);
                assert(one.drop_last() =~= Seq::empty());
                reveal_with_fuel(matched, 2);
                reveal_with_fuel(raised, 2);
            }
            Ghost(Answer::Refused)
        },
    }
}

/// Scans one process. Its regions are asked for once; then each interesting
/// one is read once, in order, at its base and within the cap, what was read
/// goes to the matcher, and each hit raises one alert before the next region
/// is read. Nothing else is asked. Where the regions cannot be listed, the
/// look shows none.
pub fn scan_process<S: MemoryScanner, L: ProcessLister, M: MemoryMatcher, A: AlertSink>(
    cfg: &MemoryScannerConfig,
    host: &mut ScanHost<S, L, M, A>,
    handle: &ProcessHandle,
    vitals: &mut MemoryScannerVitals,
) -> (look: Ghost<Look>)
    ensures
        final(host).own() == old(host).own(),
        final(host).lister_now() == old(host).lister_now(),
        final(host).asked() == old(host).asked() + look@.asked(*handle, cfg.max_region_bytes),
        look@.fits(cfg.max_region_bytes),
        handle.pid == old(host).own() ==> look@.found() == 0,
        *final(vitals) == counted(
            *old(vitals),
            look@.found(),
            look@.asked(*handle, cfg.max_region_bytes),
        ),
{
    let listed = host.enumerate(handle.pid);
    let ghost cap = cfg.max_region_bytes;
    let ghost listing = shown(listed);
    let ghost mut look = Look { listing, answers: Seq::empty() };
    let regions = match listed {
        Ok(r) => r,
        Err(_) => Vec::new(),
    };
    let plan = plan_reads(&regions, cfg.max_region_bytes);
    let ghost first = host.asked();
    let mut i: usize = 0;
    while i < plan.len()
        invariant
            i <= plan@.len(),
            cap == cfg.max_region_bytes,
            plan@ == reads_planned(regions@, cap, regions@.len() as int),
            forall|k: int| 0 <= k < plan@.len() ==> (#[trigger] plan@[k]).0 < regions@.len(),
            host.own() == old(host).own(),
            host.lister_now() == old(host).lister_now(),
            host.asked() == first + look.reads_asked(*handle, cap, i as int),
            look.listing == listing,
            look.regions() == regions@,
            look.answers.len() == i,
            forall|k: int| 0 <= k < i ==> #[trigger] look.answer_fits(cap, k),
            *vitals == counted(
                *old(vitals),
                i as nat,
                look.reads_asked(*handle, cap, i as int),
            ),
        decreases plan@.len() - i,
    {
        assert(plan@[i as int].0 < regions@.len());
        let (index, len) = plan[i];
        let region = &regions[index];
        let came = scan_region(host, handle, region, len, vitals);
        let ghost answer = came@;
        let ghost before = look;
        proof {
            let step = answer.asked(*handle, *region, len);
            look = Look { listing: before.listing, answers: before.answers.push(answer) };
            lemma_looks_agree(before, look, *handle, cap, i as int);
            lemma_counted_twice(
                *old(vitals),
                i as nat,
                before.reads_asked(*handle, cap, i as int),
                1,
                step,
            );
            assert(look.reads_asked(*handle, cap, i + 1) == before.reads_asked(
                *handle,
                cap,
                i as int,
            ) + step);
        }
        i += 1;
    }
    assert(regions.len() == look.regions().len());
    proof {
        let one = seq![Asked::Enumerate { pid: handle.pid, regions: listing }];
        assert(one.drop_last() =~= Seq::empty());
        reveal_with_fuel(matched, 2);
        reveal_with_fuel(raised, 2);
        lemma_records_add(one, look.reads_asked(*handle, cap, i as int));
    }
    Ghost(look)
}

/// Looks that agree on the regions and on their first answers agree on what
/// these have asked.
proof fn lemma_looks_agree(a: Look, b: Look, handle: ProcessHandle, cap: usize, n: int)
    requires
        a.listing == b.listing,
        n <= a.answers.len(),
        n <= b.answers.len(),
        forall|k: int| 0 <= k < n ==> a.answers[k] == #[trigger] b.answers[k],
    ensures
        a.reads_asked(handle, cap, n) == b.reads_asked(handle, cap, n),
        forall|k: int| 0 <= k < n ==> a.answer_fits(cap, k) == #[trigger] b.answer_fits(cap, k),
    decreases n,
{
    if n > 0 {
        lemma_looks_agree(a, b, handle, cap, n - 1);
        assert(a.answers[n - 1] == b.answers[n - 1]);
    }
}

/// A pass over the host: the processes that were listed, `None` where that
/// failed, and a look at each. The look at a process that is passed over
/// counts for nothing.
pub struct Pass {
    pub listing: Option<Seq<ProcessHandle>>,
    pub looks: Seq<Look>,
}

impl Pass {
    /// The processes shown.
    pub open spec fn processes(self) -> Seq<ProcessHandle> {
        match self.listing {
            Some(v) => v,
            None => Seq::empty(),
        }
    }

    /// Every process has its look.
    pub open spec fn fits(self, cap: usize) -> bool {
        &&& self.looks.len() == self.processes().len()
        &&& forall|k: int| 0 <= k < self.looks.len() ==> (#[trigger] self.looks[k]).fits(cap)
    }

    /// What was asked of the first `n` processes, in order.
    pub open spec fn looks_asked(
        self,
        cap: usize,
        self_pid: u32,
        allow: Seq<Seq<char>>,
        n: int,
    ) -> Seq<Asked>
        decreases n,
    {
        if n <= 0 {
            Seq::empty()
        } else {
            let front = self.looks_asked(cap, self_pid, allow, n - 1);
            if skipped(self.processes()[n - 1], self_pid, allow) {
                front
            } else {
                front + self.looks[n - 1].asked(self.processes()[n - 1], cap)
            }
        }
    }

    /// How many interesting regions the first `n` processes have shown.
    pub open spec fn found(self, self_pid: u32, allow: Seq<Seq<char>>, n: int) -> nat
        decreases n,
    {
        if n <= 0 {
            0
        } else if skipped(self.processes()[n - 1], self_pid, allow) {
            self.found(self_pid, allow, n - 1)
        } else {
            self.found(self_pid, allow, n - 1) + self.looks[n - 1].found()
        }
    }
}

/// Whether a listed process that is not passed over has the number, and the
/// name where one is given.
pub open spec fn to_be_scanned(
    pid: u32,
    name: Option<String>,
    processes: Seq<ProcessHandle>,
    self_pid: u32,
    allow: Seq<Seq<char>>,
) -> bool {
    exists|k: int|
        0 <= k < processes.len() && (#[trigger] processes[k]).pid == pid && (name is Some
            ==> processes[k].name == name->0) && !skipped(processes[k], self_pid, allow)
}

/// Whether a question is about no process, or about one that is to be
/// scanned; an alert also bears its name.
pub open spec fn respects(
    q: Asked,
    processes: Seq<ProcessHandle>,
    self_pid: u32,
    allow: Seq<Seq<char>>,
) -> bool {
    match q {
        Asked::List { .. } => true,
        Asked::Enumerate { pid, .. } => to_be_scanned(pid, None, processes, self_pid, allow),
        Asked::Read { pid, .. } => to_be_scanned(pid, None, processes, self_pid, allow),
        Asked::Match { pid, .. } => to_be_scanned(pid, None, processes, self_pid, allow),
        Asked::Raise { draft, .. } => to_be_scanned(
            draft.pid,
            Some(draft.process_name),
            processes,
            self_pid,
            allow,
        ),
    }
}

/// Whether all questions are about processes that are to be scanned.
pub open spec fn questions_respect(
    asked: Seq<Asked>,
    processes: Seq<ProcessHandle>,
    self_pid: u32,
    allow: Seq<Seq<char>>,
) -> bool {
    forall|i: int|
        0 <= i < asked.len() ==> respects(#[trigger] asked[i], processes, self_pid, allow)
}

/// Whether a question keeps to the cap: a read asks for at least one octet
/// and for no more than the cap allows, and what goes to the matcher was read
/// of an interesting region within the cap. A cap of 0 is none.
pub open spec fn keeps_to_cap(q: Asked, cap: usize) -> bool {
    match q {
        Asked::Read { len, .. } => len > 0 && (cap > 0 ==> len <= cap),
        Asked::Match { region, bytes, .. } => region.interesting() && (cap > 0 ==> bytes.len() <= cap),
        _ => true,
    }
}

/// What a look asks is all about its process and keeps to the cap.
proof fn lemma_reads_asked(look: Look, handle: ProcessHandle, cap: usize, n: int)
    requires
        look.fits(cap),
        n <= look.answers.len(),
    ensures
        forall|i: int|
            #![trigger look.reads_asked(handle, cap, n)[i]]
            0 <= i < look.reads_asked(handle, cap, n).len() ==> {
                let q = look.reads_asked(handle, cap, n)[i];
                &&& q.about() == Some(handle.pid)
                &&& q is Raise ==> q->draft.process_name == handle.name
                &&& keeps_to_cap(q, cap)
            },
    decreases n,
{
    if n > 0 {
        lemma_reads_asked(look, handle, cap, n - 1);
        law_reads_are_bounded(look.regions(), cap, look.regions().len() as int);
        let front = look.reads_asked(handle, cap, n - 1);
        let all = look.reads_asked(handle, cap, n);
        assert(look.answer_fits(cap, n - 1));
        let planned = look.plan(cap)[n - 1];
        assert(look.regions()[planned.0 as int].interesting());
        let step = look.answers[n - 1].asked(handle, look.region(cap, n - 1), planned.1);
        assert forall|i: int|
            #![trigger all[i]]
            0 <= i < all.len() implies {
            let q = all[i];
            &&& q.about() == Some(handle.pid)
            &&& q is Raise ==> q->draft.process_name == handle.name
            &&& keeps_to_cap(q, cap)
        } by {
            if i < front.len() {
                assert(all[i] == front[i]);
            } else {
                assert(all[i] == step[i - front.len()]);
            }
        }
    }
}

/// Nothing is asked about process 0 or about the agent's own process: what a
/// pass asks is about listed processes that are not passed over, and keeps to
/// the cap.
pub proof fn law_only_listed_processes_are_asked_about(
    pass: Pass,
    cap: usize,
    self_pid: u32,
    allow: Seq<Seq<char>>,
    n: int,
)
    requires
        pass.fits(cap),
        n <= pass.processes().len(),
    ensures
        questions_respect(
            pass.looks_asked(cap, self_pid, allow, n),
            pass.processes(),
            self_pid,
            allow,
        ),
        forall|i: int|
            0 <= i < pass.looks_asked(cap, self_pid, allow, n).len() ==> {
                &&& (#[trigger] pass.looks_asked(cap, self_pid, allow, n)[i]).about() is Some
                &&& pass.looks_asked(cap, self_pid, allow, n)[i].about() != Some(0u32)
                &&& pass.looks_asked(cap, self_pid, allow, n)[i].about() != Some(self_pid)
                &&& keeps_to_cap(pass.looks_asked(cap, self_pid, allow, n)[i], cap)
            },
    decreases n,
{
    if n > 0 {
        law_only_listed_processes_are_asked_about(pass, cap, self_pid, allow, n - 1);
        let front = pass.looks_asked(cap, self_pid, allow, n - 1);
        let all = pass.looks_asked(cap, self_pid, allow, n);
        let handle = pass.processes()[n - 1];
        let look = pass.looks[n - 1];
        assert(look.fits(cap));
        lemma_reads_asked(look, handle, cap, look.answers.len() as int);
        let reads = look.reads_asked(handle, cap, look.answers.len() as int);
        assert forall|i: int| 0 <= i < all.len() implies {
            &&& respects(#[trigger] all[i], pass.processes(), self_pid, allow)
            &&& all[i].about() is Some
            &&& all[i].about() != Some(0u32)
            &&& all[i].about() != Some(self_pid)
            &&& keeps_to_cap(all[i], cap)
        } by {
            if i < front.len() {
                assert(all[i] == front[i]);
            } else {
                let at = i - front.len();
                assert(all[i] == look.asked(handle, cap)[at]);
                if at > 0 {
                    assert(all[i] == reads[at - 1]);
                }
                assert(all[i].about() == Some(handle.pid));
                assert(pass.processes()[n - 1].pid == handle.pid);
            }
        }
    }
}

/// Process 0, the agent's own process and those on the list raise no alert,
/// whatever a pass shows.
pub proof fn law_skipped_processes_raise_no_alert(
    asked: Seq<Asked>,
    processes: Seq<ProcessHandle>,
    self_pid: u32,
    allow: Seq<Seq<char>>,
    i: int,
)
    requires
        questions_respect(asked, processes, self_pid, allow),
        0 <= i < asked.len(),
        asked[i] is Raise,
    ensures
        asked[i]->draft.pid != 0,
        asked[i]->draft.pid != self_pid,
        !allow.contains(asked[i]->draft.process_name@),
{
    assert(respects(asked[i], processes, self_pid, allow));
}

/// Passes that agree on the processes and on their first looks agree on what
/// these have asked and shown.
proof fn lemma_passes_agree(
    a: Pass,
    b: Pass,
    cap: usize,
    self_pid: u32,
    allow: Seq<Seq<char>>,
    n: int,
)
    requires
        a.listing == b.listing,
        n <= a.looks.len(),
        n <= b.looks.len(),
        forall|k: int| 0 <= k < n ==> a.looks[k] == #[trigger] b.looks[k],
    ensures
        a.looks_asked(cap, self_pid, allow, n) == b.looks_asked(cap, self_pid, allow, n),
        a.found(self_pid, allow, n) == b.found(self_pid, allow, n),
    decreases n,
{
    if n > 0 {
        lemma_passes_agree(a, b, cap, self_pid, allow, n - 1);
        assert(a.looks[n - 1] == b.looks[n - 1]);
    }
}

/// Whether a pass has asked `asked` of the processes that were listed, and
/// moved the counters from `before` to `after`.
pub open spec fn pass_made(
    cfg: MemoryScannerConfig,
    pass: Pass,
    self_pid: u32,
    allow: Seq<Seq<char>>,
    before: MemoryScannerVitals,
    after: MemoryScannerVitals,
    asked: Seq<Asked>,
) -> bool {
    let n = pass.processes().len() as int;
    &&& pass.fits(cfg.max_region_bytes)
    &&& asked == pass.looks_asked(cfg.max_region_bytes, self_pid, allow, n)
    &&& after == counted(before, pass.found(self_pid, allow, n), asked)
}

/// Scans the processes given: every one that is not passed over is looked at,
/// in order, and nothing is asked about any other.
pub fn scan_processes<S: MemoryScanner, L: ProcessLister, M: MemoryMatcher, A: AlertSink>(
    cfg: &MemoryScannerConfig,
    host: &mut ScanHost<S, L, M, A>,
    processes: &Vec<ProcessHandle>,
    allow_list: &Vec<String>,
    vitals: &mut MemoryScannerVitals,
) -> (looks: Ghost<Seq<Look>>)
    ensures
        final(host).own() == old(host).own(),
        final(host).lister_now() == old(host).lister_now(),
        final(host).asked().len() >= old(host).asked().len(),
        final(host).asked().take(old(host).asked().len() as int) == old(host).asked(),
        pass_made(
            *cfg,
            Pass { listing: Some(processes@), looks: looks@ },
            old(host).own(),
            views(allow_list@),
            *old(vitals),
            *final(vitals),
            final(host).asked().skip(old(host).asked().len() as int),
        ),
        questions_respect(
            final(host).asked().skip(old(host).asked().len() as int),
            processes@,
            old(host).own(),
            views(allow_list@),
        ),
{
    let ghost cap = cfg.max_region_bytes;
    let ghost allow = views(allow_list@);
    let ghost first = host.asked();
    let ghost mut pass = Pass { listing: Some(processes@), looks: Seq::empty() };
    let self_pid = host.self_pid();
    let mut i: usize = 0;
    while i < processes.len()
        invariant
            i <= processes@.len(),
            cap == cfg.max_region_bytes,
            allow == views(allow_list@),
            self_pid == host.own(),
            host.own() == old(host).own(),
            host.lister_now() == old(host).lister_now(),
            host.asked() == first + pass.looks_asked(cap, self_pid, allow, i as int),
            pass.listing == Some(processes@),
            pass.looks.len() == i,
            forall|k: int| 0 <= k < i ==> (#[trigger] pass.looks[k]).fits(cap),
            *vitals == counted(
                *old(vitals),
                pass.found(self_pid, allow, i as int),
                pass.looks_asked(cap, self_pid, allow, i as int),
            ),
        decreases processes@.len() - i,
    {
        let ghost before = pass;
        let ghost mut shown = Look { listing: None, answers: Seq::empty() };
        if !should_skip_pid(&processes[i], self_pid, allow_list) {
            let look = scan_process(cfg, host, &processes[i], vitals);
            proof {
                shown = look@;
                lemma_counted_twice(
                    *old(vitals),
                    before.found(self_pid, allow, i as int),
                    before.looks_asked(cap, self_pid, allow, i as int),
                    shown.found(),
                    shown.asked(processes@[i as int], cap),
                );
            }
        }
        proof {
            pass = Pass { listing: before.listing, looks: before.looks.push(shown) };
            lemma_passes_agree(before, pass, cap, self_pid, allow, i as int);
        }
        i += 1;
    }
    proof {
        law_only_listed_processes_are_asked_about(pass, cap, self_pid, allow, i as int);
        assert(host.asked().skip(first.len() as int) =~= pass.looks_asked(
            cap,
            self_pid,
            allow,
            i as int,
        ));
    }
    Ghost(pass.looks)
}

/// One pass of the scanner. The processes are asked for once; then every one
/// that is not passed over is looked at, in order. Where they cannot be
/// listed, nothing more is asked; a pass that is held back asks nothing at
/// all.
pub fn scan_once<S: MemoryScanner, L: ProcessLister, M: MemoryMatcher, A: AlertSink>(
    cfg: &MemoryScannerConfig,
    host: &mut ScanHost<S, L, M, A>,
    busy: u32,
    power: PowerState,
    allow_list: &Vec<String>,
    vitals: &mut MemoryScannerVitals,
)
    ensures
        final(host).own() == old(host).own(),
        ({
            let started = MemoryScannerVitals {
                scans_started: wrapping_succ(old(vitals).scans_started),
                ..*old(vitals)
            };
            match gate_of(*cfg, busy, power) {
                ScanGate::Busy => {
                    &&& *final(host) == *old(host)
                    &&& *final(vitals) == (MemoryScannerVitals {
                        scans_skipped_cpu: wrapping_succ(started.scans_skipped_cpu),
                        ..started
                    })
                },
                ScanGate::OnBattery => {
                    &&& *final(host) == *old(host)
                    &&& *final(vitals) == (MemoryScannerVitals {
                        scans_skipped_battery: wrapping_succ(started.scans_skipped_battery),
                        ..started
                    })
                },
                ScanGate::Open => exists|
                    listed: Result<Vec<ProcessHandle>, ScanError>,
                    looks: Seq<Look>,
                    asked: Seq<Asked>,
                |
                    {
                        let pass = Pass { listing: shown(listed), looks };
                        &&& call_ensures(L::list, (&old(host).lister_now(),), listed)
                        &&& final(host).asked() == old(host).asked().push(
                            Asked::List { processes: shown(listed) },
                        ) + asked
                        &&& questions_respect(
                            asked,
                            pass.processes(),
                            old(host).own(),
                            views(allow_list@),
                        )
                        &&& #[trigger] pass_made(
                            *cfg,
                            Pass { listing: shown(listed), looks },
                            old(host).own(),
                            views(allow_list@),
                            started,
                            *final(vitals),
                            asked,
                        )
                    },
            }
        }),
{
    vitals.scans_started = count_up(vitals.scans_started);
    match scan_gate(cfg, busy, power) {
        ScanGate::Busy => {
            vitals.scans_skipped_cpu = count_up(vitals.scans_skipped_cpu);
            return ;
        },
        ScanGate::OnBattery => {
            vitals.scans_skipped_battery = count_up(vitals.scans_skipped_battery);
            return ;
        },
        ScanGate::Open => {},
    }
    let ghost started = *vitals;
    let listed = host.list();
    let ghost first = host.asked();
    match listed {
        Ok(processes) => {
            let looks = scan_processes(cfg, host, &processes, allow_list, vitals);
            proof {
                let asked = host.asked().skip(first.len() as int);
                assert(host.asked() =~= first + asked);
                assert(shown(listed) == Some(processes@));
                assert(pass_made(
                    *cfg,
                    Pass { listing: shown(listed), looks: looks@ },
                    old(host).own(),
                    views(allow_list@),
                    started,
                    *vitals,
                    asked,
                ));
            }
        },
        Err(_) => {
            proof {
                assert(pass_made(
                    *cfg,
                    Pass { listing: shown(listed), looks: Seq::empty() },
                    old(host).own(),
                    views(allow_list@),
                    started,
                    *vitals,
                    Seq::<Asked>::empty(),
                ));
            }
        },
    }
}

/// The agent is never scanned under either of its names, whatever the
/// settings say.
pub proof fn law_agent_is_never_scanned(cfg: MemoryScannerConfig, handle: ProcessHandle, self_pid: u32)
    ensures
        ({
            let allow = views(cfg.allow_list_processes@) + seq![
                "sn360-desktop-agent"@,
                "sda-agent"@,
            ];
            &&& handle.name@ == "sn360-desktop-agent"@ ==> skipped(handle, self_pid, allow)
            &&& handle.name@ == "sda-agent"@ ==> skipped(handle, self_pid, allow)
            &&& handle.pid == self_pid ==> skipped(handle, self_pid, allow)
        }),
{
    let own = views(cfg.allow_list_processes@);
    let allow = own + seq!["sn360-desktop-agent"@, "sda-agent"@];
    assert(allow[own.len() as int] == "sn360-desktop-agent"@);
    assert(allow[own.len() as int + 1] == "sda-agent"@);
}

/// A threshold of 100 percent or more lets a scan run however busy the
/// processors are.
pub proof fn law_full_threshold_never_holds_back(cfg: MemoryScannerConfig, busy: u32, power: PowerState)
    requires
        cfg.only_when_idle_below_cpu_pct >= 100,
    ensures
        gate_of(cfg, busy, power) != ScanGate::Busy,
{
}

// ---------------------------------------------------------------------
// Canned parts
// ---------------------------------------------------------------------

/// Lister with canned processes, or none where it is told to fail.
#[derive(Debug)]
pub struct MockProcessLister {
    handles: Vec<ProcessHandle>,
    fail: bool,
}

impl MockProcessLister {
    /// The canned processes.
    pub closed spec fn canned(&self) -> Seq<ProcessHandle> {
        self.handles@
    }

    /// Whether listing fails.
    pub closed spec fn fails(&self) -> bool {
        self.fail
    }

    pub fn new(handles: Vec<ProcessHandle>) -> (r: MockProcessLister)
        ensures
            r.canned() == handles@,
            !r.fails(),
    {
        MockProcessLister { handles, fail: false }
    }

    /// Makes listing fail, or not.
    pub fn set_fail(&mut self, fail: bool)
        ensures
            final(self).fails() == fail,
            final(self).canned() == old(self).canned(),
    {
        self.fail = fail;
    }
}

impl ProcessLister for MockProcessLister {
    fn list(&self) -> (r: Result<Vec<ProcessHandle>, ScanError>)
        ensures
            match r {
                Ok(v) => !self.fails() && v@ == self.canned(),
                Err(e) => self.fails() && e.message@ == "forced failure"@,
            },
    {
        if self.fail {
            return Err(
                ScanError {
                    kind: crate::memory_scanner::ScanErrorKind::Other,
                    message: "forced failure".to_owned(),
                },
            );
        }
        let v = self.handles.clone();
        assert(v@ =~= self.handles@);
        Ok(v)
    }
}

/// Sampler with a canned load.
#[derive(Debug)]
pub struct MockCpuSampler {
    pct: u32,
}

impl MockCpuSampler {
    /// The canned load.
    pub closed spec fn canned(&self) -> u32 {
        self.pct
    }

    pub fn new(pct: u32) -> (r: MockCpuSampler)
        ensures
            r.canned() == pct,
    {
        MockCpuSampler { pct }
    }

    /// Changes the canned load.
    pub fn set(&mut self, pct: u32)
        ensures
            final(self).canned() == pct,
    {
        self.pct = pct;
    }
}

impl CpuSampler for MockCpuSampler {
    fn sample_percent(&self) -> (r: u32)
        ensures
            r == self.canned(),
    {
        self.pct
    }
}

/// Matcher with canned hits for every stretch of memory.
#[derive(Debug)]
pub struct MockMatcher {
    hits: Vec<MemoryMatch>,
    call_count: u64,
}

impl MockMatcher {
    /// The canned hits.
    pub closed spec fn canned(&self) -> Seq<MemoryMatch> {
        self.hits@
    }

    /// How often the matcher was asked.
    pub closed spec fn asked(&self) -> u64 {
        self.call_count
    }

    pub fn new(hits: Vec<MemoryMatch>) -> (r: MockMatcher)
        ensures
            r.canned() == hits@,
            r.asked() == 0,
    {
        MockMatcher { hits, call_count: 0 }
    }

    /// How often the matcher was asked.
    pub fn calls(&self) -> (r: u64)
        ensures
            r == self.asked(),
    {
        self.call_count
    }
}

impl MemoryMatcher for MockMatcher {
    fn match_bytes(&mut self, pid: u32, region: &MemoryRegion, bytes: &[u8]) -> (r: Vec<MemoryMatch>)
        ensures
            r@ == old(self).canned(),
            final(self).canned() == old(self).canned(),
            final(self).asked() == wrapping_succ(old(self).asked()),
    {
        self.call_count = count_up(self.call_count);
        let v = self.hits.clone();
        assert(v@ =~= self.hits@);
        v
    }
}

} // verus!
