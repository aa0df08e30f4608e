use sda_agent::amsi::{
    amsi_verdict, contains_subslice, content_name_for, utf16_with_nul, CannedAmsiResult, MockAmsiProvider,
    AMSI_RESULT_DETECTED, S_OK,
};
use sda_agent::lifecycle::{ModuleHealth, ModuleStatus, STATUS_FAILED};
use sda_agent::memory_module::{
    alert_for, bounded_read_len, build_allow_list, emit_alert, is_interesting_region, plan_reads,
    raise_alerts, scan_gate, scan_once,
    scan_process, scan_processes, should_skip_pid, AlertDraft, AlertSink, CpuSampler, LinuxProcessLister, MemoryAlertKind,
    MemoryMatch, MemoryMatcher, MemoryScanner, MemoryScannerConfig, MemoryScannerModule, MemoryScannerVitals,
    MockCpuSampler, MockMatcher, MockProcessLister, NoopMatcher, ProcStatCpuSampler, ProcessHandle,
    ProcessLister, ScanGate, UnsupportedProcessLister, ZeroCpuSampler,
};
use sda_agent::memory_scanner::{
    MappingKind, MemoryPermissions, MemoryRegion, MockMemoryScanner, ScanError, ScanErrorKind,
};
use sda_agent::scan_host::ScanHost;
use sda_agent::types::PowerState;

fn rwx() -> MemoryPermissions {
    MemoryPermissions { readable: true, writable: true, executable: true }
}

fn rw() -> MemoryPermissions {
    MemoryPermissions { readable: true, writable: true, executable: false }
}

fn rx() -> MemoryPermissions {
    MemoryPermissions { readable: true, writable: false, executable: true }
}

fn region(base: u64, size: u64, perms: MemoryPermissions, kind: MappingKind) -> MemoryRegion {
    MemoryRegion { base, size, permissions: perms, mapping: kind }
}

fn any_region() -> MemoryRegion {
    region(0x1000, 4096, rwx(), MappingKind::Anonymous)
}

fn yara_hit(rule: &str) -> MemoryMatch {
    MemoryMatch {
        alert_type: MemoryAlertKind::YaraMatch,
        description: format!("yara rule {} matched", rule),
    }
}

fn enabled_cfg() -> MemoryScannerConfig {
    MemoryScannerConfig {
        enabled: true,
        scan_interval_secs: 1,
        only_when_idle_below_cpu_pct: 80,
        allow_list_processes: vec!["sn360-desktop-agent".to_string()],
        yara_rule_source: "trds".to_string(),
        defer_on_battery: false,
        max_region_bytes: 4096,
    }
}

fn handle(pid: u32, name: &str) -> ProcessHandle {
    ProcessHandle { pid, name: name.to_string() }
}

fn with_pid_region(scanner: &mut MockMemoryScanner, pid: u32, r: MemoryRegion, bytes: &[u8]) {
    let base = r.base;
    scanner.set_regions(pid, vec![r]);
    scanner.set_read(pid, base, bytes.to_vec());
}

/// Keeps the alerts; those of a hit named "lost" cannot be published.
#[derive(Default)]
struct Collected {
    drafts: Vec<AlertDraft>,
}

impl AlertSink for Collected {
    fn raise(&mut self, draft: AlertDraft) -> bool {
        let ok = draft.hit != yara_hit("lost");
        self.drafts.push(draft);
        ok
    }
}

struct Scan {
    cfg: MemoryScannerConfig,
    scanner: MockMemoryScanner,
    lister: MockProcessLister,
    busy: u32,
    power: PowerState,
    vitals: MemoryScannerVitals,
}

impl Scan {
    fn of(self_pid: u32, victim: ProcessHandle) -> Scan {
        Scan {
            cfg: enabled_cfg(),
            scanner: MockMemoryScanner::with_self_pid(self_pid),
            lister: MockProcessLister::new(vec![victim]),
            busy: 0,
            power: PowerState::AC,
            vitals: MemoryScannerVitals::default(),
        }
    }

    fn run<M: MemoryMatcher>(&mut self, matcher: M) -> (Vec<AlertDraft>, M) {
        let allow = build_allow_list(&self.cfg);
        let scanner = std::mem::replace(&mut self.scanner, MockMemoryScanner::with_self_pid(0));
        let lister = std::mem::replace(&mut self.lister, MockProcessLister::new(vec![]));
        let mut host = ScanHost::new(scanner, lister, matcher, Collected::default());
        scan_once(&self.cfg, &mut host, self.busy, self.power, &allow, &mut self.vitals);
        let (scanner, lister, matcher, sink) = host.into_parts();
        self.scanner = scanner;
        self.lister = lister;
        (sink.drafts, matcher)
    }
}

// ---- antimalware interface ----

#[test]
fn content_name_round_trips_utf16_nul() {
    let v = content_name_for(
        1234,
        &MemoryRegion {
            base: 0x7fff_1000,
            size: 4096,
            permissions: Default::default(),
            mapping: MappingKind::Anonymous,
        },
    );
    assert_eq!(v.last().copied(), Some(0u16));
    let decoded = String::from_utf16(&v[..v.len() - 1]).unwrap();
    assert_eq!(decoded, "pid=1234@base=0x7fff1000");
}

#[test]
fn content_name_of_the_kernel_is_empty() {
    assert_eq!(content_name_for(0, &any_region()), vec![0u16]);
}

#[test]
fn utf16_text_outside_the_basic_plane_takes_two_units() {
    for s in ["", "plain", "gr\u{fc}n", "\u{ffff}", "\u{10000}", "a\u{1f600}b", "\u{10ffff}"] {
        let mut expected: Vec<u16> = s.encode_utf16().collect();
        expected.push(0);
        assert_eq!(utf16_with_nul(s), expected);
    }
}

#[test]
fn antimalware_result_is_a_hit_from_the_threshold_on() {
    assert!(amsi_verdict(S_OK, AMSI_RESULT_DETECTED - 1).is_empty());
    let hits = amsi_verdict(S_OK, AMSI_RESULT_DETECTED);
    assert_eq!(
        hits,
        vec![MemoryMatch {
            alert_type: MemoryAlertKind::AmsiMatch,
            description: "AMSI detected malicious content (result=32768)".to_string(),
        }]
    );
    assert!(amsi_verdict(-1, AMSI_RESULT_DETECTED).is_empty());
    assert!(amsi_verdict(S_OK, -5).is_empty());
}

#[test]
fn subslice_search() {
    assert!(contains_subslice(b"abcabd", b"abd"));
    assert!(!contains_subslice(b"abcabd", b"abe"));
    assert!(contains_subslice(b"", b""));
    assert!(!contains_subslice(b"ab", b"abc"));
}

#[test]
fn empty_canned_yields_no_hits() {
    let mut p = MockAmsiProvider::new(vec![]);
    assert!(p.match_bytes(99, &any_region(), b"anything").is_empty());
    assert_eq!(p.submissions(), 1);
}

#[test]
fn matching_trigger_yields_amsi_match() {
    let mut p = MockAmsiProvider::new(vec![CannedAmsiResult {
        trigger: b"powershell -enc".to_vec(),
        description: "encoded PowerShell".into(),
    }]);
    let hits = p.match_bytes(99, &any_region(), b"$x = powershell -enc abcdef");
    assert_eq!(hits.len(), 1);
    assert_eq!(hits[0].alert_type, MemoryAlertKind::AmsiMatch);
    assert_eq!(hits[0].description, "encoded PowerShell");
}

#[test]
fn non_matching_trigger_yields_nothing() {
    let mut p = MockAmsiProvider::new(vec![CannedAmsiResult {
        trigger: b"mimikatz".to_vec(),
        description: "credential dumper".into(),
    }]);
    assert!(p.match_bytes(99, &any_region(), b"clean content").is_empty());
}

#[test]
fn empty_trigger_fires_on_every_submission() {
    let mut p = MockAmsiProvider::new(vec![CannedAmsiResult {
        trigger: vec![],
        description: "fire on every submission".into(),
    }]);
    assert_eq!(p.match_bytes(99, &any_region(), b"").len(), 1);
    assert_eq!(p.match_bytes(99, &any_region(), b"anything").len(), 1);
    assert_eq!(p.submissions(), 2);
}

// ---- the module's rules ----

#[test]
fn defaults_match_phase_e4_spec() {
    let cfg = MemoryScannerConfig::default();
    assert!(!cfg.enabled);
    assert_eq!(cfg.scan_interval_secs, 300);
    assert_eq!(cfg.only_when_idle_below_cpu_pct, 20);
    assert_eq!(cfg.allow_list_processes, vec!["sn360-desktop-agent"]);
    assert_eq!(cfg.yara_rule_source, "trds");
    assert!(cfg.defer_on_battery);
    assert_eq!(cfg.max_region_bytes, 4 * 1024 * 1024);
}

#[test]
fn interval_is_at_least_a_second() {
    let mut cfg = enabled_cfg();
    cfg.scan_interval_secs = 0;
    assert_eq!(cfg.effective_interval_secs(), 1);
    cfg.scan_interval_secs = 7;
    assert_eq!(cfg.effective_interval_secs(), 7);
}

#[test]
fn allow_list_always_contains_agent_binary() {
    let cfg = MemoryScannerConfig {
        allow_list_processes: vec!["something_else".to_string()],
        ..MemoryScannerConfig::default()
    };
    let list = build_allow_list(&cfg);
    assert!(list.contains(&"sn360-desktop-agent".to_string()));
    assert!(list.contains(&"sda-agent".to_string()));
    assert!(list.contains(&"something_else".to_string()));
}

#[test]
fn should_skip_pid_excludes_self_kernel_and_allowlist() {
    let allow: Vec<String> = vec!["sn360-desktop-agent".to_string()];
    assert!(should_skip_pid(&handle(0, "init"), 7777, &allow));
    assert!(should_skip_pid(&handle(7777, "any"), 7777, &allow));
    assert!(should_skip_pid(&handle(99, "sn360-desktop-agent"), 7777, &allow));
    assert!(!should_skip_pid(&handle(99, "powershell.exe"), 7777, &allow));
}

#[test]
fn interesting_region_admits_rwx_and_anon_rw_and_jit() {
    assert!(is_interesting_region(&region(0x1000, 4096, rwx(), MappingKind::Anonymous)));
    assert!(is_interesting_region(&region(0x2000, 4096, rw(), MappingKind::Anonymous)));
    assert!(is_interesting_region(&region(0x3000, 4096, rwx(), MappingKind::Jit)));
    assert!(is_interesting_region(&region(
        0x4000,
        4096,
        rwx(),
        MappingKind::FileBacked("/usr/lib/libc.so.6".into())
    )));
}

#[test]
fn interesting_region_rejects_rx_file_and_clean_anonymous_ro() {
    assert!(!is_interesting_region(&region(
        0x1000,
        4096,
        rx(),
        MappingKind::FileBacked("/usr/lib/libc.so.6".into())
    )));
    assert!(is_interesting_region(&region(
        0x2000,
        4096,
        MemoryPermissions { readable: true, writable: false, executable: false },
        MappingKind::Anonymous
    )));
}

#[test]
fn bounded_read_len_caps_at_max_or_region() {
    assert_eq!(bounded_read_len(8192, 4096), 4096);
    assert_eq!(bounded_read_len(2048, 4096), 2048);
    assert_eq!(bounded_read_len(8192, 0), 8192);
}

#[test]
fn reads_are_planned_for_the_interesting_regions() {
    let regions = vec![
        region(0x1000, 8192, rwx(), MappingKind::Anonymous),
        region(0x9000, 4096, rx(), MappingKind::FileBacked("/lib/x".into())),
        region(0xa000, 100, rw(), MappingKind::Anonymous),
    ];
    assert_eq!(plan_reads(&regions, 4096), vec![(0, 4096), (2, 100)]);
}

#[test]
fn unsupported_process_lister_returns_empty_list() {
    let lister = UnsupportedProcessLister {};
    let list = lister.list().unwrap();
    assert!(list.is_empty());
}

#[test]
fn zero_cpu_sampler_returns_zero() {
    assert_eq!(ZeroCpuSampler {}.sample_percent(), 0);
}

#[test]
fn noop_matcher_never_hits() {
    let r = region(0x1000, 4096, rwx(), MappingKind::Anonymous);
    let hits = NoopMatcher {}.match_bytes(99, &r, b"anything");
    assert!(hits.is_empty());
}

#[test]
fn agent_module_trait_surfaces_status_and_health() {
    let mut m = MemoryScannerModule::default();
    assert_eq!(m.name(), "memory_scanner");
    assert_eq!(m.status(), ModuleStatus::Initialized);
    assert_eq!(m.health(), ModuleHealth::Healthy);
    m.set_status(STATUS_FAILED);
    assert_eq!(m.status(), ModuleStatus::Failed);
    assert_eq!(m.health(), ModuleHealth::Unhealthy);
}

#[test]
fn alert_kinds_on_the_wire() {
    assert_eq!(MemoryAlertKind::YaraMatch.as_wire(), "yara_match");
    assert_eq!(MemoryAlertKind::AmsiMatch.as_wire(), "amsi_match");
    assert_eq!(MemoryAlertKind::RwxRegionEnumerated.as_wire(), "rwx_region_enumerated");
}

#[test]
fn gate_looks_at_the_processors_first() {
    let mut cfg = enabled_cfg();
    cfg.defer_on_battery = true;
    assert_eq!(scan_gate(&cfg, 80, PowerState::Battery), ScanGate::Busy);
    assert_eq!(scan_gate(&cfg, 79, PowerState::Battery), ScanGate::OnBattery);
    assert_eq!(scan_gate(&cfg, 79, PowerState::AC), ScanGate::Open);
    cfg.defer_on_battery = false;
    assert_eq!(scan_gate(&cfg, 79, PowerState::Battery), ScanGate::Open);
}

#[test]
fn processes_are_listed_by_number_and_name() {
    assert_eq!(LinuxProcessLister::entry("42", Some("bash\n")), Some(handle(42, "bash")));
    assert_eq!(LinuxProcessLister::entry("self", Some("bash\n")), None);
    assert_eq!(LinuxProcessLister::entry("42", None), Some(handle(42, "")));
}

#[test]
fn processor_load_between_two_readings() {
    let first = ProcStatCpuSampler::read_totals("cpu  100 0 50 800 50 0 0 0 0 0\ncpu0 1 2 3\n");
    let second = ProcStatCpuSampler::read_totals("cpu  150 0 75 850 75 0 0 0 0 0\n");
    assert_eq!(first, Some((1000, 850)));
    assert_eq!(second, Some((1150, 925)));
    assert_eq!(ProcStatCpuSampler::busy_percent(first, second), 50);
    assert_eq!(ProcStatCpuSampler::busy_percent(first, first), 0);
    assert_eq!(ProcStatCpuSampler::busy_percent(None, second), 0);
    assert_eq!(ProcStatCpuSampler::read_totals("intr 1 2 3\n"), None);
}

#[test]
fn canned_processor_load() {
    let mut cpu = MockCpuSampler::new(3);
    assert_eq!(cpu.sample_percent(), 3);
    cpu.set(250);
    assert_eq!(cpu.sample_percent(), 250);
}

// ---- scans ----

#[test]
fn yara_hit_emits_alert_with_canonical_payload() {
    let mut scan = Scan::of(42, handle(99, "victim"));
    with_pid_region(
        &mut scan.scanner,
        99,
        region(0x1000_0000, 8192, rwx(), MappingKind::Anonymous),
        b"shellcode_here",
    );
    let matcher = MockMatcher::new(vec![yara_hit("memscan_demo")]);
    let (mut drafts, _) = scan.run(matcher);
    assert_eq!(drafts.len(), 1);
    let payload = emit_alert(drafts.remove(0), "2026-05-18T00:00:00.000Z".to_string());
    assert_eq!(payload.pid, 99);
    assert_eq!(payload.process_name, "victim");
    assert_eq!(payload.region_base, 0x1000_0000);
    assert_eq!(payload.region_size, 8192);
    assert_eq!(payload.alert_type, MemoryAlertKind::YaraMatch);
    assert!(!payload.description.contains("shellcode_here"));
    assert!(payload.description.contains("memscan_demo"));
    assert_eq!(payload.detected_at, "2026-05-18T00:00:00.000Z");
    assert_eq!(scan.vitals.scans_started, 1);
    assert_eq!(scan.vitals.regions_enumerated, 1);
    assert_eq!(scan.vitals.regions_scanned, 1);
    assert_eq!(scan.vitals.matches_emitted, 1);
    assert_eq!(scan.vitals.publish_failures, 0);
}

#[test]
fn allow_listed_process_is_never_scanned() {
    let mut scan = Scan::of(42, handle(7777, "sn360-desktop-agent"));
    with_pid_region(
        &mut scan.scanner,
        7777,
        region(0xA000, 4096, rwx(), MappingKind::Anonymous),
        b"agent-data",
    );
    let matcher = MockMatcher::new(vec![yara_hit("agent_should_not_fire")]);
    let (drafts, matcher) = scan.run(matcher);
    assert!(drafts.is_empty());
    assert_eq!(matcher.calls(), 0);
}

#[test]
fn self_pid_is_always_excluded_even_if_not_in_allow_list() {
    let mut scan = Scan::of(7777, handle(7777, "renamed-binary"));
    with_pid_region(
        &mut scan.scanner,
        7777,
        region(0xB000, 4096, rwx(), MappingKind::Anonymous),
        b"data",
    );
    let matcher = MockMatcher::new(vec![yara_hit("self_pid_bypass")]);
    let (drafts, matcher) = scan.run(matcher);
    assert!(drafts.is_empty());
    assert_eq!(matcher.calls(), 0);
}

#[test]
fn cpu_above_threshold_skips_scan_window() {
    let mut scan = Scan::of(42, handle(99, "victim"));
    with_pid_region(
        &mut scan.scanner,
        99,
        region(0xC000, 4096, rwx(), MappingKind::Anonymous),
        b"data",
    );
    scan.busy = 90;
    scan.cfg.only_when_idle_below_cpu_pct = 20;
    let matcher = MockMatcher::new(vec![yara_hit("cpu_gate")]);
    let (drafts, matcher) = scan.run(matcher);
    assert!(drafts.is_empty());
    assert_eq!(matcher.calls(), 0);
    assert_eq!(scan.vitals.scans_skipped_cpu, 1);
}

#[test]
fn scan_is_put_off_on_battery() {
    let mut scan = Scan::of(42, handle(99, "victim"));
    with_pid_region(&mut scan.scanner, 99, any_region(), b"data");
    scan.cfg.defer_on_battery = true;
    scan.power = PowerState::Battery;
    let matcher = MockMatcher::new(vec![yara_hit("battery")]);
    let (drafts, matcher) = scan.run(matcher);
    assert!(drafts.is_empty());
    assert_eq!(matcher.calls(), 0);
    assert_eq!(scan.vitals.scans_skipped_battery, 1);
}

#[test]
fn idle_threshold_100_disables_the_cpu_gate() {
    let mut scan = Scan::of(42, handle(99, "victim"));
    with_pid_region(
        &mut scan.scanner,
        99,
        region(0xD000, 4096, rwx(), MappingKind::Anonymous),
        b"hit",
    );
    scan.busy = 99;
    scan.cfg.only_when_idle_below_cpu_pct = 100;
    let matcher = MockMatcher::new(vec![yara_hit("ungated")]);
    assert_eq!(scan.run(matcher).0.len(), 1);
}

#[test]
fn clean_memory_produces_no_alert() {
    let mut scan = Scan::of(42, handle(99, "victim"));
    with_pid_region(
        &mut scan.scanner,
        99,
        region(0xE000, 4096, rwx(), MappingKind::Anonymous),
        b"benign data",
    );
    let matcher = MockMatcher::new(vec![]);
    let (drafts, matcher) = scan.run(matcher);
    assert!(drafts.is_empty());
    assert!(matcher.calls() >= 1);
}

#[test]
fn non_interesting_regions_are_not_scanned() {
    let mut scan = Scan::of(42, handle(99, "victim"));
    with_pid_region(
        &mut scan.scanner,
        99,
        region(0xF000, 4096, rx(), MappingKind::FileBacked("/usr/lib/libc.so.6".into())),
        b"libc",
    );
    with_pid_region(
        &mut scan.scanner,
        99,
        region(0xF1000, 4096, rw(), MappingKind::FileBacked("/var/log/example.dat".into())),
        b"data",
    );
    let matcher = MockMatcher::new(vec![yara_hit("should_not_run")]);
    let (_, matcher) = scan.run(matcher);
    assert_eq!(matcher.calls(), 0);
}

struct LenCapture {
    seen: usize,
}

impl MemoryMatcher for LenCapture {
    fn match_bytes(&mut self, _pid: u32, _region: &MemoryRegion, bytes: &[u8]) -> Vec<MemoryMatch> {
        self.seen = bytes.len();
        Vec::new()
    }
}

#[test]
fn bounded_read_clamps_large_regions() {
    let mut scan = Scan::of(42, handle(99, "victim"));
    let big = region(0x1_0000, 1024 * 1024, rwx(), MappingKind::Anonymous);
    scan.scanner.set_regions(99, vec![big.clone()]);
    scan.scanner.set_read(99, big.base, vec![0xAA; 1024 * 1024]);
    scan.cfg.max_region_bytes = 4096;
    let matcher = LenCapture { seen: 0 };
    let (_, matcher) = scan.run(matcher);
    assert!(matcher.seen > 0 && matcher.seen <= 4096);
}

#[test]
fn process_lister_failure_does_not_crash_module() {
    let mut scan = Scan::of(42, handle(99, "victim"));
    scan.lister = MockProcessLister::new(vec![]);
    scan.lister.set_fail(true);
    assert!(scan.run(NoopMatcher {}).0.is_empty());
}

#[test]
fn one_alert_for_each_hit() {
    let r = region(0x20, 8, rwx(), MappingKind::Jit);
    let lister = MockProcessLister::new(vec![]);
    let scanner = MockMemoryScanner::with_self_pid(1);
    let mut host = ScanHost::new(scanner, lister, NoopMatcher {}, Collected::default());
    let mut vitals = MemoryScannerVitals::default();
    let hits = vec![yara_hit("a"), yara_hit("lost"), yara_hit("b")];
    raise_alerts(&mut host, &handle(5, "p"), &r, &hits, &mut vitals);
    assert_eq!((vitals.matches_emitted, vitals.publish_failures), (2, 1));
    let expected = |rule: &str| AlertDraft {
        pid: 5,
        process_name: "p".to_string(),
        region_base: 0x20,
        region_size: 8,
        hit: yara_hit(rule),
    };
    assert_eq!(host.sink().drafts, vec![expected("a"), expected("lost"), expected("b")]);
    assert_eq!(alert_for(&handle(5, "p"), &r, &yara_hit("c")), expected("c"));
}

#[test]
fn processes_are_scanned_in_order_and_empty_regions_are_not_read() {
    let mut scan = Scan::of(1, handle(10, "first"));
    scan.lister =
        MockProcessLister::new(vec![handle(10, "first"), handle(1, "own"), handle(11, "second")]);
    scan.scanner.set_regions(
        10,
        vec![region(0x1000, 0, rwx(), MappingKind::Anonymous), any_region()],
    );
    scan.scanner.set_read(10, 0x1000, vec![1, 2, 3]);
    with_pid_region(&mut scan.scanner, 1, any_region(), b"own");
    with_pid_region(&mut scan.scanner, 11, any_region(), b"more");
    let matcher = MockMatcher::new(vec![yara_hit("a")]);
    let (alerts, matcher) = scan.run(matcher);
    assert_eq!(alerts.iter().map(|d| d.pid).collect::<Vec<_>>(), vec![10, 11]);
    assert_eq!((scan.vitals.regions_enumerated, scan.vitals.regions_scanned), (3, 2));
    assert_eq!(matcher.calls(), 2);
}

/// Tells every question it was asked. Region 0x3000 cannot be read, and
/// process 13 cannot be listed.
struct Telling {
    asked: Vec<String>,
}

impl MemoryScanner for Telling {
    fn own(&self) -> u32 {
        1
    }

    fn self_pid(&self) -> u32 {
        1
    }

    fn enumerate(&mut self, pid: u32) -> Result<Vec<MemoryRegion>, ScanError> {
        self.asked.push(format!("enumerate {}", pid));
        if pid == 13 {
            return Err(ScanError { kind: ScanErrorKind::NotFound, message: "gone".to_string() });
        }
        Ok(vec![
            region(0x1000, 8192, rwx(), MappingKind::Anonymous),
            region(0x2000, 16, rx(), MappingKind::FileBacked("/usr/lib/libc.so.6".into())),
            region(0x3000, 16, rwx(), MappingKind::Anonymous),
            region(0x4000, 0, rwx(), MappingKind::Anonymous),
            region(0x5000, 2, rwx(), MappingKind::Jit),
        ])
    }

    fn read(&mut self, pid: u32, base: u64, len: usize, buf: &mut [u8]) -> Result<usize, ScanError> {
        self.asked.push(format!("read {} {:#x} {} {}", pid, base, len, buf.len()));
        if base == 0x3000 {
            return Err(ScanError { kind: ScanErrorKind::PermissionDenied, message: "no".to_string() });
        }
        buf[0] = 7;
        Ok(1)
    }
}

struct TellingMatcher {
    asked: Vec<String>,
}

impl MemoryMatcher for TellingMatcher {
    fn match_bytes(&mut self, pid: u32, region: &MemoryRegion, bytes: &[u8]) -> Vec<MemoryMatch> {
        self.asked.push(format!("match {} {:#x} {:?}", pid, region.base, bytes));
        vec![yara_hit("x")]
    }
}

const OF_TEN: [&str; 4] =
    ["enumerate 10", "read 10 0x1000 4096 4096", "read 10 0x3000 16 16", "read 10 0x5000 2 2"];

#[test]
fn a_look_asks_for_the_interesting_regions_once_and_in_order() {
    let lister = MockProcessLister::new(vec![]);
    let mut host = ScanHost::new(
        Telling { asked: vec![] },
        lister,
        TellingMatcher { asked: vec![] },
        Collected::default(),
    );
    let mut vitals = MemoryScannerVitals::default();
    scan_process(&enabled_cfg(), &mut host, &handle(10, "p"), &mut vitals);
    assert_eq!(host.scanner().asked, OF_TEN);
    assert_eq!(host.matcher().asked, ["match 10 0x1000 [7]", "match 10 0x5000 [7]"]);
    let bases = |c: &Collected| c.drafts.iter().map(|d| d.region_base).collect::<Vec<_>>();
    assert_eq!(bases(host.sink()), vec![0x1000, 0x5000]);
    assert_eq!((vitals.regions_enumerated, vitals.regions_scanned), (4, 2));
    assert_eq!((vitals.matches_emitted, vitals.publish_failures), (2, 0));
    scan_process(&enabled_cfg(), &mut host, &handle(13, "q"), &mut vitals);
    assert_eq!(host.scanner().asked.len(), 5);
    assert_eq!(host.sink().drafts.len(), 2);
}

#[test]
fn nothing_is_asked_about_processes_that_are_passed_over() {
    let lister = MockProcessLister::new(vec![]);
    let mut host = ScanHost::new(
        Telling { asked: vec![] },
        lister,
        TellingMatcher { asked: vec![] },
        Collected::default(),
    );
    let mut vitals = MemoryScannerVitals::default();
    let processes = vec![
        handle(0, "kernel"),
        handle(1, "renamed"),
        handle(12, "sn360-desktop-agent"),
        handle(13, "gone"),
        handle(10, "p"),
    ];
    let allow = build_allow_list(&enabled_cfg());
    scan_processes(&enabled_cfg(), &mut host, &processes, &allow, &mut vitals);
    let mut expected = vec!["enumerate 13"];
    expected.extend(OF_TEN);
    assert_eq!(host.scanner().asked, expected);
    let alerts = &host.sink().drafts;
    assert!(alerts.iter().all(|d| d.pid == 10 && d.process_name == "p"));
    assert_eq!(alerts.len(), 2);
}

#[test]
fn a_host_hands_its_parts_a_clear_buffer_and_gives_back_what_was_filled() {
    let lister = MockProcessLister::new(vec![handle(10, "p")]);
    let mut host = ScanHost::new(
        Telling { asked: vec![] },
        lister,
        TellingMatcher { asked: vec![] },
        Collected::default(),
    );
    assert_eq!(host.self_pid(), 1);
    assert_eq!(host.list(), Ok(vec![handle(10, "p")]));
    assert_eq!(host.enumerate(13).unwrap_err().kind, ScanErrorKind::NotFound);
    assert_eq!(host.read(10, 0x1000, 4), Ok(vec![7]));
    assert_eq!(host.read(10, 0x3000, 4).unwrap_err().kind, ScanErrorKind::PermissionDenied);
    assert_eq!(host.match_bytes(10, &any_region(), &[1, 2]), vec![yara_hit("x")]);
    assert!(host.raise(alert_for(&handle(10, "p"), &any_region(), &yara_hit("x"))));
    let (scanner, _, matcher, sink) = host.into_parts();
    assert_eq!(sink.drafts.len(), 1);
    assert_eq!(scanner.asked, ["enumerate 13", "read 10 0x1000 4 4", "read 10 0x3000 4 4"]);
    assert_eq!(matcher.asked, ["match 10 0x1000 [1, 2]"]);
}

#[test]
fn a_scan_that_is_held_back_asks_nothing() {
    let lister = MockProcessLister::new(vec![handle(10, "p")]);
    let mut host = ScanHost::new(
        Telling { asked: vec![] },
        lister,
        TellingMatcher { asked: vec![] },
        Collected::default(),
    );
    let mut vitals = MemoryScannerVitals::default();
    let cfg = enabled_cfg();
    let allow = build_allow_list(&cfg);
    scan_once(&cfg, &mut host, 95, PowerState::AC, &allow, &mut vitals);
    assert!(host.scanner().asked.is_empty() && host.sink().drafts.is_empty());
    scan_once(&cfg, &mut host, 0, PowerState::AC, &allow, &mut vitals);
    assert_eq!(host.sink().drafts.len(), 2);
    assert_eq!(host.scanner().asked, OF_TEN);
    assert_eq!((vitals.scans_started, vitals.scans_skipped_cpu), (2, 1));
}
