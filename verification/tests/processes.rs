use std::collections::HashMap;

use sda_agent::clock::Timestamp;
use sda_agent::dedup::DedupRing;
use sda_agent::lifecycle::{ModuleStatus, RunLoop, RunPhase, RunSignal, STATUS_FAILED, STATUS_RUNNING};
use sda_agent::process_module::{
    ancestor_request, emit_event, event_dedup_key, ProcessMonitorConfig, ProcessMonitorModule,
    ProcessPayload, ProcessPipeline, WireAncestor,
};
use sda_agent::process_monitor::{
    created_event, parse_cmdline, parse_stat, parse_status_uid, process_changes,
    process_number, read_snapshot, terminated_event, walk_ancestors, AncestorWalk, LinuxProcessMonitor,
    MacosProcessMonitor, MockProcessMonitor, ProcEntry, ProcPoller, ProcSnapshot, ProcessAncestor, ProcessEvent,
    ProcessEventStream, ProcessMonitorError, ProcessMonitorOpts, WindowsProcessMonitor,
};

fn now() -> Timestamp {
    Timestamp::from_timestamp(1_700_000_000, 500_000_000).unwrap()
}

fn enabled_cfg() -> ProcessMonitorConfig {
    ProcessMonitorConfig {
        enabled: true,
        parent_chain_depth: 4,
        image_load_events: true,
        event_buffer_size: 64,
        poll_interval_ms: 50,
    }
}

fn created(pid: u32, ppid: u32, name: &str) -> ProcessEvent {
    ProcessEvent::Created {
        pid,
        ppid,
        name: name.to_string(),
        exe_path: Some(format!("/usr/bin/{}", name)),
        cmdline: vec![name.to_string()],
        user: Some("1000".to_string()),
        started_at: now(),
    }
}

fn ancestor(pid: u32, name: &str) -> ProcessAncestor {
    ProcessAncestor { pid, name: name.to_string(), exe_path: None }
}

fn stat_line(pid: u32, name: &str, ppid: u32) -> String {
    format!("{} ({}) R {} 1 1 0 -1 0 0 0 0 0 0 0 0 0 20 0 1 0 0", pid, name, ppid)
}

fn entry(pid: u32, name: &str, ppid: u32) -> ProcEntry {
    ProcEntry { pid, stat: stat_line(pid, name, ppid), exe_path: None }
}

fn snapshot(pid: u32, name: &str, ppid: u32) -> ProcSnapshot {
    let cmdline = format!("{}\0--arg\0", name);
    read_snapshot(
        Some(&stat_line(pid, name, ppid)),
        None,
        Some(cmdline.as_bytes()),
        Some("Uid:\t1000\t1000\t1000\t1000\n"),
    )
    .unwrap()
}

// ---- files of a process ----

#[test]
fn parse_stat_extracts_pid_name_ppid() {
    let stat = "1234 (bash) S 4567 1234 ...";
    let (pid, name, ppid) = parse_stat(stat).unwrap();
    assert_eq!(pid, 1234);
    assert_eq!(name, "bash");
    assert_eq!(ppid, 4567);
}

#[test]
fn parse_stat_handles_names_with_spaces_and_parens() {
    let stat = "9 (my (weird) proc) S 1 9 9 ...";
    let (pid, name, ppid) = parse_stat(stat).unwrap();
    assert_eq!(pid, 9);
    assert_eq!(name, "my (weird) proc");
    assert_eq!(ppid, 1);
}

#[test]
fn parse_stat_rejects_malformed() {
    assert!(parse_stat("").is_none());
    assert!(parse_stat("notapid (foo) R 1").is_none());
    assert!(parse_stat("1 nameWithoutParens R 1").is_none());
}

#[test]
fn files_of_a_process_are_put_together() {
    let p = snapshot(42, "newproc", 1);
    assert_eq!(p.ppid, 1);
    assert_eq!(p.name, "newproc");
    assert_eq!(p.cmdline, vec!["newproc", "--arg"]);
    assert_eq!(p.user.as_deref(), Some("1000"));
    assert_eq!(read_snapshot(None, None, None, None), None);
    let bare = read_snapshot(Some("42 (x) R 1"), Some("/bin/x".to_string()), None, None).unwrap();
    assert!(bare.cmdline.is_empty());
    assert_eq!(bare.user, None);
    assert_eq!(bare.exe_path.as_deref(), Some("/bin/x"));
}

#[test]
fn command_lines_are_split_at_zeros() {
    assert_eq!(parse_cmdline(b"a\0\0b c\0"), vec!["a", "b c"]);
    assert_eq!(parse_cmdline(b"\xffx\0"), vec!["\u{fffd}x"]);
    assert!(parse_cmdline(b"").is_empty());
    assert_eq!(parse_status_uid("Name:\tx\nUid:\t7\t8\t9\t10\n").as_deref(), Some("7"));
    assert_eq!(parse_status_uid("Name:\tx\n"), None);
}

// ---- ancestors ----

#[test]
fn walk_ancestors_reconstructs_chain() {
    let d = vec![
        entry(1, "explorer.exe", 0),
        entry(10, "winword.exe", 1),
        entry(20, "cmd.exe", 10),
        entry(30, "powershell.exe", 20),
    ];
    let ancestors = walk_ancestors(&d, 30, 8);
    let names: Vec<_> = ancestors.iter().map(|a| a.name.as_str()).collect();
    assert_eq!(names, vec!["cmd.exe", "winword.exe", "explorer.exe"]);
}

#[test]
fn walk_ancestors_respects_max_depth() {
    let d = vec![entry(1, "init", 0), entry(2, "a", 1), entry(3, "b", 2), entry(4, "c", 3)];
    let ancestors = walk_ancestors(&d, 4, 2);
    assert_eq!(ancestors.len(), 2);
    assert_eq!(ancestors[0].name, "b");
    assert_eq!(ancestors[1].name, "a");
}

#[test]
fn walk_ancestors_terminates_on_missing_parent() {
    let d = vec![entry(5, "orphan", 999)];
    let ancestors = walk_ancestors(&d, 5, 8);
    assert!(ancestors.is_empty());
}

#[test]
fn walk_asks_for_one_process_after_another() {
    let mut walk = AncestorWalk::begin(Some(&stat_line(3, "b", 2)), 8);
    assert_eq!(walk.next(), Some(2));
    walk.step(Some(&stat_line(2, "a", 1)), Some("/bin/a".to_string()));
    assert_eq!(walk.next(), Some(1));
    walk.step(None, None);
    assert_eq!(walk.next(), None);
    assert_eq!(
        walk.finish(),
        vec![ProcessAncestor { pid: 2, name: "a".to_string(), exe_path: Some("/bin/a".to_string()) }]
    );
    assert_eq!(AncestorWalk::begin(None, 8).next(), None);
}

// ---- polling ----

fn reading(processes: &[(u32, &str, u32)]) -> HashMap<u32, ProcSnapshot> {
    processes.iter().map(|&(pid, name, ppid)| (pid, snapshot(pid, name, ppid))).collect()
}

#[test]
fn poller_emits_created_for_new_pids() {
    let last = reading(&[(1, "init", 0)]);
    let current = reading(&[(1, "init", 0), (42, "newproc", 1)]);
    let changes = process_changes(&last, &current);
    assert_eq!(changes.started, vec![42]);
    assert!(changes.ended.is_empty());
    match created_event(42, &current[&42], now()) {
        ProcessEvent::Created { pid, name, ppid, .. } => {
            assert_eq!(pid, 42);
            assert_eq!(name, "newproc");
            assert_eq!(ppid, 1);
        }
        other => panic!("expected Created, got {:?}", other),
    }
}

#[test]
fn poller_reports_processes_that_are_gone() {
    let last = reading(&[(1, "init", 0), (7, "gone", 1)]);
    let current = reading(&[(1, "init", 0)]);
    let changes = process_changes(&last, &current);
    assert!(changes.started.is_empty());
    assert_eq!(changes.ended, vec![(7, "gone".to_string())]);
    assert_eq!(
        terminated_event(7, "gone".to_string(), now()),
        ProcessEvent::Terminated {
            pid: 7,
            name: "gone".to_string(),
            exit_code: None,
            ended_at: now(),
        }
    );
    let quiet = process_changes(&current, &current);
    assert!(quiet.started.is_empty() && quiet.ended.is_empty());
}

#[test]
fn each_change_is_told_once() {
    let last = reading(&[(1, "init", 0), (5, "a", 1), (6, "b", 1), (7, "c", 1)]);
    let current = reading(&[(1, "init", 0), (7, "d", 1), (8, "e", 1), (9, "f", 1)]);
    let mut changes = process_changes(&last, &current);
    changes.started.sort();
    changes.ended.sort();
    assert_eq!(changes.started, vec![8, 9]);
    assert_eq!(changes.ended, vec![(5, "a".to_string()), (6, "b".to_string())]);
}

#[test]
fn poller_keeps_its_last_good_reading() {
    let mut poller = ProcPoller::start(Err(ProcessMonitorError::Io("gone".to_string())));
    assert!(poller.processes().is_empty());
    let mut first = poller.observe(Ok(reading(&[(1, "init", 0), (7, "sh", 1)]))).unwrap();
    first.started.sort();
    assert_eq!(first.started, vec![1, 7]);
    assert_eq!(poller.processes()[&7].name, "sh");
    let failed = poller.observe(Err(ProcessMonitorError::Io("busy".to_string())));
    assert_eq!(failed.unwrap_err(), ProcessMonitorError::Io("busy".to_string()));
    assert_eq!(poller.processes().len(), 2);
    let last = poller.observe(Ok(reading(&[(9, "ls", 7), (1, "init", 0)]))).unwrap();
    assert_eq!(last.started, vec![9]);
    assert_eq!(last.ended, vec![(7, "sh".to_string())]);
    assert_eq!(poller.processes()[&9].ppid, 7);

    let mut known = ProcPoller::start(Ok(reading(&[(1, "init", 0)])));
    let quiet = known.observe(Ok(reading(&[(1, "init", 0)]))).unwrap();
    assert!(quiet.started.is_empty() && quiet.ended.is_empty());
}

#[test]
fn only_numbers_name_processes() {
    assert_eq!(process_number("42"), Some(42));
    assert_eq!(process_number("+7"), Some(7));
    assert_eq!(process_number("4294967295"), Some(u32::MAX));
    assert_eq!(process_number("4294967296"), None);
    assert_eq!(process_number("self"), None);
    assert_eq!(process_number("-1"), None);
    assert_eq!(process_number(""), None);
}

// ---- events ----

#[test]
fn process_event_pid_getter_matches_variant_field() {
    let created = ProcessEvent::Created {
        pid: 100,
        ppid: 1,
        name: "bash".into(),
        exe_path: None,
        cmdline: vec![],
        user: None,
        started_at: now(),
    };
    let terminated = ProcessEvent::Terminated {
        pid: 200,
        name: "bash".into(),
        exit_code: Some(0),
        ended_at: now(),
    };
    let loaded = ProcessEvent::ImageLoaded {
        pid: 300,
        image_path: "/usr/lib/libc.so".into(),
        image_hash: None,
        loaded_at: now(),
    };
    assert_eq!(created.pid(), 100);
    assert_eq!(terminated.pid(), 200);
    assert_eq!(loaded.pid(), 300);
}

#[test]
fn process_monitor_mock_replays_events_in_order() {
    let events = vec![
        ProcessEvent::Created {
            pid: 1,
            ppid: 0,
            name: "a".into(),
            exe_path: None,
            cmdline: vec![],
            user: None,
            started_at: now(),
        },
        ProcessEvent::Terminated { pid: 1, name: "a".into(), exit_code: Some(0), ended_at: now() },
    ];
    let monitor = MockProcessMonitor::with_events(events);
    let mut stream: ProcessEventStream =
        ProcessEventStream::from_parts(ProcessMonitorOpts::default().channel_buffer, 0);
    for ev in monitor.events() {
        stream.send(ev.clone());
    }
    let first = stream.recv().unwrap();
    assert!(matches!(first, ProcessEvent::Created { pid: 1, .. }));
    let second = stream.recv().unwrap();
    assert!(matches!(second, ProcessEvent::Terminated { pid: 1, .. }));
}

#[test]
fn mock_lookup_ancestors_respects_max_depth() {
    let mut mock = MockProcessMonitor::new();
    mock.set_ancestors(
        42,
        vec![ancestor(41, "cmd.exe"), ancestor(40, "winword.exe"), ancestor(39, "explorer.exe")],
    );
    let two = mock.lookup_ancestors(42, 2).unwrap();
    assert_eq!(two.len(), 2);
    assert_eq!(two[0].name, "cmd.exe");
    assert_eq!(two[1].name, "winword.exe");
}

#[test]
fn dropped_count_increments_on_overflow() {
    let mut stream: ProcessEventStream = ProcessEventStream::from_parts(1, 3);
    assert_eq!(stream.dropped_count(), 3);
    stream.send(created(1, 0, "a"));
    assert_eq!(stream.dropped_count(), 3);
    stream.send(created(2, 0, "b"));
    assert_eq!(stream.dropped_count(), 4);
    assert_eq!(stream.recv(), Some(created(2, 0, "b")));
}

#[test]
fn process_monitor_errors_describe_themselves() {
    assert_eq!(ProcessMonitorError::Io("x".into()).message(), "process monitor IO error: x");
    assert_eq!(
        ProcessMonitorError::Unsupported("x".into()).message(),
        "process monitor unsupported: x"
    );
    assert_eq!(
        ProcessMonitorError::AlreadySubscribed.message(),
        "process monitor already subscribed"
    );
    assert_eq!(
        ProcessMonitorError::Command("x".into()).message(),
        "process monitor command failed: x"
    );
}

#[test]
fn process_monitors_of_other_hosts() {
    let opts = ProcessMonitorOpts::default();
    assert!(WindowsProcessMonitor::new().subscribe(&opts).is_err());
    assert!(MacosProcessMonitor::new().subscribe(&opts).is_err());
    assert!(WindowsProcessMonitor::new().lookup_ancestors(1, 1).is_err());
    assert!(MacosProcessMonitor::new().lookup_ancestors(1, 1).is_err());
    assert_eq!(LinuxProcessMonitor::new().proc_root(), "/proc");
    let fast = ProcessMonitorOpts { poll_interval_ms: 1, ..opts };
    assert_eq!(fast.effective_poll_ms(), 50);
    assert_eq!(opts.effective_poll_ms(), 500);
}

// ---- module ----

#[test]
fn dedup_ring_drops_duplicates_within_window() {
    let mut ring = DedupRing::new(4);
    assert!(ring.insert(1));
    assert!(!ring.insert(1));
    assert!(ring.insert(2));
    assert!(ring.insert(3));
    assert!(ring.insert(4));
    assert!(ring.insert(5));
    assert!(ring.insert(1));
}

#[test]
fn process_monitor_config_defaults_match_phase_e1_spec() {
    let cfg = ProcessMonitorConfig::default();
    assert!(!cfg.enabled);
    assert_eq!(cfg.parent_chain_depth, 8);
    assert!(cfg.image_load_events);
    assert_eq!(cfg.event_buffer_size, 4096);
    assert_eq!(cfg.poll_interval_ms, 500);
    let opts = cfg.subscription();
    assert_eq!(opts, ProcessMonitorOpts::default());
}

#[test]
fn lib_disabled_module_remains_idle_until_shutdown() {
    let mut run = RunLoop::begin(false);
    assert_eq!(run.phase, RunPhase::Idle);
    assert_eq!(run.status, STATUS_RUNNING);
    run.signal(RunSignal::StreamClosed);
    assert_eq!(run.phase, RunPhase::Idle);
    run.signal(RunSignal::Shutdown);
    assert_eq!(run.phase, RunPhase::Ended);
}

#[test]
fn created_event_includes_parent_chain_from_pal() {
    let mut monitor = MockProcessMonitor::new();
    monitor.set_ancestors(42, vec![ancestor(10, "cmd.exe"), ancestor(5, "winword.exe")]);
    monitor.push_event(created(42, 10, "powershell.exe"));
    let ev = monitor.events()[0].clone();
    let (pid, depth) = ancestor_request(&ev, &enabled_cfg()).unwrap();
    let found = monitor.lookup_ancestors(pid, depth).ok();
    match emit_event(ev, &enabled_cfg(), found) {
        Some(ProcessPayload::Created(parsed)) => {
            assert_eq!(parsed.pid, 42);
            assert_eq!(parsed.ppid, 10);
            assert_eq!(parsed.name, "powershell.exe");
            let names: Vec<_> = parsed.parent_chain.iter().map(|a| a.name.as_str()).collect();
            assert_eq!(names, vec!["cmd.exe", "winword.exe"]);
            assert_eq!(parsed.started_at, "2023-11-14T22:13:20.500+00:00");
        }
        other => panic!("expected ProcessCreated, got {:?}", other),
    }
}

#[test]
fn chain_is_not_looked_up_at_depth_zero() {
    let mut cfg = enabled_cfg();
    cfg.parent_chain_depth = 0;
    assert_eq!(ancestor_request(&created(1, 0, "a"), &cfg), None);
    match emit_event(created(1, 0, "a"), &enabled_cfg(), None) {
        Some(ProcessPayload::Created(p)) => assert!(p.parent_chain.is_empty()),
        other => panic!("expected ProcessCreated, got {:?}", other),
    }
}

#[test]
fn terminated_event_publishes_clean_payload() {
    let ev = ProcessEvent::Terminated {
        pid: 99,
        name: "evil.exe".into(),
        exit_code: Some(137),
        ended_at: now(),
    };
    assert_eq!(ancestor_request(&ev, &enabled_cfg()), None);
    match emit_event(ev, &enabled_cfg(), None) {
        Some(ProcessPayload::Terminated(parsed)) => {
            assert_eq!(parsed.pid, 99);
            assert_eq!(parsed.exit_code, Some(137));
        }
        other => panic!("expected ProcessTerminated, got {:?}", other),
    }
}

#[test]
fn image_loaded_event_respects_disabled_flag() {
    let ev = ProcessEvent::ImageLoaded {
        pid: 7,
        image_path: "/usr/lib/libevil.so".into(),
        image_hash: Some("deadbeef".into()),
        loaded_at: now(),
    };
    let mut cfg = enabled_cfg();
    cfg.image_load_events = false;
    assert_eq!(emit_event(ev.clone(), &cfg, None), None);
    match emit_event(ev, &enabled_cfg(), None) {
        Some(ProcessPayload::ImageLoaded(p)) => {
            assert_eq!(p.image_path, "/usr/lib/libevil.so");
            assert_eq!(p.image_hash.as_deref(), Some("deadbeef"));
        }
        other => panic!("expected ImageLoaded, got {:?}", other),
    }
}

#[test]
fn duplicate_created_events_are_collapsed_by_dedup_ring() {
    let mut p = ProcessPipeline::new();
    let ev = created(12, 1, "dup");
    assert!(p.on_event(&ev));
    assert!(!p.on_event(&ev));
    assert!(!p.on_event(&ev));
    assert_eq!(p.vitals().duplicates_dropped, 2);
    p.on_published(true);
    p.on_published(false);
    assert_eq!(p.vitals().events_emitted, 1);
    assert_eq!(p.vitals().publish_failures, 1);
}

#[test]
fn wire_ancestor_is_made_of_an_ancestor() {
    let a = WireAncestor::from(ancestor(1, "init"));
    assert_eq!(a, WireAncestor { pid: 1, name: "init".into(), exe_path: None });
}

#[test]
fn event_dedup_key_stable_for_same_event_in_same_bucket() {
    let a = created(1, 0, "a");
    let b = a.clone();
    assert_eq!(event_dedup_key(&a), event_dedup_key(&b));
    assert_ne!(event_dedup_key(&a), event_dedup_key(&created(2, 0, "a")));
    assert_ne!(
        event_dedup_key(&a),
        event_dedup_key(&terminated_event(1, "a".to_string(), now()))
    );
}

#[test]
fn subscribe_failure_does_not_crash_module() {
    let mut module = ProcessMonitorModule::default();
    assert_eq!(module.name(), "process_monitor");
    assert_eq!(module.status(), ModuleStatus::Initialized);
    let mut run = RunLoop::begin(true);
    run.signal(RunSignal::SubscribeFailed);
    module.set_status(run.status);
    assert_eq!(module.status(), ModuleStatus::Failed);
    run.signal(RunSignal::Shutdown);
    assert_eq!(run.phase, RunPhase::Ended);
    assert_eq!(run.status, STATUS_FAILED);
}
