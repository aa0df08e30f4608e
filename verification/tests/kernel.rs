use sda_agent::kernel::linux_ebpf::{
    attach_to_perf_buffer, detect_ebpf_capability, parse_kernel_version_at_least,
    parse_perf_records, MockLinuxKernelChannel, PerfRecord,
};
use sda_agent::kernel::macos::{
    attach_to_system_extension, parse_xpc_records, MockMacosKernelChannel,
};
use sda_agent::kernel::windows::{
    attach_to_named_pipe, parse_pipe_records, MockWindowsKernelChannel,
};
use sda_agent::kernel::{AttachError, KernelChannel, KernelEvent, NetworkProtocol};

fn pe(pid: u32) -> KernelEvent {
    KernelEvent::ProcessExited { pid, exit_code: 0 }
}

fn pc(pid: u32, ppid: u32, path: &str) -> KernelEvent {
    KernelEvent::ProcessCreated {
        pid,
        ppid,
        uid: 0,
        image_path: Some(path.to_string()),
    }
}

#[test]
fn perf_record_exec_lifts_into_process_created_with_no_image_path() {
    let rec = PerfRecord::Exec {
        pid: 1234,
        ppid: 1,
        uid: 1000,
    };
    let ev = rec.into_kernel_event();
    match ev {
        KernelEvent::ProcessCreated {
            pid,
            ppid,
            uid,
            image_path,
        } => {
            assert_eq!(pid, 1234);
            assert_eq!(ppid, 1);
            assert_eq!(uid, 1000);
            assert!(image_path.is_none());
        }
        other => panic!("expected ProcessCreated, got {other:?}"),
    }
}

#[test]
fn perf_record_connect4_lifts_into_network_connect_with_dotted_ipv4() {
    let rec = PerfRecord::Connect4 {
        pid: 7,
        protocol: NetworkProtocol::Tcp,
        saddr: [10, 0, 0, 5],
        daddr: [1, 1, 1, 1],
        sport: 51000,
        dport: 443,
    };
    match rec.into_kernel_event() {
        KernelEvent::NetworkConnect {
            pid,
            protocol,
            local_addr,
            remote_addr,
            local_port,
            remote_port,
        } => {
            assert_eq!(pid, 7);
            assert!(matches!(protocol, NetworkProtocol::Tcp));
            assert_eq!(local_addr, "10.0.0.5");
            assert_eq!(remote_addr, "1.1.1.1");
            assert_eq!(local_port, 51000);
            assert_eq!(remote_port, 443);
        }
        other => panic!("expected NetworkConnect, got {other:?}"),
    }
}

#[test]
fn kernel_version_predicate_accepts_modern_kernels() {
    assert!(parse_kernel_version_at_least("5.8.0-generic\n", 5, 8));
    assert!(parse_kernel_version_at_least("6.1.0", 5, 8));
    assert!(parse_kernel_version_at_least("5.15.0-105-generic", 5, 8));
}

#[test]
fn kernel_version_predicate_rejects_old_kernels() {
    assert!(!parse_kernel_version_at_least("5.4.0-100-generic\n", 5, 8));
    assert!(!parse_kernel_version_at_least("4.19.0", 5, 8));
}

#[test]
fn kernel_version_predicate_rejects_garbage_input() {
    assert!(!parse_kernel_version_at_least("", 5, 8));
    assert!(!parse_kernel_version_at_least("not-a-kernel-version", 5, 8));
    assert!(!parse_kernel_version_at_least("5", 5, 8));
}

#[test]
fn mock_channel_lifts_perf_records_into_kernel_events() {
    let mut chan = MockLinuxKernelChannel::new();
    chan.set_attached(true);
    chan.push_perf(PerfRecord::Exec {
        pid: 99,
        ppid: 1,
        uid: 1000,
    });
    chan.push_perf(PerfRecord::Exit {
        pid: 99,
        exit_code: 0,
    });
    assert_eq!(chan.pending(), 2);
    assert!(matches!(
        chan.try_recv().unwrap(),
        KernelEvent::ProcessCreated { pid: 99, .. }
    ));
    assert!(matches!(
        chan.try_recv().unwrap(),
        KernelEvent::ProcessExited {
            pid: 99,
            exit_code: 0
        }
    ));
    assert!(chan.try_recv().is_none());
}

#[test]
fn linux_ebpf_attach_without_feature_flag_returns_not_present() {
    for release in [None, Some("4.19.0"), Some("6.1.0-generic\n")] {
        match attach_to_perf_buffer(release) {
            Err(AttachError::NotPresent(_)) => {}
            Err(other) => panic!("expected NotPresent, got {other:?}"),
            Ok(_) => panic!("unexpected success attaching to eBPF perf-buffer in CI"),
        }
    }
}

#[test]
fn mock_channel_drains_queue_in_fifo_order() {
    let mut chan = MockMacosKernelChannel::new();
    chan.set_attached(true);
    chan.push(pe(1));
    chan.push(pe(2));
    chan.push(pe(3));
    assert_eq!(chan.pending(), 3);
    assert!(matches!(
        chan.try_recv().unwrap(),
        KernelEvent::ProcessExited { pid: 1, .. }
    ));
    assert!(matches!(
        chan.try_recv().unwrap(),
        KernelEvent::ProcessExited { pid: 2, .. }
    ));
    assert!(matches!(
        chan.try_recv().unwrap(),
        KernelEvent::ProcessExited { pid: 3, .. }
    ));
    assert!(chan.try_recv().is_none());
}

#[test]
fn mock_channel_starts_detached_so_supervisor_uses_user_mode_es_client() {
    let chan = MockMacosKernelChannel::new();
    assert!(!chan.is_attached());
}

#[test]
fn macos_attach_without_feature_flag_returns_not_present() {
    match attach_to_system_extension() {
        Err(AttachError::NotPresent(_)) => {}
        Err(other) => panic!("expected NotPresent, got {other:?}"),
        Ok(_) => panic!("unexpected success attaching to SystemExtension in CI"),
    }
}

#[test]
fn mock_channel_starts_detached_and_drains_in_order() {
    let mut chan = MockWindowsKernelChannel::new();
    assert!(!chan.is_attached());
    chan.set_attached(true);
    assert!(chan.is_attached());

    chan.push(pc(1, 0, "C:\\a.exe"));
    chan.push(pc(2, 1, "C:\\b.exe"));
    assert_eq!(chan.pending(), 2);

    let first = chan.try_recv().unwrap();
    let second = chan.try_recv().unwrap();
    assert!(matches!(first, KernelEvent::ProcessCreated { pid: 1, .. }));
    assert!(matches!(second, KernelEvent::ProcessCreated { pid: 2, .. }));
    assert!(chan.try_recv().is_none());
}

#[test]
fn attach_without_feature_flag_returns_not_present_so_supervisor_falls_back() {
    match attach_to_named_pipe() {
        Err(AttachError::NotPresent(_)) => {}
        Err(other) => panic!("expected NotPresent, got {other:?}"),
        Ok(_) => panic!("unexpected success attaching to WDK minifilter in CI"),
    }
}

#[test]
fn attach_messages_tell_what_is_missing() {
    assert_eq!(
        attach_to_perf_buffer(Some("4.4.0")).unwrap_err().message(),
        "kernel publisher not present: kernel < 5.8 or CAP_BPF not granted; falling back to cn_proc + audit"
    );
    assert_eq!(
        attach_to_perf_buffer(Some("5.8")).unwrap_err().message(),
        "kernel publisher not present: kernel-linux-ebpf feature not enabled"
    );
    assert_eq!(
        AttachError::Privilege("root".into()).message(),
        "insufficient privilege: root"
    );
    assert_eq!(
        AttachError::Io("pipe".into()).message(),
        "kernel channel io error: pipe"
    );
}

#[test]
fn kernels_of_unknown_release_have_no_capability() {
    assert!(!detect_ebpf_capability(None));
    assert!(!detect_ebpf_capability(Some("5.7.99")));
    assert!(detect_ebpf_capability(Some("5.8")));
    assert!(detect_ebpf_capability(Some(" 6.0-rc1 \n")));
    assert!(!detect_ebpf_capability(Some("99999999999.1")));
}

#[test]
fn records_are_the_lines_that_hold_something() {
    let mut bytes = Vec::new();
    bytes.extend_from_slice(b"\r\n");
    bytes.extend_from_slice(br#"  {"kind":"process_exited","pid":7,"exit_code":0}"#);
    bytes.extend_from_slice(b"\r\n\n");
    bytes.extend_from_slice(b"\xff\xfe\n");
    bytes.extend_from_slice(b"this-is-not-json\n");
    let want = vec![
        r#"{"kind":"process_exited","pid":7,"exit_code":0}"#.to_string(),
        "this-is-not-json".to_string(),
    ];
    let piped = parse_pipe_records(&bytes);
    assert_eq!(piped.iter().flatten().cloned().collect::<Vec<_>>(), want);
    assert_eq!(piped.iter().filter(|r| r.is_none()).count(), 1);
    assert_eq!(parse_xpc_records(&bytes), want);
    assert_eq!(parse_perf_records(&bytes), want);
    assert!(parse_pipe_records(b"").is_empty());
}
