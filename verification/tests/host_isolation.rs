use sda_agent::command::CommandLine;
use sda_agent::host_isolation::{
    loopback_cidrs, nft_outcome, normalize_allow_ips, HostIsolationError, IpNet, LinuxHostIsolation,
    MacosHostIsolation, MockHostIsolation, WindowsHostIsolation,
};
use sda_agent::net::IpAddr;

fn v4(a: u8, b: u8, c: u8, d: u8, prefix: u8) -> IpNet {
    IpNet::new(IpAddr::V4(a, b, c, d), prefix).unwrap()
}

fn v6(s: [u16; 8], prefix: u8) -> IpNet {
    IpNet::new(
        IpAddr::V6(s[0], s[1], s[2], s[3], s[4], s[5], s[6], s[7]),
        prefix,
    )
    .unwrap()
}

fn texts(nets: &[IpNet]) -> Vec<String> {
    nets.iter().map(|n| n.to_text()).collect()
}

#[test]
fn loopback_cidrs_contains_v4_and_v6() {
    let lb = loopback_cidrs();
    assert!(lb.iter().any(|n| n.to_text() == "127.0.0.0/8"));
    assert!(lb.iter().any(|n| n.to_text() == "::1/128"));
}

#[test]
fn normalize_always_includes_loopback() {
    let input: Vec<IpNet> = vec![v4(10, 0, 0, 0, 8)];
    let normalized = normalize_allow_ips(&input);
    assert!(normalized.iter().any(|n| n.to_text() == "127.0.0.0/8"));
    assert!(normalized.iter().any(|n| n.to_text() == "::1/128"));
    assert!(normalized.iter().any(|n| n.to_text() == "10.0.0.0/8"));
}

#[test]
fn normalize_dedups() {
    let dup: Vec<IpNet> = vec![v4(127, 0, 0, 0, 8)];
    let normalized = normalize_allow_ips(&dup);
    let count = normalized
        .iter()
        .filter(|n| n.to_text() == "127.0.0.0/8")
        .count();
    assert_eq!(count, 1);
}

#[test]
fn mock_isolate_then_unisolate_round_trip() {
    let mut m = MockHostIsolation::new();
    assert!(!m.is_isolated().unwrap());
    let cp: IpNet = v4(10, 20, 0, 0, 16);
    m.isolate(&vec![cp]).unwrap();
    assert!(m.is_isolated().unwrap());
    let allow = m.current_allowed_ips().unwrap();
    assert!(allow.iter().any(|n| n.to_text() == "10.20.0.0/16"));
    assert!(allow.iter().any(|n| n.to_text() == "127.0.0.0/8"));
    m.unisolate().unwrap();
    assert!(!m.is_isolated().unwrap());
    assert!(m.current_allowed_ips().unwrap().is_empty());
}

#[test]
fn mock_isolate_can_fail_on_demand() {
    let mut m = MockHostIsolation::new();
    m.fail_next_isolate_with(HostIsolationError::Command("simulated".into()));
    let err = m.isolate(&vec![]).expect_err("error");
    assert!(matches!(err, HostIsolationError::Command(_)));
    assert!(!m.is_isolated().unwrap());
}

#[test]
fn mock_unisolate_when_not_isolated_is_noop() {
    let mut m = MockHostIsolation::new();
    m.unisolate().unwrap();
    assert!(!m.is_isolated().unwrap());
}

#[test]
fn isolation_error_serializes_via_display() {
    let e = HostIsolationError::SafetyViolation("missing loopback".into());
    assert!(e.message().contains("safety invariant"));
}

#[test]
fn linux_is_isolated_reads_from_nft_exit_code() {
    let isolated_shim = LinuxHostIsolation::with_nft_path("/bin/true".into());
    assert!(
        isolated_shim.is_isolated(Ok(true)).unwrap(),
        "is_isolated must report `true` when `nft list table` exits 0"
    );

    let not_isolated_shim = LinuxHostIsolation::with_nft_path("/bin/false".into());
    assert!(
        !not_isolated_shim.is_isolated(Ok(false)).unwrap(),
        "is_isolated must report `false` when `nft list table` exits non-zero"
    );
}

#[test]
fn isolation_errors_have_their_texts() {
    assert_eq!(
        HostIsolationError::Io("x".into()).message(),
        "host isolation IO error: x"
    );
    assert_eq!(
        HostIsolationError::Command("x".into()).message(),
        "host isolation command failed: x"
    );
    assert_eq!(
        HostIsolationError::Unsupported("x".into()).message(),
        "host isolation unsupported: x"
    );
    assert_eq!(
        HostIsolationError::SafetyViolation("x".into()).message(),
        "host isolation safety invariant violated: x"
    );
}

#[test]
fn unreadable_listing_is_an_io_error() {
    let l = LinuxHostIsolation::new();
    assert_eq!(
        l.is_isolated(Err("no nft".into())),
        Err(HostIsolationError::Io("no nft".into()))
    );
}

#[test]
fn network_texts_are_those_of_the_crate() {
    assert_eq!(v4(192, 168, 1, 17, 24).to_text(), "192.168.1.17/24");
    assert_eq!(v4(0, 0, 0, 0, 0).to_text(), "0.0.0.0/0");
    assert_eq!(v6([0xfe80, 0, 0, 0, 0, 0, 0, 1], 64).to_text(), "fe80::1/64");
    assert_eq!(
        v6([0, 0, 0, 0, 0, 0xffff, 0x0a00, 0x0001], 128).to_text(),
        "::ffff:10.0.0.1/128"
    );
    for net in [
        v4(10, 0, 0, 0, 8),
        v6([0x2001, 0xdb8, 0, 1, 0, 0, 0, 0], 48),
        v6([1, 0, 0, 2, 0, 0, 0, 3], 128),
    ] {
        let parsed: ipnet::IpNet = net.to_text().parse().unwrap();
        assert_eq!(parsed.to_string(), net.to_text());
        assert_eq!(parsed.prefix_len(), net.prefix_len);
        assert_eq!(parsed.addr().to_string(), net.addr.to_text());
    }
}

#[test]
fn prefixes_that_are_too_long_are_refused() {
    assert!(IpNet::new(IpAddr::V4(1, 2, 3, 4), 33).is_none());
    assert!(IpNet::new(IpAddr::V4(1, 2, 3, 4), 32).is_some());
    assert!(IpNet::new(IpAddr::V6(0, 0, 0, 0, 0, 0, 0, 1), 129).is_none());
    assert!(IpNet::new(IpAddr::V6(0, 0, 0, 0, 0, 0, 0, 1), 128).is_some());
}

#[test]
fn normal_form_is_ordered_by_family_and_text() {
    let input = vec![
        v6([0xfe80, 0, 0, 0, 0, 0, 0, 0], 10),
        v4(9, 0, 0, 0, 8),
        v4(10, 0, 0, 0, 8),
        v4(9, 0, 0, 0, 8),
    ];
    let out = normalize_allow_ips(&input);
    assert_eq!(
        texts(&out),
        vec!["10.0.0.0/8", "127.0.0.0/8", "9.0.0.0/8", "::1/128", "fe80::/10"]
    );
    assert_eq!(normalize_allow_ips(&out), out);
}

#[test]
fn repeated_isolation_has_nothing_to_do() {
    let mut l = LinuxHostIsolation::new();
    let allow = vec![v4(10, 0, 0, 0, 8)];
    let mut run = l.isolate(&allow).unwrap();
    while run.next(l.nft_path()).is_some() {
        run.report(Ok(()));
    }
    l.finish_isolate(run).unwrap();
    assert!(l.isolate(&allow).is_none());
    assert!(l.isolate(&vec![v4(10, 0, 0, 0, 8), v4(127, 0, 0, 0, 8)]).is_none());
    assert!(l.isolate(&vec![]).is_some());
    l.unisolate().unwrap();
    assert!(l.current_allowed_ips().unwrap().is_empty());
    assert!(l.isolate(&allow).is_some());
}

fn args(c: &CommandLine) -> String {
    c.args.join(" ")
}

#[test]
fn isolation_runs_its_commands_in_order() {
    let l = LinuxHostIsolation::with_nft_path("/sbin/nft".into());
    let mut run = l.isolate(&vec![]).unwrap();
    let mut seen: Vec<String> = vec![];
    while let Some(c) = run.next(l.nft_path()) {
        assert_eq!(c.program, "/sbin/nft");
        seen.push(args(&c));
        // The preparing commands may fail.
        run.report(if seen.len() <= 3 {
            Err(HostIsolationError::Command("exists".into()))
        } else {
            Ok(())
        });
    }
    assert_eq!(
        seen,
        vec![
            "add table inet sn360_isolation",
            "add chain inet sn360_isolation input { type filter hook input priority 0 ; policy drop ; }",
            "add chain inet sn360_isolation output { type filter hook output priority 0 ; policy drop ; }",
            "flush table inet sn360_isolation",
            "add rule inet sn360_isolation output ip daddr 127.0.0.0/8 accept",
            "add rule inet sn360_isolation input ip saddr 127.0.0.0/8 accept",
            "add rule inet sn360_isolation output ip6 daddr ::1/128 accept",
            "add rule inet sn360_isolation input ip6 saddr ::1/128 accept",
        ]
    );
}

#[test]
fn refused_rule_takes_the_table_away() {
    let mut l = LinuxHostIsolation::new();
    let mut run = l.isolate(&vec![]).unwrap();
    let mut seen: Vec<String> = vec![];
    while let Some(c) = run.next(l.nft_path()) {
        seen.push(args(&c));
        run.report(if seen.len() == 6 {
            Err(HostIsolationError::Command("denied".into()))
        } else {
            Ok(())
        });
    }
    assert_eq!(seen.len(), 7);
    assert_eq!(seen[6], "delete table inet sn360_isolation");
    assert_eq!(
        l.finish_isolate(run),
        Err(HostIsolationError::Command("denied".into()))
    );
    assert!(l.current_allowed_ips().unwrap().is_empty());
}

#[test]
fn refused_flush_takes_the_table_away() {
    let mut l = LinuxHostIsolation::new();
    let mut run = l.isolate(&vec![]).unwrap();
    let mut seen: Vec<String> = vec![];
    while let Some(c) = run.next(l.nft_path()) {
        seen.push(args(&c));
        run.report(if seen.len() == 4 {
            Err(HostIsolationError::Command("busy".into()))
        } else {
            Ok(())
        });
    }
    assert_eq!(seen.len(), 5);
    assert_eq!(seen[3], "flush table inet sn360_isolation");
    assert_eq!(seen[4], "delete table inet sn360_isolation");
    assert_eq!(l.finish_isolate(run), Err(HostIsolationError::Command("busy".into())));
    assert!(l.isolate(&vec![]).is_some());
}

#[test]
fn table_that_would_not_go_still_ends_the_way() {
    let mut l = LinuxHostIsolation::new();
    let mut run = l.isolate(&vec![]).unwrap();
    let mut seen: Vec<String> = vec![];
    while let Some(c) = run.next(l.nft_path()) {
        seen.push(args(&c));
        run.report(Err(HostIsolationError::Command(format!("no {}", seen.len()))));
    }
    assert_eq!(seen.len(), 5);
    assert_eq!(l.finish_isolate(run), Err(HostIsolationError::Command("no 4".into())));
    assert!(l.current_allowed_ips().unwrap().is_empty());
    assert_eq!(l.is_isolated(Ok(true)), Ok(true));
    assert!(l.isolate(&vec![]).is_some());
}

#[test]
fn list_and_unisolate_commands() {
    let l = LinuxHostIsolation::new();
    assert_eq!(l.list_command().program, "nft");
    assert_eq!(args(&l.list_command()), "list table inet sn360_isolation");
    assert_eq!(args(&l.unisolate_command()), "delete table inet sn360_isolation");
}

#[test]
fn stub_providers_keep_their_state() {
    let mut w = WindowsHostIsolation::new();
    w.isolate(&vec![v4(10, 0, 0, 0, 8)]).unwrap();
    assert_eq!(w.is_isolated(), Ok(true));
    assert_eq!(w.current_allowed_ips().unwrap().len(), 3);
    w.unisolate().unwrap();
    assert_eq!(w.is_isolated(), Ok(false));
    let mut m = MacosHostIsolation::new();
    m.isolate(&vec![]).unwrap();
    assert_eq!(m.current_allowed_ips().unwrap().len(), 2);
    m.unisolate().unwrap();
    assert!(m.current_allowed_ips().unwrap().is_empty());
}

#[test]
fn failed_filter_commands_are_told_by_their_complaint() {
    assert!(nft_outcome(true, b"noise").is_ok());
    match nft_outcome(false, b"no such \xff table") {
        Err(HostIsolationError::Command(m)) => assert_eq!(m, "no such \u{fffd} table"),
        other => panic!("expected a failure, got {:?}", other),
    }
}
