use sda_agent::clock::Timestamp;
use sda_agent::dedup::DedupRing;
use sda_agent::dns_monitor::{
    DnsEvent, DnsEventStream, DnsMonitorError, DnsMonitorOpts, DnsQueryType, LinuxDnsMonitor,
    MacosDnsMonitor, MockDnsMonitor, WindowsDnsMonitor,
};
use sda_agent::lifecycle::{
    health_of, status_of, ModuleHealth, ModuleStatus, RunLoop, RunPhase, RunSignal, STATUS_FAILED,
    STATUS_RUNNING, STATUS_STOPPED,
};
use sda_agent::net::IpAddr;
use sda_agent::network_module::{
    connection_dedup_key, dns_dedup_key, emit_dns_event, emit_network_event, DnsMonitorConfig,
    DnsMonitorModule, DnsPipeline, DnsStep, NetworkMonitorConfig, NetworkMonitorModule, NetworkPipeline,
    NetworkStep,
};
use sda_agent::network_monitor::{
    connect_event, direction_for, disconnect_event, key_of, parse_proc_net_line, parse_proc_net_row,
    order_of, proc_net_tables, scan_all, scan_tables, ByteOrder, ConnChange, ConnPoller, ConnectionDirection,
    ConnectionSnapshot, LinuxNetworkMonitor, MacosNetworkMonitor, MockNetworkMonitor, NetworkEvent,
    NetworkEventStream, NetworkMonitorError, NetworkMonitorOpts, TableRead, TransportProtocol,
    WindowsNetworkMonitor,
};
use sda_agent::udp_sampler::{UdpSampler, UDP_SAMPLE_PER_SECOND};

const LOCALHOST: IpAddr = IpAddr::V4(127, 0, 0, 1);

fn little_endian() -> bool {
    1u32.to_ne_bytes()[0] == 1
}

fn at(secs: i64, nanos: u32) -> Timestamp {
    Timestamp::from_timestamp(secs, nanos).unwrap()
}

fn enabled_net_cfg() -> NetworkMonitorConfig {
    NetworkMonitorConfig {
        enabled: true,
        direction_outbound: true,
        direction_inbound: true,
        sample_high_rate_udp: true,
        event_buffer_size: 64,
    }
}

fn connection(remote: IpAddr, port: u16) -> NetworkEvent {
    NetworkEvent::Connect {
        observed_at: at(1_700_000_000, 250_000_000),
        direction: ConnectionDirection::Outbound,
        protocol: TransportProtocol::Tcp,
        local_addr: LOCALHOST,
        local_port: 49000,
        remote_addr: remote,
        remote_port: port,
        pid: Some(4242),
        process_name: Some("curl".into()),
    }
}

fn udp_packet(port: u16, when: Timestamp) -> NetworkEvent {
    NetworkEvent::Connect {
        observed_at: when,
        direction: ConnectionDirection::Outbound,
        protocol: TransportProtocol::Udp,
        local_addr: LOCALHOST,
        local_port: 50000,
        remote_addr: IpAddr::V4(1, 1, 1, 1),
        remote_port: port,
        pid: None,
        process_name: None,
    }
}

fn query(name: &str) -> DnsEvent {
    DnsEvent {
        observed_at: at(1_700_000_000, 0),
        query_name: name.into(),
        query_type: DnsQueryType::A,
        response_ips: vec![IpAddr::V4(1, 2, 3, 4)],
        pid: Some(7777),
        process_name: Some("curl".into()),
    }
}

fn row(remote_port: u16, state: &str) -> ConnectionSnapshot {
    ConnectionSnapshot {
        protocol: TransportProtocol::Tcp,
        local_addr: LOCALHOST,
        local_port: 80,
        remote_addr: IpAddr::V4(10, 0, 0, 1),
        remote_port,
        pid: None,
        process_name: None,
        state: Some(state.to_string()),
    }
}

// ---- repeats ----

#[test]
fn dedup_ring_drops_repeats() {
    let mut r = DedupRing::new(4);
    assert!(r.insert(1));
    assert!(!r.insert(1));
    assert!(r.insert(2));
}

#[test]
fn dedup_ring_forgets_the_oldest_key() {
    let mut r = DedupRing::new(2);
    assert!(r.insert(1));
    assert!(r.insert(2));
    assert!(r.insert(3));
    assert!(r.insert(1));
    assert!(!r.insert(3));
}

#[test]
fn dedup_ring_holds_the_last_keys_let_through() {
    let mut r = DedupRing::new(3);
    for key in [1, 2, 1, 3, 4, 3, 5] {
        r.insert(key);
    }
    for key in [3, 4, 5] {
        assert!(!r.insert(key));
    }
    assert!(r.insert(2));
}

#[test]
fn connection_dedup_key_stable_within_bucket() {
    let a = connection(IpAddr::V4(1, 1, 1, 1), 443);
    let b = a.clone();
    assert_eq!(connection_dedup_key(&a), connection_dedup_key(&b));
}

#[test]
fn dedup_keys_tell_connections_and_tenths_apart() {
    let a = connection(IpAddr::V4(1, 1, 1, 1), 443);
    assert_ne!(
        connection_dedup_key(&a),
        connection_dedup_key(&connection(IpAddr::V4(1, 1, 1, 1), 444))
    );
    assert_ne!(
        connection_dedup_key(&a),
        connection_dedup_key(&connection(IpAddr::V6(1, 1, 1, 1, 0, 0, 0, 0), 443))
    );
    let same = udp_packet(5060, at(100, 10_000_000));
    assert_eq!(
        connection_dedup_key(&same),
        connection_dedup_key(&udp_packet(5060, at(100, 90_000_000)))
    );
    assert_ne!(
        connection_dedup_key(&same),
        connection_dedup_key(&udp_packet(5060, at(100, 110_000_000)))
    );
    assert_eq!(dns_dedup_key(&query("a.example")), dns_dedup_key(&query("a.example")));
    assert_ne!(dns_dedup_key(&query("a.example")), dns_dedup_key(&query("b.example")));
}

// ---- settings ----

#[test]
fn network_monitor_config_defaults_match_phase_e3_spec() {
    let cfg = NetworkMonitorConfig::default();
    assert!(!cfg.enabled);
    assert!(cfg.direction_outbound);
    assert!(cfg.direction_inbound);
    assert!(cfg.sample_high_rate_udp);
    assert_eq!(cfg.event_buffer_size, 8192);
}

#[test]
fn dns_monitor_config_defaults_match_phase_e3_spec() {
    let cfg = DnsMonitorConfig::default();
    assert!(!cfg.enabled);
    assert_eq!(cfg.source, "auto");
}

#[test]
fn settings_become_a_subscription() {
    let mut cfg = enabled_net_cfg();
    cfg.direction_inbound = false;
    let opts = cfg.subscription();
    assert!(opts.outbound);
    assert!(!opts.inbound);
    assert_eq!(opts.channel_buffer, 64);
    assert_eq!(opts.poll_interval_ms, 1000);
    assert_eq!(DnsPipeline::subscription(), DnsMonitorOpts::default());
}

#[test]
fn poll_interval_has_a_floor() {
    let mut opts = NetworkMonitorOpts::default();
    assert_eq!(opts.effective_poll_ms(), 1000);
    opts.poll_interval_ms = 5;
    assert_eq!(opts.effective_poll_ms(), 100);
}

// ---- run loops ----

#[test]
fn disabled_network_module_is_a_noop() {
    let mut run = RunLoop::begin(false);
    assert_eq!(run.phase, RunPhase::Idle);
    assert_eq!(run.status, STATUS_RUNNING);
    run.signal(RunSignal::Subscribed);
    assert_eq!(run.phase, RunPhase::Idle);
    run.signal(RunSignal::Shutdown);
    assert_eq!(run.phase, RunPhase::Ended);
    assert_eq!(run.status, STATUS_STOPPED);
}

#[test]
fn failed_subscription_stays_failed() {
    let mut run = RunLoop::begin(true);
    run.signal(RunSignal::SubscribeFailed);
    assert_eq!(run.phase, RunPhase::Unsubscribed);
    run.signal(RunSignal::Shutdown);
    assert_eq!(run.phase, RunPhase::Ended);
    assert_eq!(run.status, STATUS_FAILED);
}

#[test]
fn closed_stream_waits_for_shutdown() {
    let mut run = RunLoop::begin(true);
    run.signal(RunSignal::Subscribed);
    assert_eq!(run.phase, RunPhase::Receiving);
    run.signal(RunSignal::StreamClosed);
    assert_eq!(run.phase, RunPhase::Drained);
    assert_eq!(run.status, STATUS_RUNNING);
    run.signal(RunSignal::Shutdown);
    assert_eq!(run.status, STATUS_STOPPED);
}

#[test]
fn status_codes() {
    assert_eq!(status_of(0), ModuleStatus::Initialized);
    assert_eq!(status_of(1), ModuleStatus::Running);
    assert_eq!(status_of(2), ModuleStatus::Stopped);
    assert_eq!(status_of(3), ModuleStatus::Failed);
    assert_eq!(status_of(200), ModuleStatus::Initialized);
    assert_eq!(health_of(3), ModuleHealth::Unhealthy);
    assert_eq!(health_of(1), ModuleHealth::Healthy);
}

#[test]
fn network_modules_show_their_status() {
    let mut net = NetworkMonitorModule::default();
    assert_eq!(net.name(), "network_monitor");
    assert_eq!(net.status(), ModuleStatus::Initialized);
    net.set_status(STATUS_FAILED);
    assert_eq!(net.status(), ModuleStatus::Failed);
    assert_eq!(net.health(), ModuleHealth::Unhealthy);
    let mut dns = DnsMonitorModule::default();
    assert_eq!(dns.name(), "dns_monitor");
    dns.set_status(STATUS_RUNNING);
    assert_eq!(dns.status(), ModuleStatus::Running);
    assert_eq!(dns.health(), ModuleHealth::Healthy);
}

// ---- pipelines ----

#[test]
fn connect_event_emits_network_connection_payload() {
    let mut p = NetworkPipeline::new(&enabled_net_cfg());
    match p.on_event(connection(IpAddr::V4(1, 1, 1, 1), 443)) {
        NetworkStep::Publish(p) => {
            assert_eq!(p.remote_addr, "1.1.1.1");
            assert_eq!(p.remote_port, 443);
            assert_eq!(p.direction, "outbound");
            assert_eq!(p.protocol, "tcp");
            assert_eq!(p.pid, Some(4242));
            assert_eq!(p.process_name.as_deref(), Some("curl"));
            assert_eq!(p.local_addr, "127.0.0.1");
            assert_eq!(p.local_port, 49000);
            assert_eq!(p.observed_at, "2023-11-14T22:13:20.250+00:00");
        }
        other => panic!("expected a payload, got {:?}", other),
    }
    p.on_published(true);
    assert_eq!(p.vitals().events_emitted, 1);
}

#[test]
fn duplicate_connect_events_are_collapsed() {
    let mut p = NetworkPipeline::new(&enabled_net_cfg());
    let ev = connection(IpAddr::V4(1, 1, 1, 1), 443);
    assert!(matches!(p.on_event(ev.clone()), NetworkStep::Publish(_)));
    assert_eq!(p.on_event(ev), NetworkStep::Duplicate);
}

#[test]
fn disconnects_are_not_published() {
    let gone = disconnect_event(&key_of(&row(9, "01")), at(5, 0));
    assert_eq!(emit_network_event(gone.clone()), None);
    let mut p = NetworkPipeline::new(&enabled_net_cfg());
    assert_eq!(p.on_event(gone), NetworkStep::Silent);
}

#[test]
fn dns_query_emits_payload_with_query_name() {
    let mut p = DnsPipeline::new();
    match p.on_event(query("evil.example.com")) {
        DnsStep::Publish(p) => {
            assert_eq!(p.query_name, "evil.example.com");
            assert_eq!(p.query_type, "A");
            assert_eq!(p.response_ips, vec!["1.2.3.4"]);
            assert_eq!(p.pid, Some(7777));
        }
        other => panic!("expected a payload, got {:?}", other),
    }
    assert_eq!(p.on_event(query("evil.example.com")), DnsStep::Duplicate);
    p.on_published(false);
    assert_eq!(p.vitals().publish_failures, 1);
    assert_eq!(emit_dns_event(query("x")).observed_at, "2023-11-14T22:13:20+00:00");
}

#[test]
fn record_types_on_the_wire() {
    let names = [
        (DnsQueryType::A, "A"),
        (DnsQueryType::Aaaa, "AAAA"),
        (DnsQueryType::Cname, "CNAME"),
        (DnsQueryType::Mx, "MX"),
        (DnsQueryType::Txt, "TXT"),
        (DnsQueryType::Ns, "NS"),
        (DnsQueryType::Ptr, "PTR"),
        (DnsQueryType::Srv, "SRV"),
        (DnsQueryType::Soa, "SOA"),
        (DnsQueryType::Any, "ANY"),
        (DnsQueryType::Other, "OTHER"),
    ];
    for (t, name) in names {
        assert_eq!(t.as_wire(), name);
    }
}

// ---- sampling ----

#[test]
fn udp_sampler_drops_burst_above_per_second_cap() {
    let mut sampler = UdpSampler::new();
    let ev = udp_packet(5060, at(1_700_000_000, 0));
    for _ in 0..UDP_SAMPLE_PER_SECOND {
        assert!(sampler.should_sample(&ev));
    }
    assert!(!sampler.should_sample(&ev));
}

#[test]
fn udp_sampler_starts_anew_each_second() {
    let mut sampler = UdpSampler::new();
    for _ in 0..UDP_SAMPLE_PER_SECOND {
        assert!(sampler.should_sample(&udp_packet(5060, at(100, 0))));
    }
    assert!(!sampler.should_sample(&udp_packet(5060, at(100, 999_999_999))));
    assert!(sampler.should_sample(&udp_packet(5061, at(100, 0))));
    assert!(sampler.should_sample(&udp_packet(5060, at(101, 0))));
}

#[test]
fn udp_sampler_passes_tcp_unchanged() {
    let mut sampler = UdpSampler::new();
    let ev = connection(IpAddr::V4(1, 1, 1, 1), 443);
    for _ in 0..16 {
        assert!(sampler.should_sample(&ev));
    }
}

#[test]
fn sampled_out_packets_are_not_published() {
    let mut p = NetworkPipeline::new(&enabled_net_cfg());
    let mut out = 0;
    for tenth in 0..6u32 {
        let ev = udp_packet(5060, at(100, tenth * 100_000_000));
        if p.on_event(ev) == NetworkStep::SampledOut {
            out += 1;
        }
    }
    assert_eq!(out, 2);
    let mut cfg = enabled_net_cfg();
    cfg.sample_high_rate_udp = false;
    let mut p = NetworkPipeline::new(&cfg);
    for tenth in 0..6u32 {
        let ev = udp_packet(5060, at(100, tenth * 100_000_000));
        assert!(matches!(p.on_event(ev), NetworkStep::Publish(_)));
    }
}

// ---- connection tables ----

#[test]
fn parse_ipv4_localhost_loopback() {
    let on_le = "  0: 0100007F:0050 00000000:0000 0A 00:00 ...";
    let on_be = "  0: 7F000001:0050 00000000:0000 0A 00:00 ...";
    let line = if little_endian() { on_le } else { on_be };
    let snap = parse_proc_net_line(line, TransportProtocol::Tcp, false).unwrap();
    assert_eq!(snap.local_addr, LOCALHOST);
    assert_eq!(snap.local_port, 0x50);
    assert_eq!(snap.state.as_deref(), Some("0A"));
}

#[test]
fn parse_ipv6_loopback() {
    let on_le = "  0: 00000000000000000000000001000000:0050 \
                 00000000000000000000000000000000:0000 0A 00:00 ...";
    let on_be = "  0: 00000000000000000000000000000001:0050 \
                 00000000000000000000000000000000:0000 0A 00:00 ...";
    let line = if little_endian() { on_le } else { on_be };
    let snap = parse_proc_net_line(line, TransportProtocol::Tcp, true).unwrap();
    assert_eq!(snap.local_addr, IpAddr::V6(0, 0, 0, 0, 0, 0, 0, 1));
    assert_eq!(snap.local_port, 0x50);
}

#[test]
fn rows_are_read_in_either_byte_order() {
    let text: Vec<char> = "0: 0100007F:0050 0200007F:1F90 01".chars().collect();
    let little = parse_proc_net_row(&text, TransportProtocol::Udp, false, ByteOrder::Little).unwrap();
    assert_eq!(little.local_addr, LOCALHOST);
    assert_eq!(little.remote_addr, IpAddr::V4(127, 0, 0, 2));
    let big = parse_proc_net_row(&text, TransportProtocol::Udp, false, ByteOrder::Big).unwrap();
    assert_eq!(big.local_addr, IpAddr::V4(1, 0, 0, 127));
    assert_eq!(big.remote_port, 0x1F90);
}

#[test]
fn parse_rejects_short_lines() {
    assert!(parse_proc_net_line("  0:", TransportProtocol::Tcp, false).is_none());
}

#[test]
fn scan_all_handles_missing_proc_net() {
    let reads =
        vec![TableRead::Missing, TableRead::Missing, TableRead::Missing, TableRead::Missing];
    let out = scan_all(&reads).unwrap();
    assert!(out.is_empty());
}

#[test]
fn scan_all_reads_synthetic_tcp_file() {
    let body = if little_endian() {
        "  sl  local_address rem_address   st\n  0: 0100007F:0050 0100007F:1F90 01 ..."
    } else {
        "  sl  local_address rem_address   st\n  0: 7F000001:0050 7F000001:1F90 01 ..."
    };
    let reads = vec![
        TableRead::Text(body.to_string()),
        TableRead::Missing,
        TableRead::Missing,
        TableRead::Missing,
    ];
    let out = scan_all(&reads).unwrap();
    assert_eq!(out.len(), 1);
    assert_eq!(out[0].local_addr, LOCALHOST);
    assert_eq!(out[0].local_port, 0x50);
    assert_eq!(out[0].remote_port, 0x1F90);
    assert_eq!(out[0].protocol, TransportProtocol::Tcp);
}

#[test]
fn order_is_read_off_the_word_one() {
    assert_eq!(order_of([1, 0, 0, 0]), ByteOrder::Little);
    assert_eq!(order_of([0, 0, 0, 1]), ByteOrder::Big);
    let own = order_of(1u32.to_ne_bytes());
    let word = format!("{:08X}", u32::from_ne_bytes([127, 0, 0, 1]));
    let reads = vec![TableRead::Text(format!("heading\n 0: {}:0050 {}:1F90 01\n", word, word))];
    let rows = scan_all(&reads).unwrap();
    assert_eq!(rows, scan_tables(&reads, own).unwrap());
    assert_eq!(rows[0].local_addr, LOCALHOST);
}

#[test]
fn unreadable_table_is_an_error() {
    let reads = vec![
        TableRead::Missing,
        TableRead::Failed("permission denied".to_string()),
        TableRead::Missing,
        TableRead::Missing,
    ];
    assert_eq!(
        scan_tables(&reads, ByteOrder::Little),
        Err(NetworkMonitorError::Io("permission denied".to_string()))
    );
    assert_eq!(proc_net_tables()[3], ("udp6", TransportProtocol::Udp, true));
}

#[test]
fn direction_classifier_marks_listen_as_inbound() {
    let snap = ConnectionSnapshot {
        protocol: TransportProtocol::Tcp,
        local_addr: IpAddr::V4(0, 0, 0, 0),
        local_port: 22,
        remote_addr: IpAddr::V4(0, 0, 0, 0),
        remote_port: 0,
        pid: None,
        process_name: None,
        state: Some("0A".to_string()),
    };
    assert_eq!(direction_for(&snap), ConnectionDirection::Inbound);
}

#[test]
fn poller_reports_what_changed() {
    let opts = NetworkMonitorOpts::default();
    let mut poller = ConnPoller::start(&Ok(vec![row(1, "01"), row(2, "01")]));
    let next = vec![row(2, "01"), row(3, "01")];
    let found = poller.observe(&next, &opts);
    assert_eq!(
        found,
        vec![
            ConnChange::Opened { index: 1, direction: ConnectionDirection::Outbound },
            ConnChange::Closed { key: key_of(&row(1, "01")) },
        ]
    );
    assert!(poller.observe(&next, &opts).is_empty());
    let ev = connect_event(&next[1], ConnectionDirection::Outbound, at(9, 0));
    assert_eq!(ev.local_port(), 80);
}

#[test]
fn poller_leaves_out_unwanted_directions() {
    let mut opts = NetworkMonitorOpts::default();
    opts.outbound = false;
    let mut poller = ConnPoller::start(&Err(NetworkMonitorError::AlreadySubscribed));
    let found = poller.observe(&vec![row(3, "01"), row(0, "0A")], &opts);
    assert_eq!(
        found,
        vec![ConnChange::Opened { index: 1, direction: ConnectionDirection::Inbound }]
    );
}

#[test]
fn network_monitor_errors_describe_themselves() {
    assert_eq!(
        NetworkMonitorError::Io("gone".into()).message(),
        "network monitor IO error: gone"
    );
    assert_eq!(
        NetworkMonitorError::Unsupported("x".into()).message(),
        "network monitor unsupported: x"
    );
    assert_eq!(
        NetworkMonitorError::AlreadySubscribed.message(),
        "network monitor already subscribed"
    );
    assert_eq!(
        NetworkMonitorError::Command("x".into()).message(),
        "network monitor command failed: x"
    );
    assert_eq!(DnsMonitorError::Io("gone".into()).message(), "dns monitor IO error: gone");
    assert_eq!(DnsMonitorError::AlreadySubscribed.message(), "dns monitor already subscribed");
}

#[test]
fn monitors_that_need_more_than_the_agent_has() {
    let opts = NetworkMonitorOpts::default();
    assert!(matches!(
        WindowsNetworkMonitor::new().subscribe(&opts),
        Err(NetworkMonitorError::Unsupported(_))
    ));
    assert!(matches!(
        MacosNetworkMonitor::new().subscribe(&opts),
        Err(NetworkMonitorError::Unsupported(_))
    ));
    assert_eq!(WindowsNetworkMonitor::new().enumerate_established(), Ok(vec![]));
    assert_eq!(MacosNetworkMonitor::new().enumerate_established(), Ok(vec![]));
    let opts = DnsMonitorOpts::default();
    assert!(LinuxDnsMonitor::new().subscribe(&opts).is_err());
    assert!(WindowsDnsMonitor::new().subscribe(&opts).is_err());
    assert!(MacosDnsMonitor::new().subscribe(&opts).is_err());
    assert_eq!(LinuxNetworkMonitor::default().proc_root(), "/proc");
    assert_eq!(LinuxNetworkMonitor::with_proc_root("/x".to_string()).proc_root(), "/x");
}

// ---- canned monitors ----

#[test]
fn mock_enumerate_round_trips_snapshots() {
    let mut mon = MockNetworkMonitor::new();
    let snap = ConnectionSnapshot {
        protocol: TransportProtocol::Tcp,
        local_addr: LOCALHOST,
        local_port: 22,
        remote_addr: IpAddr::V4(0, 0, 0, 0),
        remote_port: 0,
        pid: None,
        process_name: None,
        state: Some("0A".to_string()),
    };
    mon.set_established(vec![snap.clone()]);
    let got = mon.enumerate_established().unwrap();
    assert_eq!(got, vec![snap]);
}

#[test]
fn network_monitor_mock_replays_events_in_order() {
    let events =
        vec![connection(IpAddr::V4(1, 1, 1, 1), 443), connection(IpAddr::V4(8, 8, 8, 8), 53)];
    let mut mon = MockNetworkMonitor::with_events(events.clone());
    mon.push_event(udp_packet(1, at(0, 0)));
    assert_eq!(mon.events().len(), 3);
    let mut stream: NetworkEventStream = NetworkEventStream::from_parts(8, 0);
    for ev in mon.events() {
        stream.send(ev.clone());
    }
    for expected in events {
        assert_eq!(stream.recv(), Some(expected));
    }
}

#[test]
fn dns_monitor_mock_replays_events_in_order() {
    let events = vec![query("a.example"), query("b.example")];
    let mon = MockDnsMonitor::with_events(events.clone());
    let mut stream: DnsEventStream = DnsEventStream::from_parts(8, 0);
    for ev in mon.events() {
        stream.send(ev.clone());
    }
    for expected in events {
        assert_eq!(stream.recv(), Some(expected));
    }
    assert_eq!(stream.recv(), None);
    let mut empty = MockDnsMonitor::new();
    empty.push_event(query("c.example"));
    assert_eq!(empty.events().len(), 1);
}

#[test]
fn full_stream_loses_the_oldest_event() {
    let mut stream: NetworkEventStream = NetworkEventStream::from_parts(2, 5);
    for port in 1..4 {
        stream.send(connection(LOCALHOST, port));
    }
    assert_eq!(stream.dropped_count(), 6);
    assert_eq!(stream.recv(), Some(connection(LOCALHOST, 2)));
    assert_eq!(stream.recv(), Some(connection(LOCALHOST, 3)));
    assert_eq!(stream.recv(), None);
}

#[test]
fn overrun_is_counted_by_what_did_not_fit() {
    let mut stream: NetworkEventStream = NetworkEventStream::from_parts(3, 10);
    stream.send(connection(LOCALHOST, 1));
    for port in 2..9 {
        stream.send(connection(LOCALHOST, port));
    }
    assert_eq!(stream.dropped_count(), 10 + 7 - 2);
    let mut wrapping: NetworkEventStream = NetworkEventStream::from_parts(1, u64::MAX);
    wrapping.send(connection(LOCALHOST, 1));
    wrapping.send(connection(LOCALHOST, 2));
    assert_eq!(wrapping.dropped_count(), 0);
}

#[test]
fn default_monitors_are_new_ones() {
    assert!(MockDnsMonitor::default().events().is_empty());
    assert!(MockNetworkMonitor::default().events().is_empty());
    let opts = DnsMonitorOpts::default();
    assert!(LinuxDnsMonitor::default().subscribe(&opts).is_err());
    assert!(WindowsDnsMonitor::default().subscribe(&opts).is_err());
    assert!(MacosDnsMonitor::default().subscribe(&opts).is_err());
    let opts = NetworkMonitorOpts::default();
    assert!(WindowsNetworkMonitor::default().subscribe(&opts).is_err());
    assert!(MacosNetworkMonitor::default().subscribe(&opts).is_err());
    assert!(UdpSampler::default().should_sample(&connection(LOCALHOST, 1)));
}

#[test]
fn dns_monitor_opts_default_buffer_is_non_zero() {
    assert!(DnsMonitorOpts::default().channel_buffer > 0);
}

#[test]
fn addresses_as_text() {
    assert_eq!(IpAddr::V4(192, 168, 0, 1).to_text(), "192.168.0.1");
    let segments: [[u16; 8]; 10] = [
        [0, 0, 0, 0, 0, 0, 0, 0],
        [0, 0, 0, 0, 0, 0, 0, 1],
        [0x2001, 0xdb8, 0, 0, 1, 0, 0, 1],
        [0x2001, 0xdb8, 0, 1, 1, 1, 1, 1],
        [0xfe80, 0, 0, 0, 0, 0, 0, 0],
        [0, 0, 0, 0, 0, 0xffff, 0xc0a8, 0x0001],
        [0, 0, 0, 0, 0, 0, 0xc0a8, 0x0001],
        [1, 0, 0, 2, 0, 0, 0, 3],
        [1, 2, 3, 4, 5, 6, 7, 8],
        [0, 1, 0, 1, 0, 1, 0, 0],
    ];
    let texts = [
        "::",
        "::1",
        "2001:db8::1:0:0:1",
        "2001:db8:0:1:1:1:1:1",
        "fe80::",
        "::ffff:192.168.0.1",
        "::c0a8:1",
        "1:0:0:2::3",
        "1:2:3:4:5:6:7:8",
        "0:1:0:1:0:1::",
    ];
    for i in 0..segments.len() {
        let s = segments[i];
        let a = IpAddr::V6(s[0], s[1], s[2], s[3], s[4], s[5], s[6], s[7]);
        assert_eq!(a.to_text(), texts[i]);
        assert!(a.is_ipv6());
    }
}
