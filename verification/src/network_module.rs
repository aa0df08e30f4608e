//! Network and DNS telemetry modules: what they publish of the events that
//! the monitors hand them.

use crate::clock::Timestamp;
use crate::dedup::{window_after, DedupRing};
use crate::dns_monitor::{DnsEvent, DnsMonitorOpts};
use crate::lifecycle::{health_of, status_of, status_spec, ModuleHealth, ModuleStatus};
use crate::lifecycle::{STATUS_FAILED, STATUS_INITIALIZED};
use crate::net::IpAddr;
use crate::network_monitor::{
    ConnKey, ConnectionDirection, NetworkEvent, NetworkMonitorOpts, TransportProtocol,
};
use crate::stream::{count_up, wrapping_succ};
use crate::text::{lemma_views_push, opt_view, views};
use crate::udp_sampler::{counts_toward_limit, sample_step, UdpSampler};
use std::collections::hash_map::DefaultHasher;
use std::hash::Hasher;
use vstd::prelude::*;
use vstd::std_specs::hash::*;
use vstd::string::*;

verus! {

// ---------------------------------------------------------------------
// Configuration
// ---------------------------------------------------------------------

/// Settings of the network module.
#[derive(Debug, Clone, Copy, PartialEq, Eq, Structural)]
pub struct NetworkMonitorConfig {
    pub enabled: bool,
    pub direction_outbound: bool,
    pub direction_inbound: bool,
    pub sample_high_rate_udp: bool,
    pub event_buffer_size: usize,
}

impl Default for NetworkMonitorConfig {
    fn default() -> (r: Self)
        ensures
            r == (NetworkMonitorConfig {
                enabled: false,
                direction_outbound: true,
                direction_inbound: true,
                sample_high_rate_udp: true,
                event_buffer_size: 8192,
            }),
    {
        NetworkMonitorConfig {
            enabled: false,
            direction_outbound: true,
            direction_inbound: true,
            sample_high_rate_udp: true,
            event_buffer_size: 8192,
        }
    }
}

impl NetworkMonitorConfig {
    /// The subscription that the settings ask for.
    pub fn subscription(&self) -> (r: NetworkMonitorOpts)
        ensures
            r == (NetworkMonitorOpts {
                outbound: self.direction_outbound,
                inbound: self.direction_inbound,
                sample_high_rate_udp: self.sample_high_rate_udp,
                channel_buffer: self.event_buffer_size,
                poll_interval_ms: 1000,
            }),
    {
        NetworkMonitorOpts {
            outbound: self.direction_outbound,
            inbound: self.direction_inbound,
            sample_high_rate_udp: self.sample_high_rate_udp,
            channel_buffer: self.event_buffer_size,
            poll_interval_ms: 1000,
        }
    }
}

/// Settings of the DNS module.
#[derive(Debug, Clone, PartialEq, Eq)]
pub struct DnsMonitorConfig {
    pub enabled: bool,
    pub source: String,
}

impl Default for DnsMonitorConfig {
    fn default() -> (r: Self)
        ensures
            !r.enabled,
            r.source@ == "auto"@,
    {
        DnsMonitorConfig { enabled: false, source: "auto".to_owned() }
    }
}

// ---------------------------------------------------------------------
// Module handles
// ---------------------------------------------------------------------

/// Handle of the network module.
#[derive(Debug)]
pub struct NetworkMonitorModule {
    status: u8,
}

impl NetworkMonitorModule {
    /// The stored status code.
    pub closed spec fn code(&self) -> u8 {
        self.status
    }

    pub fn name(&self) -> (r: &'static str)
        ensures
            r@ == "network_monitor"@,
    {
        "network_monitor"
    }

    /// Stores a status code.
    pub fn set_status(&mut self, code: u8)
        ensures
            final(self).code() == code,
    {
        self.status = code;
    }

    pub fn status(&self) -> (r: ModuleStatus)
        ensures
            r == status_spec(self.code()),
    {
        status_of(self.status)
    }

    pub fn health(&self) -> (r: ModuleHealth)
        ensures
            r is Unhealthy <==> self.code() == STATUS_FAILED,
    {
        health_of(self.status)
    }
}

impl Default for NetworkMonitorModule {
    fn default() -> (r: Self)
        ensures
            r.code() == STATUS_INITIALIZED,
    {
        NetworkMonitorModule { status: STATUS_INITIALIZED }
    }
}

/// Handle of the DNS module.
#[derive(Debug)]
pub struct DnsMonitorModule {
    status: u8,
}

impl DnsMonitorModule {
    /// The stored status code.
    pub closed spec fn code(&self) -> u8 {
        self.status
    }

    pub fn name(&self) -> (r: &'static str)
        ensures
            r@ == "dns_monitor"@,
    {
        "dns_monitor"
    }

    /// Stores a status code.
    pub fn set_status(&mut self, code: u8)
        ensures
            final(self).code() == code,
    {
        self.status = code;
    }

    pub fn status(&self) -> (r: ModuleStatus)
        ensures
            r == status_spec(self.code()),
    {
        status_of(self.status)
    }

    pub fn health(&self) -> (r: ModuleHealth)
        ensures
            r is Unhealthy <==> self.code() == STATUS_FAILED,
    {
        health_of(self.status)
    }
}

impl Default for DnsMonitorModule {
    fn default() -> (r: Self)
        ensures
            r.code() == STATUS_INITIALIZED,
    {
        DnsMonitorModule { status: STATUS_INITIALIZED }
    }
}

// ---------------------------------------------------------------------
// Payloads
// ---------------------------------------------------------------------

/// What is published of a connection.
#[derive(Debug, Clone, PartialEq, Eq)]
pub struct NetworkConnectionPayload {
    pub pid: Option<u32>,
    pub process_name: Option<String>,
    pub direction: String,
    pub protocol: String,
    pub local_addr: String,
    pub local_port: u16,
    pub remote_addr: String,
    pub remote_port: u16,
    pub observed_at: String,
}

/// The contents of a [`NetworkConnectionPayload`].
#[verifier::ext_equal]
pub struct NetworkPayloadView {
    pub pid: Option<u32>,
    pub process_name: Option<Seq<char>>,
    pub direction: Seq<char>,
    pub protocol: Seq<char>,
    pub local_addr: Seq<char>,
    pub local_port: u16,
    pub remote_addr: Seq<char>,
    pub remote_port: u16,
    pub observed_at: Seq<char>,
}

impl View for NetworkConnectionPayload {
    type V = NetworkPayloadView;

    open spec fn view(&self) -> NetworkPayloadView {
        NetworkPayloadView {
            pid: self.pid,
            process_name: opt_view(self.process_name),
            direction: self.direction@,
            protocol: self.protocol@,
            local_addr: self.local_addr@,
            local_port: self.local_port,
            remote_addr: self.remote_addr@,
            remote_port: self.remote_port,
            observed_at: self.observed_at@,
        }
    }
}

/// What is published of a DNS query.
#[derive(Debug, Clone, PartialEq, Eq)]
pub struct DnsQueryPayload {
    pub pid: Option<u32>,
    pub process_name: Option<String>,
    pub query_name: String,
    pub query_type: String,
    pub response_ips: Vec<String>,
    pub observed_at: String,
}

/// The contents of a [`DnsQueryPayload`].
#[verifier::ext_equal]
pub struct DnsPayloadView {
    pub pid: Option<u32>,
    pub process_name: Option<Seq<char>>,
    pub query_name: Seq<char>,
    pub query_type: Seq<char>,
    pub response_ips: Seq<Seq<char>>,
    pub observed_at: Seq<char>,
}

impl View for DnsQueryPayload {
    type V = DnsPayloadView;

    open spec fn view(&self) -> DnsPayloadView {
        DnsPayloadView {
            pid: self.pid,
            process_name: opt_view(self.process_name),
            query_name: self.query_name@,
            query_type: self.query_type@,
            response_ips: views(self.response_ips@),
            observed_at: self.observed_at@,
        }
    }
}

/// The wire name of a direction.
pub open spec fn direction_name(d: ConnectionDirection) -> Seq<char> {
    match d {
        ConnectionDirection::Inbound => "inbound"@,
        ConnectionDirection::Outbound => "outbound"@,
    }
}

/// The wire name of a protocol.
pub open spec fn protocol_name(p: TransportProtocol) -> Seq<char> {
    match p {
        TransportProtocol::Tcp => "tcp"@,
        TransportProtocol::Udp => "udp"@,
    }
}

/// The text of a point in time.
pub open spec fn time_text(t: Timestamp) -> Seq<char> {
    crate::clock::rfc3339_text(t.secs as int, t.nanos as int)
}

/// What is published of an event: new connections only.
pub open spec fn published(ev: NetworkEvent) -> Option<NetworkPayloadView> {
    match ev {
        NetworkEvent::Connect {
            observed_at,
            direction,
            protocol,
            local_addr,
            local_port,
            remote_addr,
            remote_port,
            pid,
            process_name,
        } => Some(
            NetworkPayloadView {
                pid,
                process_name: opt_view(process_name),
                direction: direction_name(direction),
                protocol: protocol_name(protocol),
                local_addr: local_addr.text(),
                local_port,
                remote_addr: remote_addr.text(),
                remote_port,
                observed_at: time_text(observed_at),
            },
        ),
        NetworkEvent::Disconnect { .. } => None,
    }
}

/// Makes the payload of an event. Connections that are gone have none.
pub fn emit_network_event(ev: NetworkEvent) -> (r: Option<NetworkConnectionPayload>)
    requires
        ev.at().valid(),
    ensures
        match r {
            Some(p) => published(ev) == Some(p@),
            None => published(ev) is None,
        },
{
    match ev {
        NetworkEvent::Connect {
            observed_at,
            direction,
            protocol,
            local_addr,
            local_port,
            remote_addr,
            remote_port,
            pid,
            process_name,
        } => {
            let dir = match direction {
                ConnectionDirection::Inbound => "inbound",
                ConnectionDirection::Outbound => "outbound",
            };
            let proto = match protocol {
                TransportProtocol::Tcp => "tcp",
                TransportProtocol::Udp => "udp",
            };
            Some(
                NetworkConnectionPayload {
                    pid,
                    process_name,
                    direction: dir.to_owned(),
                    protocol: proto.to_owned(),
                    local_addr: local_addr.to_text(),
                    local_port,
                    remote_addr: remote_addr.to_text(),
                    remote_port,
                    observed_at: observed_at.to_rfc3339(),
                },
            )
        },
        NetworkEvent::Disconnect { .. } => None,
    }
}

/// What is published of a DNS query.
pub open spec fn published_dns(ev: DnsEvent) -> DnsPayloadView {
    DnsPayloadView {
        pid: ev.pid,
        process_name: opt_view(ev.process_name),
        query_name: ev.query_name@,
        query_type: ev.query_type.name(),
        response_ips: ev.response_ips@.map_values(|a: IpAddr| a.text()),
        observed_at: time_text(ev.observed_at),
    }
}

fn addr_texts(ips: &Vec<IpAddr>) -> (r: Vec<String>)
    ensures
        views(r@) == ips@.map_values(|a: IpAddr| a.text()),
{
    let mut out: Vec<String> = Vec::new();
    let mut i: usize = 0;
    while i < ips.len()
        invariant
            i <= ips@.len(),
            views(out@) == ips@.take(i as int).map_values(|a: IpAddr| a.text()),
        decreases ips@.len() - i,
    {
        let t = ips[i].to_text();
        let ghost before = out@;
        out.push(t);
        proof {
            lemma_views_push(before, t);
            assert(views(out@) =~= ips@.take(i + 1).map_values(|a: IpAddr| a.text()));
        }
        i += 1;
    }
    assert(ips@.take(i as int) =~= ips@);
    out
}

/// Makes the payload of a DNS query.
pub fn emit_dns_event(ev: DnsEvent) -> (r: DnsQueryPayload)
    requires
        ev.observed_at.valid(),
    ensures
        r@ == published_dns(ev),
{
    let response_ips = addr_texts(&ev.response_ips);
    DnsQueryPayload {
        pid: ev.pid,
        process_name: ev.process_name,
        query_name: ev.query_name,
        query_type: ev.query_type.as_wire().to_owned(),
        response_ips,
        observed_at: ev.observed_at.to_rfc3339(),
    }
}

// ---------------------------------------------------------------------
// Keys of events
// ---------------------------------------------------------------------

/// The tenth of a second that a point in time falls into, counted from the
/// epoch and rounded toward it.
pub open spec fn tenth(t: Timestamp) -> int {
    let m = t.millis();
    if m >= 0 {
        m / 100
    } else {
        -((-m) / 100)
    }
}

fn tenth_of(t: &Timestamp) -> (r: i64)
    requires
        t.valid(),
    ensures
        r == tenth(*t),
{
    let m: i64 = t.timestamp_millis();
    if m >= 0 {
        m / 100
    } else {
        -((-m) / 100)
    }
}

/// The octets of a number, lowest first.
pub open spec fn octets(n: int, len: nat) -> Seq<u8>
    decreases len,
{
    if len == 0 {
        Seq::empty()
    } else {
        seq![(n % 256) as u8] + octets(n / 256, (len - 1) as nat)
    }
}

pub(crate) fn push_octets(out: &mut Vec<u8>, n: u128, len: usize)
    ensures
        final(out)@ == old(out)@ + octets(n as int, len as nat),
    decreases len,
{
    if len > 0 {
        out.push((n % 256) as u8);
        push_octets(out, n / 256, len - 1);
    }
    assert(out@ =~= old(out)@ + octets(n as int, len as nat));
}

/// The octets that stand for an address in a key.
pub open spec fn addr_octets(a: IpAddr) -> Seq<u8> {
    match a {
        IpAddr::V4(a, b, c, d) => seq![4, a, b, c, d],
        IpAddr::V6(a, b, c, d, e, f, g, h) => seq![6u8] + octets(a as int, 2) + octets(b as int, 2)
            + octets(c as int, 2) + octets(d as int, 2) + octets(e as int, 2) + octets(f as int, 2)
            + octets(g as int, 2) + octets(h as int, 2),
    }
}

fn push_addr(out: &mut Vec<u8>, a: IpAddr)
    ensures
        final(out)@ == old(out)@ + addr_octets(a),
{
    match a {
        IpAddr::V4(a, b, c, d) => {
            out.push(4);
            out.push(a);
            out.push(b);
            out.push(c);
            out.push(d);
        },
        IpAddr::V6(a, b, c, d, e, f, g, h) => {
            out.push(6);
            push_octets(out, a as u128, 2);
            push_octets(out, b as u128, 2);
            push_octets(out, c as u128, 2);
            push_octets(out, d as u128, 2);
            push_octets(out, e as u128, 2);
            push_octets(out, f as u128, 2);
            push_octets(out, g as u128, 2);
            push_octets(out, h as u128, 2);
        },
    }
    assert(out@ =~= old(out)@ + addr_octets(a));
}

/// The octets that stand for a tenth of a second in a key.
pub open spec fn tenth_octets(t: Timestamp) -> Seq<u8> {
    octets(
        if tenth(t) < 0 {
            tenth(t) + 0x1_0000_0000_0000_0000
        } else {
            tenth(t)
        },
        8,
    )
}

pub(crate) fn push_tenth(out: &mut Vec<u8>, t: &Timestamp)
    requires
        t.valid(),
    ensures
        final(out)@ == old(out)@ + tenth_octets(*t),
{
    let n: i64 = tenth_of(t);
    let m: u64 = if n < 0 {
        u64::MAX - ((-n) as u64) + 1
    } else {
        n as u64
    };
    push_octets(out, m as u128, 8);
}

/// The octets that stand for a connection and the tenth of a second in
/// which it was seen.
#[verifier::opaque]
pub open spec fn sighting_octets(k: ConnKey, at: Timestamp) -> Seq<u8> {
    seq![
        if k.protocol == TransportProtocol::Tcp {
            0u8
        } else {
            1u8
        },
    ] + addr_octets(k.local_addr) + octets(k.local_port as int, 2) + addr_octets(k.remote_addr)
        + octets(k.remote_port as int, 2) + tenth_octets(at)
}

/// What makes two events the same: their kind, their connection and the
/// tenth of a second in which they were seen.
pub open spec fn connection_identity(ev: NetworkEvent) -> Seq<u8> {
    seq![
        if ev is Connect {
            0u8
        } else {
            1u8
        },
    ] + sighting_octets(ev.key(), ev.at())
}

/// The hash of a run of octets.
pub open spec fn hash_of(bytes: Seq<u8>) -> u64 {
    DefaultHasher::spec_finish(seq![bytes])
}

pub(crate) fn hash_octets(bytes: &Vec<u8>) -> (r: u64)
    ensures
        r == hash_of(bytes@),
{
    let mut hasher = DefaultHasher::new();
    hasher.write(bytes.as_slice());
    assert(hasher@ =~= seq![bytes@]);
    hasher.finish()
}

/// The key by which repeated events are recognised.
pub open spec fn connection_key(ev: NetworkEvent) -> u64 {
    hash_of(connection_identity(ev))
}

/// The key by which repeated events are recognised.
pub fn connection_dedup_key(ev: &NetworkEvent) -> (r: u64)
    requires
        ev.at().valid(),
    ensures
        r == connection_key(*ev),
{
    let mut b: Vec<u8> = Vec::new();
    match ev {
        NetworkEvent::Connect {
            protocol,
            local_addr,
            local_port,
            remote_addr,
            remote_port,
            observed_at,
            ..
        } => {
            let k = ConnKey {
                protocol: *protocol,
                local_addr: *local_addr,
                local_port: *local_port,
                remote_addr: *remote_addr,
                remote_port: *remote_port,
            };
            b.push(0);
            push_sighting(&mut b, &k, observed_at);
        },
        NetworkEvent::Disconnect {
            protocol,
            local_addr,
            local_port,
            remote_addr,
            remote_port,
            observed_at,
            ..
        } => {
            let k = ConnKey {
                protocol: *protocol,
                local_addr: *local_addr,
                local_port: *local_port,
                remote_addr: *remote_addr,
                remote_port: *remote_port,
            };
            b.push(1);
            push_sighting(&mut b, &k, observed_at);
        },
    }
    assert(b@ =~= connection_identity(*ev));
    hash_octets(&b)
}

fn push_sighting(out: &mut Vec<u8>, k: &ConnKey, at: &Timestamp)
    requires
        at.valid(),
    ensures
        final(out)@ == old(out)@ + sighting_octets(*k, *at),
{
    out.push(
        match k.protocol {
            TransportProtocol::Tcp => 0,
            TransportProtocol::Udp => 1,
        },
    );
    push_addr(out, k.local_addr);
    push_octets(out, k.local_port as u128, 2);
    push_addr(out, k.remote_addr);
    push_octets(out, k.remote_port as u128, 2);
    push_tenth(out, at);
    proof {
        reveal(sighting_octets);
    }
    assert(out@ =~= old(out)@ + sighting_octets(*k, *at));
}

/// What makes two queries the same: their name, their type and the tenth of
/// a second in which they were seen.
pub open spec fn dns_identity(ev: DnsEvent) -> Seq<u8> {
    vstd::utf8::encode_utf8(ev.query_name@) + seq![0xffu8, ev.query_type.code_spec()] + tenth_octets(
        ev.observed_at,
    )
}

/// The key by which repeated queries are recognised.
pub open spec fn dns_key(ev: DnsEvent) -> u64 {
    hash_of(dns_identity(ev))
}

/// The key by which repeated queries are recognised.
pub fn dns_dedup_key(ev: &DnsEvent) -> (r: u64)
    requires
        ev.observed_at.valid(),
    ensures
        r == dns_key(*ev),
{
    let mut b: Vec<u8> = ev.query_name.as_str().as_bytes_vec();
    b.push(0xff);
    b.push(ev.query_type.code());
    push_tenth(&mut b, &ev.observed_at);
    assert(b@ =~= dns_identity(*ev));
    hash_octets(&b)
}

/// Two events of one kind on one connection, seen within the same tenth of
/// a second, have the same key.
pub proof fn law_same_tenth_same_key(a: NetworkEvent, b: NetworkEvent)
    requires
        a is Connect <==> b is Connect,
        a.key() == b.key(),
        tenth(a.at()) == tenth(b.at()),
    ensures
        connection_key(a) == connection_key(b),
{
    reveal(sighting_octets);
}

/// Two queries for one name and type, seen within the same tenth of a
/// second, have the same key.
pub proof fn law_same_tenth_same_dns_key(a: DnsEvent, b: DnsEvent)
    requires
        a.query_name@ == b.query_name@,
        a.query_type == b.query_type,
        tenth(a.observed_at) == tenth(b.observed_at),
    ensures
        dns_key(a) == dns_key(b),
{
}

// ---------------------------------------------------------------------
// Pipelines
// ---------------------------------------------------------------------

/// How many keys of recent events are remembered.
pub const DEDUP_WINDOW: usize = 2048;

/// Counters of the network module.
#[derive(Debug, Clone, Copy, PartialEq, Eq, Structural)]
pub struct NetworkMonitorVitals {
    pub events_emitted: u64,
    pub duplicates_dropped: u64,
    pub udp_samples_dropped: u64,
    pub publish_failures: u64,
}

impl Default for NetworkMonitorVitals {
    fn default() -> (r: Self)
        ensures
            r == (NetworkMonitorVitals {
                events_emitted: 0,
                duplicates_dropped: 0,
                udp_samples_dropped: 0,
                publish_failures: 0,
            }),
    {
        NetworkMonitorVitals {
            events_emitted: 0,
            duplicates_dropped: 0,
            udp_samples_dropped: 0,
            publish_failures: 0,
        }
    }
}

/// Counters of the DNS module.
#[derive(Debug, Clone, Copy, PartialEq, Eq, Structural)]
pub struct DnsMonitorVitals {
    pub events_emitted: u64,
    pub duplicates_dropped: u64,
    pub publish_failures: u64,
}

impl Default for DnsMonitorVitals {
    fn default() -> (r: Self)
        ensures
            r == (DnsMonitorVitals { events_emitted: 0, duplicates_dropped: 0, publish_failures: 0 }),
    {
        DnsMonitorVitals { events_emitted: 0, duplicates_dropped: 0, publish_failures: 0 }
    }
}

/// What becomes of an event.
#[derive(Debug, Clone, PartialEq, Eq)]
pub enum NetworkStep {
    /// It repeats a recent event.
    Duplicate,
    /// Its UDP flow has had its share of this second.
    SampledOut,
    /// Events of its kind are not published.
    Silent,
    /// It is to be published.
    Publish(NetworkConnectionPayload),
}

/// The way of an event through the network module.
#[derive(Debug)]
pub struct NetworkPipeline {
    sample_udp: bool,
    dedup: DedupRing,
    sampler: UdpSampler,
    vitals: NetworkMonitorVitals,
}

impl NetworkPipeline {
    /// Whether UDP flows are sampled.
    pub closed spec fn samples(&self) -> bool {
        self.sample_udp
    }

    /// Keys of recent events.
    pub closed spec fn window(&self) -> Seq<u64> {
        self.dedup@
    }

    /// The UDP sampler.
    pub closed spec fn udp(&self) -> UdpSampler {
        self.sampler
    }

    /// The counters.
    pub closed spec fn counters(&self) -> NetworkMonitorVitals {
        self.vitals
    }

    /// The parts are in order, and the window has its fixed size.
    pub closed spec fn wf(&self) -> bool {
        &&& self.dedup.wf()
        &&& self.dedup.cap() == DEDUP_WINDOW
        &&& self.sampler.wf()
    }

    /// A pipeline that has seen nothing.
    pub fn new(cfg: &NetworkMonitorConfig) -> (r: NetworkPipeline)
        ensures
            r.wf(),
            r.samples() == cfg.sample_high_rate_udp,
            r.window() == Seq::<u64>::empty(),
            forall|f: ConnKey, s: i64| #[trigger] r.udp().count(f, s) == 0,
            forall|s: i64| !#[trigger] r.udp().saw(s),
            r.counters() == (NetworkMonitorVitals {
                events_emitted: 0,
                duplicates_dropped: 0,
                udp_samples_dropped: 0,
                publish_failures: 0,
            }),
    {
        NetworkPipeline {
            sample_udp: cfg.sample_high_rate_udp,
            dedup: DedupRing::new(DEDUP_WINDOW),
            sampler: UdpSampler::new(),
            vitals: NetworkMonitorVitals::default(),
        }
    }

    /// The counters.
    pub fn vitals(&self) -> (r: NetworkMonitorVitals)
        ensures
            r == self.counters(),
    {
        self.vitals
    }

    /// Events of the same flow and second as `ev` that have been counted.
    pub fn counted(&self, ev: &NetworkEvent) -> (n: u32)
        requires
            self.wf(),
        ensures
            n == self.udp().count(ev.key(), ev.at().secs),
    {
        match ev {
            NetworkEvent::Connect {
                protocol,
                local_addr,
                local_port,
                remote_addr,
                remote_port,
                observed_at,
                ..
            } => self.sampler.counted(
                &ConnKey {
                    protocol: *protocol,
                    local_addr: *local_addr,
                    local_port: *local_port,
                    remote_addr: *remote_addr,
                    remote_port: *remote_port,
                },
                observed_at.secs,
            ),
            NetworkEvent::Disconnect {
                protocol,
                local_addr,
                local_port,
                remote_addr,
                remote_port,
                observed_at,
                ..
            } => self.sampler.counted(
                &ConnKey {
                    protocol: *protocol,
                    local_addr: *local_addr,
                    local_port: *local_port,
                    remote_addr: *remote_addr,
                    remote_port: *remote_port,
                },
                observed_at.secs,
            ),
        }
    }

    /// Takes an event and decides what becomes of it.
    pub fn on_event(&mut self, ev: NetworkEvent) -> (r: NetworkStep)
        requires
            old(self).wf(),
            ev.at().valid(),
            old(self).udp().count(ev.key(), ev.at().secs) < u32::MAX,
        ensures
            final(self).wf(),
            network_step(*old(self), ev, *final(self), r),
    {
        let key = connection_dedup_key(&ev);
        if !self.dedup.insert(key) {
            self.vitals.duplicates_dropped = count_up(self.vitals.duplicates_dropped);
            return NetworkStep::Duplicate;
        }
        if self.sample_udp {
            let passed = self.sampler.should_sample(&ev);
            assert(sample_step(old(self).udp(), ev, self.udp(), passed));
            if !passed {
                self.vitals.udp_samples_dropped = count_up(self.vitals.udp_samples_dropped);
                return NetworkStep::SampledOut;
            }
        }
        match emit_network_event(ev) {
            Some(p) => NetworkStep::Publish(p),
            None => NetworkStep::Silent,
        }
    }

    /// Takes note of whether a payload was published.
    pub fn on_published(&mut self, ok: bool)
        requires
            old(self).wf(),
        ensures
            final(self).wf(),
            final(self).samples() == old(self).samples(),
            final(self).window() == old(self).window(),
            final(self).udp() == old(self).udp(),
            final(self).counters() == if ok {
                NetworkMonitorVitals {
                    events_emitted: wrapping_succ(old(self).counters().events_emitted),
                    ..old(self).counters()
                }
            } else {
                NetworkMonitorVitals {
                    publish_failures: wrapping_succ(old(self).counters().publish_failures),
                    ..old(self).counters()
                }
            },
    {
        if ok {
            self.vitals.events_emitted = count_up(self.vitals.events_emitted);
        } else {
            self.vitals.publish_failures = count_up(self.vitals.publish_failures);
        }
    }
}

/// What one event does to a pipeline: a repeated event stops at the window,
/// an event of a UDP flow over its limit stops at the sampler, and what is
/// left is published if events of its kind are.
pub open spec fn network_step(
    pre: NetworkPipeline,
    ev: NetworkEvent,
    post: NetworkPipeline,
    r: NetworkStep,
) -> bool {
    let key = connection_key(ev);
    let fresh = !pre.window().contains(key);
    &&& post.samples() == pre.samples()
    &&& post.window() == window_after(pre.window(), DEDUP_WINDOW as nat, key)
    &&& if !fresh {
        &&& r == NetworkStep::Duplicate
        &&& post.udp() == pre.udp()
        &&& post.counters() == (NetworkMonitorVitals {
            duplicates_dropped: wrapping_succ(pre.counters().duplicates_dropped),
            ..pre.counters()
        })
    } else {
        let held = r == NetworkStep::SampledOut;
        &&& if pre.samples() {
            sample_step(pre.udp(), ev, post.udp(), !held)
        } else {
            post.udp() == pre.udp() && !held
        }
        &&& post.counters() == if held {
            NetworkMonitorVitals {
                udp_samples_dropped: wrapping_succ(pre.counters().udp_samples_dropped),
                ..pre.counters()
            }
        } else {
            pre.counters()
        }
        &&& !held ==> match r {
            NetworkStep::Publish(p) => published(ev) == Some(p@),
            NetworkStep::Silent => published(ev) is None,
            _ => false,
        }
    }
}

/// An event that comes twice in a row within a tenth of a second is
/// published at most once.
pub proof fn law_repeated_connection_is_collapsed(
    s0: NetworkPipeline,
    first: NetworkEvent,
    s1: NetworkPipeline,
    r1: NetworkStep,
    second: NetworkEvent,
    s2: NetworkPipeline,
    r2: NetworkStep,
)
    requires
        network_step(s0, first, s1, r1),
        network_step(s1, second, s2, r2),
        first is Connect <==> second is Connect,
        first.key() == second.key(),
        tenth(first.at()) == tenth(second.at()),
    ensures
        r2 == NetworkStep::Duplicate,
{
    crate::dedup::law_repeat_is_dropped(s0.window(), DEDUP_WINDOW as nat, connection_key(first));
    law_same_tenth_same_key(first, second);
}

/// A connection that is gone is never published.
pub proof fn law_disconnect_is_never_published(
    pre: NetworkPipeline,
    ev: NetworkEvent,
    post: NetworkPipeline,
    r: NetworkStep,
)
    requires
        network_step(pre, ev, post, r),
        ev is Disconnect,
    ensures
        !(r is Publish),
{
}

/// A fresh event that is not a new UDP connection is never held back.
pub proof fn law_other_traffic_is_not_sampled(
    pre: NetworkPipeline,
    ev: NetworkEvent,
    post: NetworkPipeline,
    r: NetworkStep,
)
    requires
        network_step(pre, ev, post, r),
        !counts_toward_limit(ev),
        !pre.window().contains(connection_key(ev)),
    ensures
        ev is Connect ==> r is Publish,
        r != NetworkStep::SampledOut,
{
}

/// What becomes of a DNS query.
#[derive(Debug, Clone, PartialEq, Eq)]
pub enum DnsStep {
    /// It repeats a recent query.
    Duplicate,
    /// It is to be published.
    Publish(DnsQueryPayload),
}

/// The way of a query through the DNS module.
#[derive(Debug)]
pub struct DnsPipeline {
    dedup: DedupRing,
    vitals: DnsMonitorVitals,
}

impl DnsPipeline {
    /// Keys of recent queries.
    pub closed spec fn window(&self) -> Seq<u64> {
        self.dedup@
    }

    /// The counters.
    pub closed spec fn counters(&self) -> DnsMonitorVitals {
        self.vitals
    }

    /// The window is in order and has its fixed size.
    pub closed spec fn wf(&self) -> bool {
        &&& self.dedup.wf()
        &&& self.dedup.cap() == DEDUP_WINDOW
    }

    /// A pipeline that has seen nothing.
    pub fn new() -> (r: DnsPipeline)
        ensures
            r.wf(),
            r.window() == Seq::<u64>::empty(),
            r.counters() == (DnsMonitorVitals {
                events_emitted: 0,
                duplicates_dropped: 0,
                publish_failures: 0,
            }),
    {
        DnsPipeline { dedup: DedupRing::new(DEDUP_WINDOW), vitals: DnsMonitorVitals::default() }
    }

    /// The subscription that the module asks for.
    pub fn subscription() -> (r: DnsMonitorOpts)
        ensures
            r == (DnsMonitorOpts { channel_buffer: 4096, poll_interval_ms: 1000 }),
    {
        DnsMonitorOpts::default()
    }

    /// The counters.
    pub fn vitals(&self) -> (r: DnsMonitorVitals)
        ensures
            r == self.counters(),
    {
        self.vitals
    }

    /// Takes a query and decides what becomes of it.
    pub fn on_event(&mut self, ev: DnsEvent) -> (r: DnsStep)
        requires
            old(self).wf(),
            ev.observed_at.valid(),
        ensures
            final(self).wf(),
            dns_step(*old(self), ev, *final(self), r),
    {
        let key = dns_dedup_key(&ev);
        if !self.dedup.insert(key) {
            self.vitals.duplicates_dropped = count_up(self.vitals.duplicates_dropped);
            return DnsStep::Duplicate;
        }
        DnsStep::Publish(emit_dns_event(ev))
    }

    /// Takes note of whether a payload was published.
    pub fn on_published(&mut self, ok: bool)
        requires
            old(self).wf(),
        ensures
            final(self).wf(),
            final(self).window() == old(self).window(),
            final(self).counters() == if ok {
                DnsMonitorVitals {
                    events_emitted: wrapping_succ(old(self).counters().events_emitted),
                    ..old(self).counters()
                }
            } else {
                DnsMonitorVitals {
                    publish_failures: wrapping_succ(old(self).counters().publish_failures),
                    ..old(self).counters()
                }
            },
    {
        if ok {
            self.vitals.events_emitted = count_up(self.vitals.events_emitted);
        } else {
            self.vitals.publish_failures = count_up(self.vitals.publish_failures);
        }
    }
}

/// What one query does to a pipeline: a repeated query stops at the window,
/// every other is published.
pub open spec fn dns_step(pre: DnsPipeline, ev: DnsEvent, post: DnsPipeline, r: DnsStep) -> bool {
    let key = dns_key(ev);
    &&& post.window() == window_after(pre.window(), DEDUP_WINDOW as nat, key)
    &&& if pre.window().contains(key) {
        &&& r == DnsStep::Duplicate
        &&& post.counters() == (DnsMonitorVitals {
            duplicates_dropped: wrapping_succ(pre.counters().duplicates_dropped),
            ..pre.counters()
        })
    } else {
        &&& r is Publish
        &&& r->Publish_0@ == published_dns(ev)
        &&& post.counters() == pre.counters()
    }
}

/// A query that comes twice in a row within a tenth of a second is
/// published at most once.
pub proof fn law_repeated_query_is_collapsed(
    s0: DnsPipeline,
    first: DnsEvent,
    s1: DnsPipeline,
    r1: DnsStep,
    second: DnsEvent,
    s2: DnsPipeline,
    r2: DnsStep,
)
    requires
        dns_step(s0, first, s1, r1),
        dns_step(s1, second, s2, r2),
        first.query_name@ == second.query_name@,
        first.query_type == second.query_type,
        tenth(first.observed_at) == tenth(second.observed_at),
    ensures
        r2 == DnsStep::Duplicate,
{
    crate::dedup::law_repeat_is_dropped(s0.window(), DEDUP_WINDOW as nat, dns_key(first));
    law_same_tenth_same_dns_key(first, second);
}

} // verus!
