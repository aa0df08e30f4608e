//! DNS telemetry: query observations and the providers that make them.

use crate::clock::Timestamp;
use crate::net::IpAddr;
use crate::stream::EventStream;
use vstd::prelude::*;
use vstd::string::*;

verus! {

/// What can go wrong in a DNS monitor.
#[derive(Debug, PartialEq, Eq)]
pub enum DnsMonitorError {
    Io(String),
    Unsupported(String),
    AlreadySubscribed,
}

impl DnsMonitorError {
    /// The text that describes the error.
    pub open spec fn text(self) -> Seq<char> {
        match self {
            DnsMonitorError::Io(e) => "dns monitor IO error: "@ + e@,
            DnsMonitorError::Unsupported(e) => "dns monitor unsupported: "@ + e@,
            DnsMonitorError::AlreadySubscribed => "dns monitor already subscribed"@,
        }
    }

    /// Describes the error.
    pub fn message(&self) -> (r: String)
        ensures
            r@ == self.text(),
    {
        match self {
            DnsMonitorError::Io(e) => "dns monitor IO error: ".to_owned().concat(e.as_str()),
            DnsMonitorError::Unsupported(e) => "dns monitor unsupported: ".to_owned().concat(
                e.as_str(),
            ),
            DnsMonitorError::AlreadySubscribed => "dns monitor already subscribed".to_owned(),
        }
    }
}

/// Record type that was asked for.
#[derive(Debug, Clone, Copy, PartialEq, Eq, Hash, Structural)]
pub enum DnsQueryType {
    A,
    Aaaa,
    Cname,
    Mx,
    Txt,
    Ns,
    Ptr,
    Srv,
    Soa,
    Any,
    Other,
}

impl DnsQueryType {
    /// The name of the record type on the wire.
    pub open spec fn name(self) -> Seq<char> {
        match self {
            DnsQueryType::A => "A"@,
            DnsQueryType::Aaaa => "AAAA"@,
            DnsQueryType::Cname => "CNAME"@,
            DnsQueryType::Mx => "MX"@,
            DnsQueryType::Txt => "TXT"@,
            DnsQueryType::Ns => "NS"@,
            DnsQueryType::Ptr => "PTR"@,
            DnsQueryType::Srv => "SRV"@,
            DnsQueryType::Soa => "SOA"@,
            DnsQueryType::Any => "ANY"@,
            DnsQueryType::Other => "OTHER"@,
        }
    }

    /// The name of the record type on the wire.
    pub fn as_wire(&self) -> (r: &'static str)
        ensures
            r@ == self.name(),
    {
        match self {
            DnsQueryType::A => "A",
            DnsQueryType::Aaaa => "AAAA",
            DnsQueryType::Cname => "CNAME",
            DnsQueryType::Mx => "MX",
            DnsQueryType::Txt => "TXT",
            DnsQueryType::Ns => "NS",
            DnsQueryType::Ptr => "PTR",
            DnsQueryType::Srv => "SRV",
            DnsQueryType::Soa => "SOA",
            DnsQueryType::Any => "ANY",
            DnsQueryType::Other => "OTHER",
        }
    }

    /// A number for each record type.
    pub open spec fn code_spec(self) -> u8 {
        match self {
            DnsQueryType::A => 0,
            DnsQueryType::Aaaa => 1,
            DnsQueryType::Cname => 2,
            DnsQueryType::Mx => 3,
            DnsQueryType::Txt => 4,
            DnsQueryType::Ns => 5,
            DnsQueryType::Ptr => 6,
            DnsQueryType::Srv => 7,
            DnsQueryType::Soa => 8,
            DnsQueryType::Any => 9,
            DnsQueryType::Other => 10,
        }
    }

    /// A number for each record type.
    pub fn code(&self) -> (r: u8)
        ensures
            r == self.code_spec(),
    {
        match self {
            DnsQueryType::A => 0,
            DnsQueryType::Aaaa => 1,
            DnsQueryType::Cname => 2,
            DnsQueryType::Mx => 3,
            DnsQueryType::Txt => 4,
            DnsQueryType::Ns => 5,
            DnsQueryType::Ptr => 6,
            DnsQueryType::Srv => 7,
            DnsQueryType::Soa => 8,
            DnsQueryType::Any => 9,
            DnsQueryType::Other => 10,
        }
    }
}

/// Options of a subscription.
#[derive(Debug, Clone, Copy, PartialEq, Eq, Structural)]
pub struct DnsMonitorOpts {
    /// Room in the event channel.
    pub channel_buffer: usize,
    /// Time between two looks at a log, in milliseconds.
    pub poll_interval_ms: u64,
}

impl Default for DnsMonitorOpts {
    fn default() -> (r: Self)
        ensures
            r == (DnsMonitorOpts { channel_buffer: 4096, poll_interval_ms: 1000 }),
    {
        DnsMonitorOpts { channel_buffer: 4096, poll_interval_ms: 1000 }
    }
}

/// Events on their way from a monitor to its subscriber.
pub type DnsEventStream = EventStream<DnsEvent>;

/// One observed query.
#[derive(Debug, Clone, PartialEq, Eq)]
pub struct DnsEvent {
    pub observed_at: Timestamp,
    pub query_name: String,
    pub query_type: DnsQueryType,
    pub response_ips: Vec<IpAddr>,
    pub pid: Option<u32>,
    pub process_name: Option<String>,
}

/// Placeholder for the monitor of Linux hosts.
#[derive(Debug)]
pub struct LinuxDnsMonitor {}

impl LinuxDnsMonitor {
    pub fn new() -> (r: LinuxDnsMonitor)
        ensures
            r == (LinuxDnsMonitor {  }),
    {
        LinuxDnsMonitor {  }
    }

    /// No queries can be observed on this build.
    pub fn subscribe(&self, opts: &DnsMonitorOpts) -> (r: Result<(), DnsMonitorError>)
        ensures
            r is Err,
            r->Err_0 is Unsupported,
            r->Err_0->Unsupported_0@
                == "Linux DnsMonitor requires journalctl/systemd-resolved or an eBPF probe; use MockDnsMonitor in CI"@,
    {
        Err(
            DnsMonitorError::Unsupported(
                "Linux DnsMonitor requires journalctl/systemd-resolved or an eBPF probe; use MockDnsMonitor in CI".to_owned(),
            ),
        )
    }
}

impl Default for LinuxDnsMonitor {
    fn default() -> (r: Self)
        ensures
            r == (LinuxDnsMonitor {  }),
    {
        LinuxDnsMonitor::new()
    }
}

/// Placeholder for the monitor of Windows hosts.
#[derive(Debug)]
pub struct WindowsDnsMonitor {}

impl WindowsDnsMonitor {
    pub fn new() -> (r: WindowsDnsMonitor)
        ensures
            r == (WindowsDnsMonitor {  }),
    {
        WindowsDnsMonitor {  }
    }

    /// No queries can be observed on this build.
    pub fn subscribe(&self, opts: &DnsMonitorOpts) -> (r: Result<(), DnsMonitorError>)
        ensures
            r is Err,
            r->Err_0 is Unsupported,
            r->Err_0->Unsupported_0@ == "ETW DnsMonitor requires SYSTEM; use MockDnsMonitor in CI"@,
    {
        Err(
            DnsMonitorError::Unsupported(
                "ETW DnsMonitor requires SYSTEM; use MockDnsMonitor in CI".to_owned(),
            ),
        )
    }
}

impl Default for WindowsDnsMonitor {
    fn default() -> (r: Self)
        ensures
            r == (WindowsDnsMonitor {  }),
    {
        WindowsDnsMonitor::new()
    }
}

/// Placeholder for the monitor of macOS hosts.
#[derive(Debug)]
pub struct MacosDnsMonitor {}

impl MacosDnsMonitor {
    pub fn new() -> (r: MacosDnsMonitor)
        ensures
            r == (MacosDnsMonitor {  }),
    {
        MacosDnsMonitor {  }
    }

    /// No queries can be observed on this build.
    pub fn subscribe(&self, opts: &DnsMonitorOpts) -> (r: Result<(), DnsMonitorError>)
        ensures
            r is Err,
            r->Err_0 is Unsupported,
            r->Err_0->Unsupported_0@
                == "NEDNSProxyProvider DnsMonitor requires entitlement; use MockDnsMonitor in CI"@,
    {
        Err(
            DnsMonitorError::Unsupported(
                "NEDNSProxyProvider DnsMonitor requires entitlement; use MockDnsMonitor in CI".to_owned(),
            ),
        )
    }
}

impl Default for MacosDnsMonitor {
    fn default() -> (r: Self)
        ensures
            r == (MacosDnsMonitor {  }),
    {
        MacosDnsMonitor::new()
    }
}

/// Monitor with canned events.
#[derive(Debug)]
pub struct MockDnsMonitor {
    events: Vec<DnsEvent>,
}

impl MockDnsMonitor {
    /// The events in the order in which they are replayed.
    pub closed spec fn canned(&self) -> Seq<DnsEvent> {
        self.events@
    }

    pub fn new() -> (r: MockDnsMonitor)
        ensures
            r.canned() == Seq::<DnsEvent>::empty(),
    {
        MockDnsMonitor { events: Vec::new() }
    }

    pub fn with_events(events: Vec<DnsEvent>) -> (r: MockDnsMonitor)
        ensures
            r.canned() == events@,
    {
        MockDnsMonitor { events }
    }

    /// Adds an event to be replayed after the others.
    pub fn push_event(&mut self, ev: DnsEvent)
        ensures
            final(self).canned() == old(self).canned().push(ev),
    {
        self.events.push(ev);
    }

    /// The events, in the order in which they are replayed.
    pub fn events(&self) -> (r: &Vec<DnsEvent>)
        ensures
            r@ == self.canned(),
    {
        &self.events
    }
}

impl Default for MockDnsMonitor {
    fn default() -> (r: Self)
        ensures
            r.canned() == Seq::<DnsEvent>::empty(),
    {
        MockDnsMonitor::new()
    }
}

} // verus!
