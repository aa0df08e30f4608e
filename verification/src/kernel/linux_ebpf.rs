//! Kernel backend of Linux hosts.

use crate::kernel::{
    queue_put, record_lines, records_of, AttachError, AttachResult, KernelChannel, KernelEvent,
    MockState, NetworkProtocol,
};
use crate::net::{dotted, IpAddr};
use crate::text::{chars_of, number, parse_number, pieces, pieces_of, texts, trim, trimmed, views};
use vstd::prelude::*;
use vstd::string::*;

verus! {

/// A record of the ring buffer.
#[derive(Debug, Clone, Copy, PartialEq, Eq)]
pub enum PerfRecord {
    Exec { pid: u32, ppid: u32, uid: u32 },
    Exit { pid: u32, exit_code: i32 },
    Connect4 {
        pid: u32,
        protocol: NetworkProtocol,
        saddr: [u8; 4],
        daddr: [u8; 4],
        sport: u16,
        dport: u16,
    },
}

/// Whether an event tells what a record tells.
pub open spec fn tells(rec: PerfRecord, ev: KernelEvent) -> bool {
    match rec {
        PerfRecord::Exec { pid, ppid, uid } => ev == (KernelEvent::ProcessCreated {
            pid,
            ppid,
            uid,
            image_path: None,
        }),
        PerfRecord::Exit { pid, exit_code } => ev == (KernelEvent::ProcessExited { pid, exit_code }),
        PerfRecord::Connect4 { pid, protocol, saddr, daddr, sport, dport } => {
            &&& ev is NetworkConnect
            &&& ev->NetworkConnect_pid == pid
            &&& ev->protocol == protocol
            &&& ev->local_addr@ == dotted(saddr@[0], saddr@[1], saddr@[2], saddr@[3])
            &&& ev->local_port == sport
            &&& ev->remote_addr@ == dotted(daddr@[0], daddr@[1], daddr@[2], daddr@[3])
            &&& ev->remote_port == dport
        },
    }
}

impl PerfRecord {
    /// The event that the record tells of. The path of an image is not in a
    /// record.
    pub fn into_kernel_event(self) -> (r: KernelEvent)
        ensures
            tells(self, r),
    {
        match self {
            PerfRecord::Exec { pid, ppid, uid } => KernelEvent::ProcessCreated {
                pid,
                ppid,
                uid,
                image_path: None,
            },
            PerfRecord::Exit { pid, exit_code } => KernelEvent::ProcessExited { pid, exit_code },
            PerfRecord::Connect4 { pid, protocol, saddr, daddr, sport, dport } =>
                KernelEvent::NetworkConnect {
                pid,
                protocol,
                local_addr: ipv4_to_string(saddr),
                local_port: sport,
                remote_addr: ipv4_to_string(daddr),
                remote_port: dport,
            },
        }
    }
}

fn ipv4_to_string(octets: [u8; 4]) -> (r: String)
    ensures
        r@ == dotted(octets@[0], octets@[1], octets@[2], octets@[3]),
{
    IpAddr::V4(octets[0], octets[1], octets[2], octets[3]).to_text()
}

/// The two first numbers of a release that is written with dots, up to its
/// first hyphen.
pub open spec fn kernel_version(release: Seq<char>) -> Option<(nat, nat)> {
    let p = pieces_of(pieces_of(trimmed(release), '-')[0], '.');
    if p.len() < 2 {
        None
    } else {
        match (number(p[0], 10, u32::MAX as nat), number(p[1], 10, u32::MAX as nat)) {
            (Some(major), Some(minor)) => Some((major, minor)),
            _ => None,
        }
    }
}

/// Whether a release is known to be at least the given one.
pub open spec fn at_least(release: Seq<char>, major: nat, minor: nat) -> bool {
    match kernel_version(release) {
        Some((x, y)) => x > major || (x == major && y >= minor),
        None => false,
    }
}

/// Whether a release is known to be at least the given one.
pub fn parse_kernel_version_at_least(release: &str, min_major: u32, min_minor: u32) -> (r: bool)
    ensures
        r == at_least(release@, min_major as nat, min_minor as nat),
{
    let chars = chars_of(release);
    let dashed = pieces(trim(chars.as_slice()), '-');
    let ghost want = texts(dashed@);
    assert(want.len() == dashed@.len() && want.len() >= 1);
    assert(want[0] == dashed@[0]@);
    let p = pieces(dashed[0], '.');
    assert(texts(p@).len() == p@.len());
    if p.len() < 2 {
        return false;
    }
    assert(texts(p@)[0] == p@[0]@ && texts(p@)[1] == p@[1]@);
    let major: u64 = match parse_number(p[0], 10, u32::MAX as u64) {
        Some(v) => v,
        None => {
            return false;
        },
    };
    let minor: u64 = match parse_number(p[1], 10, u32::MAX as u64) {
        Some(v) => v,
        None => {
            return false;
        },
    };
    major > min_major as u64 || (major == min_major as u64 && minor >= min_minor as u64)
}

/// Whether the kernel with the given release can run the programs of the
/// backend; one whose release could not be read cannot.
pub fn detect_ebpf_capability(release: Option<&str>) -> (r: bool)
    ensures
        r == (release is Some && at_least(release->0@, 5, 8)),
{
    match release {
        Some(s) => parse_kernel_version_at_least(s, 5, 8),
        None => false,
    }
}

/// Reaches the ring buffer, which this build lacks.
pub fn attach_to_perf_buffer(release: Option<&str>) -> (r: AttachResult<()>)
    ensures
        r is Err,
        r->Err_0 is NotPresent,
        r->Err_0->NotPresent_0@ == if release is Some && at_least(release->0@, 5, 8) {
            "kernel-linux-ebpf feature not enabled"@
        } else {
            "kernel < 5.8 or CAP_BPF not granted; falling back to cn_proc + audit"@
        },
{
    if !detect_ebpf_capability(release) {
        return Err(
            AttachError::NotPresent(
                "kernel < 5.8 or CAP_BPF not granted; falling back to cn_proc + audit".to_owned(),
            ),
        );
    }
    Err(AttachError::NotPresent("kernel-linux-ebpf feature not enabled".to_owned()))
}

/// A later release is accepted wherever an earlier one is.
pub proof fn law_later_kernels_are_accepted(
    earlier: Seq<char>,
    later: Seq<char>,
    major: nat,
    minor: nat,
)
    requires
        at_least(earlier, major, minor),
        kernel_version(earlier) matches Some((x, y)) && at_least(later, x, y),
    ensures
        at_least(later, major, minor),
{
}

/// The records of the ring buffer as a text, each the text of one JSON
/// object.
pub fn parse_perf_records(input: &[u8]) -> (r: Vec<String>)
    ensures
        views(r@) == records_of(input@),
{
    record_lines(input)
}

/// Stands for the ring buffer in tests.
#[derive(Debug)]
pub struct MockLinuxKernelChannel {
    inner: MockState,
}

impl MockLinuxKernelChannel {
    /// Whether the kernel component counts as loaded.
    pub closed spec fn attached(&self) -> bool {
        self.inner.attached
    }

    /// The events that wait, the oldest first.
    pub closed spec fn queue(&self) -> Seq<KernelEvent> {
        self.inner.queue@
    }

    /// A channel without a kernel component and without events.
    pub fn new() -> (r: MockLinuxKernelChannel)
        ensures
            !r.attached(),
            r.queue() == Seq::<KernelEvent>::empty(),
    {
        MockLinuxKernelChannel { inner: MockState::new() }
    }

    /// Says whether the kernel component counts as loaded.
    pub fn set_attached(&mut self, attached: bool)
        ensures
            final(self).attached() == attached,
            final(self).queue() == old(self).queue(),
    {
        self.inner.attached = attached;
    }

    /// Puts an event in.
    pub fn push(&mut self, ev: KernelEvent)
        ensures
            final(self).attached() == old(self).attached(),
            final(self).queue() == queue_put(old(self).queue(), ev),
    {
        self.inner.queue.push_back(ev);
    }

    /// Puts in the event that a record tells of.
    pub fn push_perf(&mut self, rec: PerfRecord)
        ensures
            final(self).attached() == old(self).attached(),
            exists|ev: KernelEvent| #[trigger]
                tells(rec, ev) && final(self).queue() == queue_put(old(self).queue(), ev),
    {
        let ev = rec.into_kernel_event();
        assert(tells(rec, ev));
        self.inner.queue.push_back(ev);
    }

    /// Number of events that wait.
    pub fn pending(&self) -> (r: usize)
        ensures
            r == self.queue().len(),
    {
        self.inner.queue.len()
    }
}

impl KernelChannel for MockLinuxKernelChannel {
    fn is_attached(&self) -> (r: bool)
        ensures
            r == self.attached(),
    {
        self.inner.attached
    }

    fn try_recv(&mut self) -> (r: Option<KernelEvent>)
        ensures
            final(self).attached() == old(self).attached(),
            match r {
                Some(e) => {
                    &&& old(self).queue().len() > 0
                    &&& e == old(self).queue()[0]
                    &&& final(self).queue() == old(self).queue().drop_first()
                },
                None => old(self).queue().len() == 0 && final(self).queue() == old(self).queue(),
            },
    {
        self.inner.take()
    }
}

impl Default for MockLinuxKernelChannel {
    fn default() -> (r: Self)
        ensures
            !r.attached(),
            r.queue() == Seq::<KernelEvent>::empty(),
    {
        MockLinuxKernelChannel::new()
    }
}

} // verus!
