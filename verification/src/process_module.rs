//! Process telemetry module: what it publishes of the events that the
//! process monitor hands it.

use crate::dedup::{window_after, DedupRing};
use crate::lifecycle::{health_of, status_of, status_spec, ModuleHealth, ModuleStatus};
use crate::lifecycle::{STATUS_FAILED, STATUS_INITIALIZED};
use crate::network_module::{
    hash_octets, hash_of, octets, push_octets, push_tenth, tenth, tenth_octets, time_text,
};
use crate::process_monitor::{
    chain_view, AncestorView, ProcessAncestor, ProcessEvent, ProcessMonitorOpts,
};
use crate::stream::{count_up, wrapping_succ};
use crate::text::{opt_view, views};
use vstd::prelude::*;
use vstd::string::*;

verus! {

/// Settings of the process module.
#[derive(Debug, Clone, Copy, PartialEq, Eq, Structural)]
pub struct ProcessMonitorConfig {
    pub enabled: bool,
    /// Longest chain of ancestors; 0 for none.
    pub parent_chain_depth: u32,
    /// Publish the loading of images.
    pub image_load_events: bool,
    /// Room in the event channel.
    pub event_buffer_size: usize,
    /// Time between two readings, in milliseconds.
    pub poll_interval_ms: u64,
}

impl Default for ProcessMonitorConfig {
    fn default() -> (r: Self)
        ensures
            r == (ProcessMonitorConfig {
                enabled: false,
                parent_chain_depth: 8,
                image_load_events: true,
                event_buffer_size: 4096,
                poll_interval_ms: 500,
            }),
    {
        ProcessMonitorConfig {
            enabled: false,
            parent_chain_depth: 8,
            image_load_events: true,
            event_buffer_size: 4096,
            poll_interval_ms: 500,
        }
    }
}

impl ProcessMonitorConfig {
    /// The subscription that the module asks for.
    pub fn subscription(&self) -> (r: ProcessMonitorOpts)
        ensures
            r == (ProcessMonitorOpts {
                image_load_events: self.image_load_events,
                channel_buffer: self.event_buffer_size,
                poll_interval_ms: self.poll_interval_ms,
            }),
    {
        ProcessMonitorOpts {
            image_load_events: self.image_load_events,
            channel_buffer: self.event_buffer_size,
            poll_interval_ms: self.poll_interval_ms,
        }
    }
}

/// Status of the process module.
#[derive(Debug)]
pub struct ProcessMonitorModule {
    status: u8,
}

impl ProcessMonitorModule {
    /// The status code.
    pub closed spec fn code(&self) -> u8 {
        self.status
    }

    /// Name under which the module is known.
    pub fn name(&self) -> (r: &'static str)
        ensures
            r@ == "process_monitor"@,
    {
        "process_monitor"
    }

    /// Records a new status code.
    pub fn set_status(&mut self, code: u8)
        ensures
            final(self).code() == code,
    {
        self.status = code;
    }

    pub fn status(&self) -> (r: ModuleStatus)
        ensures
            r == status_spec(self.code()),
    {
        status_of(self.status)
    }

    pub fn health(&self) -> (r: ModuleHealth)
        ensures
            r == if self.code() == STATUS_FAILED {
                ModuleHealth::Unhealthy
            } else {
                ModuleHealth::Healthy
            },
    {
        health_of(self.status)
    }
}

impl Default for ProcessMonitorModule {
    fn default() -> (r: Self)
        ensures
            r.code() == STATUS_INITIALIZED,
    {
        ProcessMonitorModule { status: STATUS_INITIALIZED }
    }
}

// ---------------------------------------------------------------------
// Payloads
// ---------------------------------------------------------------------

/// An ancestor inside a payload.
#[derive(Debug, Clone, PartialEq, Eq)]
pub struct WireAncestor {
    pub pid: u32,
    pub name: String,
    pub exe_path: Option<String>,
}

impl View for WireAncestor {
    type V = AncestorView;

    open spec fn view(&self) -> AncestorView {
        AncestorView { pid: self.pid as nat, name: self.name@, exe_path: opt_view(self.exe_path) }
    }
}

impl From<ProcessAncestor> for WireAncestor {
    fn from(a: ProcessAncestor) -> (r: Self) {
        WireAncestor { pid: a.pid, name: a.name, exe_path: a.exe_path }
    }
}

impl vstd::std_specs::convert::FromSpecImpl<ProcessAncestor> for WireAncestor {
    open spec fn obeys_from_spec() -> bool {
        true
    }

    open spec fn from_spec(a: ProcessAncestor) -> Self {
        WireAncestor { pid: a.pid, name: a.name, exe_path: a.exe_path }
    }
}

/// The contents of a chain inside a payload.
pub open spec fn wire_chain(v: Seq<WireAncestor>) -> Seq<AncestorView> {
    v.map_values(|a: WireAncestor| a@)
}

/// Payload on a process that was started.
#[derive(Debug, Clone, PartialEq, Eq)]
pub struct ProcessCreatedPayload {
    pub pid: u32,
    pub ppid: u32,
    pub name: String,
    pub exe_path: Option<String>,
    pub cmdline: Vec<String>,
    pub user: Option<String>,
    pub parent_chain: Vec<WireAncestor>,
    pub started_at: String,
}

/// Payload on a process that has ended.
#[derive(Debug, Clone, PartialEq, Eq)]
pub struct ProcessTerminatedPayload {
    pub pid: u32,
    pub name: String,
    pub exit_code: Option<i32>,
    pub ended_at: String,
}

/// Payload on an image that was loaded.
#[derive(Debug, Clone, PartialEq, Eq)]
pub struct ImageLoadedPayload {
    pub pid: u32,
    pub image_path: String,
    pub image_hash: Option<String>,
    pub loaded_at: String,
}

/// What is published of an event.
#[derive(Debug, Clone, PartialEq, Eq)]
pub enum ProcessPayload {
    Created(ProcessCreatedPayload),
    Terminated(ProcessTerminatedPayload),
    ImageLoaded(ImageLoadedPayload),
}

/// The contents of a payload.
#[verifier::ext_equal]
pub enum ProcessPayloadView {
    Created {
        pid: u32,
        ppid: u32,
        name: Seq<char>,
        exe_path: Option<Seq<char>>,
        cmdline: Seq<Seq<char>>,
        user: Option<Seq<char>>,
        parent_chain: Seq<AncestorView>,
        started_at: Seq<char>,
    },
    Terminated { pid: u32, name: Seq<char>, exit_code: Option<i32>, ended_at: Seq<char> },
    ImageLoaded {
        pid: u32,
        image_path: Seq<char>,
        image_hash: Option<Seq<char>>,
        loaded_at: Seq<char>,
    },
}

impl View for ProcessPayload {
    type V = ProcessPayloadView;

    open spec fn view(&self) -> ProcessPayloadView {
        match self {
            ProcessPayload::Created(p) => ProcessPayloadView::Created {
                pid: p.pid,
                ppid: p.ppid,
                name: p.name@,
                exe_path: opt_view(p.exe_path),
                cmdline: views(p.cmdline@),
                user: opt_view(p.user),
                parent_chain: wire_chain(p.parent_chain@),
                started_at: p.started_at@,
            },
            ProcessPayload::Terminated(p) => ProcessPayloadView::Terminated {
                pid: p.pid,
                name: p.name@,
                exit_code: p.exit_code,
                ended_at: p.ended_at@,
            },
            ProcessPayload::ImageLoaded(p) => ProcessPayloadView::ImageLoaded {
                pid: p.pid,
                image_path: p.image_path@,
                image_hash: opt_view(p.image_hash),
                loaded_at: p.loaded_at@,
            },
        }
    }
}

/// The lookup that an event calls for: the ancestors of a new process, as
/// far as they are wanted.
pub open spec fn wanted_ancestors(ev: ProcessEvent, cfg: ProcessMonitorConfig) -> Option<(u32, u32)> {
    if ev is Created && cfg.parent_chain_depth > 0 {
        Some((ev.process(), cfg.parent_chain_depth))
    } else {
        None
    }
}

/// The lookup that an event calls for: process and greatest depth.
pub fn ancestor_request(ev: &ProcessEvent, cfg: &ProcessMonitorConfig) -> (r: Option<(u32, u32)>)
    ensures
        r == wanted_ancestors(*ev, *cfg),
{
    match ev {
        ProcessEvent::Created { pid, .. } => if cfg.parent_chain_depth > 0 {
            Some((*pid, cfg.parent_chain_depth))
        } else {
            None
        },
        _ => None,
    }
}

/// What is published of an event, given what the lookup brought. A failed
/// lookup leaves the chain empty. The loading of images is published only
/// where that is wanted.
pub open spec fn published_process(
    ev: ProcessEvent,
    cfg: ProcessMonitorConfig,
    found: Option<Seq<AncestorView>>,
) -> Option<ProcessPayloadView> {
    match ev {
        ProcessEvent::Created { pid, ppid, name, exe_path, cmdline, user, started_at } => Some(
            ProcessPayloadView::Created {
                pid,
                ppid,
                name: name@,
                exe_path: opt_view(exe_path),
                cmdline: views(cmdline@),
                user: opt_view(user),
                parent_chain: if cfg.parent_chain_depth > 0 && found is Some {
                    found->0
                } else {
                    Seq::empty()
                },
                started_at: time_text(started_at),
            },
        ),
        ProcessEvent::Terminated { pid, name, exit_code, ended_at } => Some(
            ProcessPayloadView::Terminated {
                pid,
                name: name@,
                exit_code,
                ended_at: time_text(ended_at),
            },
        ),
        ProcessEvent::ImageLoaded { pid, image_path, image_hash, loaded_at } => if cfg.image_load_events {
            Some(
                ProcessPayloadView::ImageLoaded {
                    pid,
                    image_path: image_path@,
                    image_hash: opt_view(image_hash),
                    loaded_at: time_text(loaded_at),
                },
            )
        } else {
            None
        },
    }
}

/// The contents of a chain that was found.
pub open spec fn found_chain(found: Option<Vec<ProcessAncestor>>) -> Option<Seq<AncestorView>> {
    match found {
        Some(v) => Some(chain_view(v@)),
        None => None,
    }
}

fn wire_ancestors(v: &Vec<ProcessAncestor>) -> (r: Vec<WireAncestor>)
    ensures
        wire_chain(r@) == chain_view(v@),
{
    let mut out: Vec<WireAncestor> = Vec::new();
    let mut i: usize = 0;
    while i < v.len()
        invariant
            i <= v@.len(),
            out@.len() == i,
            forall|k: int| 0 <= k < i ==> (#[trigger] out@[k])@ == v@[k]@,
        decreases v@.len() - i,
    {
        let a = v[i].clone();
        out.push(WireAncestor::from(a));
        i += 1;
    }
    assert(wire_chain(out@) =~= chain_view(v@));
    out
}

/// Builds what is published of an event. `found` is what the lookup
/// brought, if one was asked for and went well.
pub fn emit_event(
    ev: ProcessEvent,
    cfg: &ProcessMonitorConfig,
    found: Option<Vec<ProcessAncestor>>,
) -> (r: Option<ProcessPayload>)
    requires
        ev.at().valid(),
    ensures
        match r {
            Some(p) => published_process(ev, *cfg, found_chain(found)) == Some(p@),
            None => published_process(ev, *cfg, found_chain(found)) is None,
        },
{
    match ev {
        ProcessEvent::Created { pid, ppid, name, exe_path, cmdline, user, started_at } => {
            let none: Vec<WireAncestor> = Vec::new();
            assert(wire_chain(none@) =~= Seq::empty());
            let parent_chain = if cfg.parent_chain_depth > 0 {
                match &found {
                    Some(v) => wire_ancestors(v),
                    None => none,
                }
            } else {
                none
            };
            Some(
                ProcessPayload::Created(
                    ProcessCreatedPayload {
                        pid,
                        ppid,
                        name,
                        exe_path,
                        cmdline,
                        user,
                        parent_chain,
                        started_at: started_at.to_rfc3339(),
                    },
                ),
            )
        },
        ProcessEvent::Terminated { pid, name, exit_code, ended_at } => Some(
            ProcessPayload::Terminated(
                ProcessTerminatedPayload { pid, name, exit_code, ended_at: ended_at.to_rfc3339() },
            ),
        ),
        ProcessEvent::ImageLoaded { pid, image_path, image_hash, loaded_at } => {
            if cfg.image_load_events {
                Some(
                    ProcessPayload::ImageLoaded(
                        ImageLoadedPayload {
                            pid,
                            image_path,
                            image_hash,
                            loaded_at: loaded_at.to_rfc3339(),
                        },
                    ),
                )
            } else {
                None
            }
        },
    }
}

// ---------------------------------------------------------------------
// Keys of events
// ---------------------------------------------------------------------

/// What makes two events the same: their kind, their process, the image
/// that was loaded, and the tenth of a second in which they happened.
pub open spec fn process_identity(ev: ProcessEvent) -> Seq<u8> {
    match ev {
        ProcessEvent::Created { pid, started_at, .. } => seq![0u8] + octets(pid as int, 4)
            + tenth_octets(started_at),
        ProcessEvent::Terminated { pid, ended_at, .. } => seq![1u8] + octets(pid as int, 4)
            + tenth_octets(ended_at),
        ProcessEvent::ImageLoaded { pid, image_path, loaded_at, .. } => seq![2u8] + octets(
            pid as int,
            4,
        ) + vstd::utf8::encode_utf8(image_path@) + seq![0xffu8] + tenth_octets(loaded_at),
    }
}

/// The key by which repeated events are recognised.
pub open spec fn process_key(ev: ProcessEvent) -> u64 {
    hash_of(process_identity(ev))
}

/// The key by which repeated events are recognised.
pub fn event_dedup_key(ev: &ProcessEvent) -> (r: u64)
    requires
        ev.at().valid(),
    ensures
        r == process_key(*ev),
{
    let mut b: Vec<u8> = Vec::new();
    match ev {
        ProcessEvent::Created { pid, started_at, .. } => {
            b.push(0);
            push_octets(&mut b, *pid as u128, 4);
            push_tenth(&mut b, started_at);
        },
        ProcessEvent::Terminated { pid, ended_at, .. } => {
            b.push(1);
            push_octets(&mut b, *pid as u128, 4);
            push_tenth(&mut b, ended_at);
        },
        ProcessEvent::ImageLoaded { pid, image_path, loaded_at, .. } => {
            b.push(2);
            push_octets(&mut b, *pid as u128, 4);
            let mut path = image_path.as_str().as_bytes_vec();
            b.append(&mut path);
            b.push(0xff);
            push_tenth(&mut b, loaded_at);
        },
    }
    assert(b@ =~= process_identity(*ev));
    hash_octets(&b)
}

/// Whether two events are of one kind, of one process and, where an image
/// was loaded, of one image.
pub open spec fn same_occurrence(a: ProcessEvent, b: ProcessEvent) -> bool {
    &&& a is Created <==> b is Created
    &&& a is Terminated <==> b is Terminated
    &&& a.process() == b.process()
    &&& a is ImageLoaded && b is ImageLoaded ==> a->image_path@ == b->image_path@
}

/// Two reports of one occurrence within the same tenth of a second have the
/// same key.
pub proof fn law_same_tenth_same_process_key(a: ProcessEvent, b: ProcessEvent)
    requires
        same_occurrence(a, b),
        tenth(a.at()) == tenth(b.at()),
    ensures
        process_key(a) == process_key(b),
{
}

// ---------------------------------------------------------------------
// From the monitor to the bus
// ---------------------------------------------------------------------

/// Number of keys that are remembered.
pub const PROCESS_DEDUP_WINDOW: usize = 1024;

/// Counters of the module.
#[derive(Debug, Clone, Copy, PartialEq, Eq, Structural)]
pub struct ProcessMonitorVitals {
    pub events_emitted: u64,
    pub duplicates_dropped: u64,
    pub publish_failures: u64,
}

impl Default for ProcessMonitorVitals {
    fn default() -> (r: Self)
        ensures
            r == (ProcessMonitorVitals {
                events_emitted: 0,
                duplicates_dropped: 0,
                publish_failures: 0,
            }),
    {
        ProcessMonitorVitals { events_emitted: 0, duplicates_dropped: 0, publish_failures: 0 }
    }
}

/// The way of an event from the monitor to the bus.
#[derive(Debug)]
pub struct ProcessPipeline {
    dedup: DedupRing,
    vitals: ProcessMonitorVitals,
}

impl ProcessPipeline {
    /// Keys of recent events.
    pub closed spec fn window(&self) -> Seq<u64> {
        self.dedup@
    }

    /// The counters.
    pub closed spec fn counters(&self) -> ProcessMonitorVitals {
        self.vitals
    }

    /// The window is in order and has its fixed size.
    pub closed spec fn wf(&self) -> bool {
        &&& self.dedup.wf()
        &&& self.dedup.cap() == PROCESS_DEDUP_WINDOW
    }

    /// A pipeline that has seen nothing.
    pub fn new() -> (r: ProcessPipeline)
        ensures
            r.wf(),
            r.window() == Seq::<u64>::empty(),
            r.counters() == (ProcessMonitorVitals {
                events_emitted: 0,
                duplicates_dropped: 0,
                publish_failures: 0,
            }),
    {
        ProcessPipeline {
            dedup: DedupRing::new(PROCESS_DEDUP_WINDOW),
            vitals: ProcessMonitorVitals::default(),
        }
    }

    /// The counters.
    pub fn vitals(&self) -> (r: ProcessMonitorVitals)
        ensures
            r == self.counters(),
    {
        self.vitals
    }

    /// Takes an event and tells whether it is to go on to `emit_event`; a
    /// repeated one is dropped.
    pub fn on_event(&mut self, ev: &ProcessEvent) -> (fresh: bool)
        requires
            old(self).wf(),
            ev.at().valid(),
        ensures
            final(self).wf(),
            process_step(*old(self), *ev, *final(self), fresh),
    {
        let key = event_dedup_key(ev);
        if !self.dedup.insert(key) {
            self.vitals.duplicates_dropped = count_up(self.vitals.duplicates_dropped);
            return false;
        }
        true
    }

    /// Takes note of whether a payload was published.
    pub fn on_published(&mut self, ok: bool)
        requires
            old(self).wf(),
        ensures
            final(self).wf(),
            final(self).window() == old(self).window(),
            final(self).counters() == if ok {
                ProcessMonitorVitals {
                    events_emitted: wrapping_succ(old(self).counters().events_emitted),
                    ..old(self).counters()
                }
            } else {
                ProcessMonitorVitals {
                    publish_failures: wrapping_succ(old(self).counters().publish_failures),
                    ..old(self).counters()
                }
            },
    {
        if ok {
            self.vitals.events_emitted = count_up(self.vitals.events_emitted);
        } else {
            self.vitals.publish_failures = count_up(self.vitals.publish_failures);
        }
    }
}

/// What one event does to a pipeline: it goes on unless its key is still
/// remembered.
pub open spec fn process_step(
    pre: ProcessPipeline,
    ev: ProcessEvent,
    post: ProcessPipeline,
    fresh: bool,
) -> bool {
    let key = process_key(ev);
    &&& post.window() == window_after(pre.window(), PROCESS_DEDUP_WINDOW as nat, key)
    &&& fresh == !pre.window().contains(key)
    &&& post.counters() == if fresh {
        pre.counters()
    } else {
        ProcessMonitorVitals {
            duplicates_dropped: wrapping_succ(pre.counters().duplicates_dropped),
            ..pre.counters()
        }
    }
}

/// An occurrence that is reported twice in a row within a tenth of a second
/// goes on at most once.
pub proof fn law_repeated_process_event_is_collapsed(
    s0: ProcessPipeline,
    first: ProcessEvent,
    s1: ProcessPipeline,
    f1: bool,
    second: ProcessEvent,
    s2: ProcessPipeline,
    f2: bool,
)
    requires
        process_step(s0, first, s1, f1),
        process_step(s1, second, s2, f2),
        same_occurrence(first, second),
        tenth(first.at()) == tenth(second.at()),
    ensures
        !f2,
{
    crate::dedup::law_repeat_is_dropped(s0.window(), PROCESS_DEDUP_WINDOW as nat, process_key(first));
    law_same_tenth_same_process_key(first, second);
}

/// Where the loading of images is not wanted, none is ever published.
pub proof fn law_unwanted_images_are_not_published(
    ev: ProcessEvent,
    cfg: ProcessMonitorConfig,
    found: Option<Seq<AncestorView>>,
)
    requires
        !cfg.image_load_events,
    ensures
        published_process(ev, cfg, found) is Some ==> !(ev is ImageLoaded),
{
}

} // verus!
