//! Streams of events: what is remembered, what is let through, what is lost,
//! and how the modules that handle them live and end.

use crate::clock::{Timestamp};
use crate::dedup::DedupRing;
use crate::dns_monitor::{
    DnsEvent, DnsMonitorError, DnsMonitorOpts, DnsQueryType, LinuxDnsMonitor, MacosDnsMonitor,
    WindowsDnsMonitor,
};
use crate::fs_watcher::{convert_event, FsWatcher, FsWatcherError, NotifyKind};
use crate::lifecycle::{health_of, status_of, ModuleHealth, ModuleStatus, RunLoop, RunPhase, RunSignal};
use crate::network_module::{
    connection_key, dns_key, dns_step, network_step, DnsMonitorConfig, DnsMonitorModule,
    DnsPipeline, DnsStep, NetworkMonitorConfig, NetworkMonitorModule, NetworkPipeline,
    NetworkStep,
};
use crate::network_monitor::{
    MacosNetworkMonitor, NetworkEvent, NetworkMonitorError, NetworkMonitorOpts,
    TransportProtocol, WindowsNetworkMonitor,
};
use crate::process_monitor::{
    MacosProcessMonitor, ProcessMonitorError, ProcessMonitorOpts, WindowsProcessMonitor,
};
use crate::stream::{count_up, EventStream};
use crate::types::{FsEvent, FsEventKind};
use crate::process_module::ProcessMonitorModule;
use vstd::prelude::*;

verus! {

// ---------------------------------------------------------------------
// Windows and queues
// ---------------------------------------------------------------------

/// A key is fresh exactly where the window does not hold it; it then is the
/// newest there, and where there is no room the oldest goes.
pub proof fn law_windows(ring: &mut DedupRing, key: u64, fresh: bool)
    requires
        old(ring).wf(),
        call_ensures(DedupRing::insert, (ring, key), fresh),
    ensures
        fresh <==> !old(ring)@.contains(key),
        final(ring)@.contains(key),
        !fresh ==> final(ring)@ == old(ring)@,
        fresh ==> final(ring)@.last() == key,
        fresh && old(ring)@.len() < old(ring).cap() ==> final(ring)@.drop_last() == old(ring)@,
        fresh && old(ring)@.len() == old(ring).cap() ==> final(ring)@.drop_last() == old(ring)@.skip(1),
{
    let a = old(ring)@;
    let b = final(ring)@;
    if !a.contains(key) {
        assert(b.last() == key);
        if a.len() == old(ring).cap() {
            assert(b.drop_last() =~= a.skip(1));
        } else {
            assert(b.drop_last() =~= a);
        }
    }
}

/// A window has room for what was asked, and for one key at least.
pub proof fn law_room_of_windows(capacity: usize, r: DedupRing)
    requires
        call_ensures(DedupRing::new, (capacity,), r),
    ensures
        r@.len() == 0,
        capacity > 0 ==> r.cap() == capacity,
        capacity == 0 ==> r.cap() == 1,
{
}

/// What is sent is received, first in first out; an event is lost only where
/// there was no room, and it is the oldest.
pub proof fn law_queues<T>(
    q: &mut EventStream<T>,
    ev: T,
    p: &mut EventStream<T>,
    r: Option<T>,
)
    requires
        old(q).wf(),
        call_ensures(EventStream::<T>::send, (q, ev), ()),
        old(p).wf(),
        call_ensures(EventStream::<T>::recv, (p,), r),
    ensures
        final(q)@.last() == ev,
        old(q)@.len() < old(q).room() ==> final(q)@.drop_last() == old(q)@ && final(q).lost() == old(
            q,
        ).lost(),
        old(q)@.len() == old(q).room() ==> final(q)@.drop_last() == old(q)@.skip(1),
        old(q)@.len() == old(q).room() && old(q).lost() < u64::MAX ==> final(q).lost() == old(q).lost()
            + 1,
        r is Some <==> old(p)@.len() > 0,
        r is Some ==> r->0 == old(p)@[0] && final(p)@ == old(p)@.skip(1),
        r is None ==> final(p)@ == old(p)@,
        final(p).lost() == old(p).lost(),
{
    let a = old(q)@;
    let b = final(q)@;
    if a.len() < old(q).room() {
        assert(b.drop_last() =~= a);
    } else {
        assert(b.drop_last() =~= a.skip(1));
    }
    if r is Some {
        assert(final(p)@ =~= old(p)@.skip(1));
    }
}

/// A counter counts by one.
pub proof fn law_counters(n: u64, r: u64)
    requires
        call_ensures(count_up, (n,), r),
    ensures
        n < u64::MAX ==> r == n + 1,
        n == u64::MAX ==> r == 0,
{
}

// ---------------------------------------------------------------------
// Pipelines
// ---------------------------------------------------------------------

/// A connection is dropped as repeated exactly where its key is among the
/// last 2048 that came; any other is published, held back as one too many of
/// its UDP flow, or silent for being the end of a connection.
pub proof fn law_way_of_a_connection(
    pre: NetworkPipeline,
    ev: NetworkEvent,
    post: NetworkPipeline,
    r: NetworkStep,
)
    requires
        network_step(pre, ev, post, r),
        pre.window().len() <= 2048,
    ensures
        r is Duplicate <==> pre.window().contains(connection_key(ev)),
        r is Duplicate ==> post.window() == pre.window() && post.udp() == pre.udp(),
        !(r is Duplicate) && pre.window().len() < 2048 ==> post.window() == pre.window().push(
            connection_key(ev),
        ),
        !(r is Duplicate) && pre.window().len() == 2048 ==> post.window() == pre.window().skip(1).push(
            connection_key(ev),
        ),
        r is SampledOut ==> pre.samples() && ev is Connect && ev.key().protocol == TransportProtocol::Udp
            && pre.udp().count(ev.key(), ev.at().secs) >= 4,
        r is Silent ==> !(ev is Connect),
        r is Publish ==> ev is Connect,
        !pre.samples() && ev is Connect && !(r is Duplicate) ==> r is Publish,
        ev is Connect && ev.key().protocol == TransportProtocol::Tcp && !(r is Duplicate) ==> r is Publish,
{
    assert(pre.window().drop_first() =~= pre.window().skip(1));
}

/// Each event counts once: as a repetition, as one held back, or, once it
/// was handed on, as published or as failed.
pub proof fn law_counters_of_connections(
    pre: NetworkPipeline,
    ev: NetworkEvent,
    post: NetworkPipeline,
    r: NetworkStep,
    p: &mut NetworkPipeline,
    ok: bool,
)
    requires
        network_step(pre, ev, post, r),
        old(p).wf(),
        call_ensures(NetworkPipeline::on_published, (p, ok), ()),
    ensures
        ({
            let a = pre.counters();
            let b = post.counters();
            &&& b.events_emitted == a.events_emitted
            &&& b.publish_failures == a.publish_failures
            &&& a.duplicates_dropped < u64::MAX ==> b.duplicates_dropped == a.duplicates_dropped + (
            if r is Duplicate {
                1int
            } else {
                0
            })
            &&& a.udp_samples_dropped < u64::MAX ==> b.udp_samples_dropped == a.udp_samples_dropped + (
            if r is SampledOut {
                1int
            } else {
                0
            })
        }),
        ({
            let a = old(p).counters();
            let b = final(p).counters();
            &&& b.duplicates_dropped == a.duplicates_dropped
            &&& b.udp_samples_dropped == a.udp_samples_dropped
            &&& a.events_emitted < u64::MAX ==> b.events_emitted == a.events_emitted + (if ok {
                1int
            } else {
                0
            })
            &&& a.publish_failures < u64::MAX ==> b.publish_failures == a.publish_failures + (if ok {
                0int
            } else {
                1
            })
        }),
{
}

/// A query is dropped as repeated exactly where its key is among the last
/// 2048 that came, and published otherwise.
pub proof fn law_way_of_a_query(pre: DnsPipeline, ev: DnsEvent, post: DnsPipeline, r: DnsStep)
    requires
        dns_step(pre, ev, post, r),
        pre.window().len() <= 2048,
    ensures
        r is Duplicate <==> pre.window().contains(dns_key(ev)),
        r is Publish <==> !pre.window().contains(dns_key(ev)),
        r is Duplicate ==> post.window() == pre.window(),
        r is Publish && pre.window().len() < 2048 ==> post.window() == pre.window().push(dns_key(ev)),
        r is Publish && pre.window().len() == 2048 ==> post.window() == pre.window().skip(1).push(
            dns_key(ev),
        ),
        r is Publish ==> r->Publish_0.query_name@ == ev.query_name@ && r->Publish_0.pid == ev.pid
            && r->Publish_0.query_type@ == ev.query_type.name(),
        r is Publish ==> post.counters() == pre.counters(),
        r is Duplicate && pre.counters().duplicates_dropped < u64::MAX
            ==> post.counters().duplicates_dropped == pre.counters().duplicates_dropped + 1,
{
    assert(pre.window().drop_first() =~= pre.window().skip(1));
}

/// The settings of the modules, where nothing is said of them.
pub proof fn law_settings_by_default(n: NetworkMonitorConfig, d: DnsMonitorConfig, o: NetworkMonitorOpts, p: ProcessMonitorOpts)
    requires
        call_ensures(NetworkMonitorConfig::default, (), n),
        call_ensures(DnsMonitorConfig::default, (), d),
        call_ensures(NetworkMonitorOpts::default, (), o),
        call_ensures(ProcessMonitorOpts::default, (), p),
    ensures
        !n.enabled && n.direction_outbound && n.direction_inbound && n.sample_high_rate_udp
            && n.event_buffer_size == 8192,
        !d.enabled && d.source@ == "auto"@,
        o.outbound && o.inbound && o.sample_high_rate_udp && o.channel_buffer == 8192
            && o.poll_interval_ms == 1000,
        p.image_load_events && p.channel_buffer == 4096 && p.poll_interval_ms == 500,
{
}

/// What the network module asks the monitor for is what it was configured
/// with; the monitor reads its tables as often as asked, but at most ten times
/// a second.
pub proof fn law_network_subscription(c: NetworkMonitorConfig, r: NetworkMonitorOpts, o: NetworkMonitorOpts, ms: u64)
    requires
        call_ensures(NetworkMonitorConfig::subscription, (&c,), r),
        call_ensures(NetworkMonitorOpts::effective_poll_ms, (&o,), ms),
    ensures
        r.outbound == c.direction_outbound && r.inbound == c.direction_inbound,
        r.sample_high_rate_udp == c.sample_high_rate_udp && r.channel_buffer == c.event_buffer_size,
        r.poll_interval_ms == 1000,
        ms >= 100,
        o.poll_interval_ms >= 100 ==> ms == o.poll_interval_ms,
        o.poll_interval_ms < 100 ==> ms == 100,
{
}

/// The name of a record type on the wire is its own.
pub proof fn law_wire_names(t: DnsQueryType, r: &'static str, c: u8)
    requires
        call_ensures(DnsQueryType::as_wire, (&t,), r),
        call_ensures(DnsQueryType::code, (&t,), c),
    ensures
        r@ == t.name(),
        c == t.code_spec(),
        c <= 10,
{
}

// ---------------------------------------------------------------------
// Life cycle
// ---------------------------------------------------------------------

/// What the codes of the status stand for.
pub proof fn law_status_codes(code: u8, s: ModuleStatus, h: ModuleHealth)
    requires
        call_ensures(status_of, (code,), s),
        call_ensures(health_of, (code,), h),
    ensures
        s == ModuleStatus::Running <==> code == 1,
        s == ModuleStatus::Stopped <==> code == 2,
        s == ModuleStatus::Failed <==> code == 3,
        h == ModuleHealth::Unhealthy <==> s == ModuleStatus::Failed,
{
}

/// A run loop: a module that is on subscribes, receives until its stream ends
/// and stops when it is told to; one that is off, or could not subscribe, only
/// waits to be told.
pub proof fn law_run_loops(l: &mut RunLoop, signal: RunSignal, on: RunLoop, off: RunLoop)
    requires
        old(l).consistent(),
        call_ensures(RunLoop::signal, (l, signal), ()),
        call_ensures(RunLoop::begin, (true,), on),
        call_ensures(RunLoop::begin, (false,), off),
    ensures
        on.phase == RunPhase::Subscribing && on.status == 0,
        off.phase == RunPhase::Idle && off.status == 1,
        old(l).phase == RunPhase::Subscribing && signal == RunSignal::Subscribed ==> final(l).phase
            == RunPhase::Receiving && final(l).status == 1,
        old(l).phase == RunPhase::Subscribing && signal == RunSignal::SubscribeFailed ==> final(l).phase
            == RunPhase::Unsubscribed && final(l).status == 3,
        old(l).phase == RunPhase::Receiving && signal == RunSignal::StreamClosed ==> final(l).phase
            == RunPhase::Drained && final(l).status == 1,
        signal == RunSignal::Shutdown && (old(l).phase == RunPhase::Idle || old(l).phase
            == RunPhase::Receiving || old(l).phase == RunPhase::Drained) ==> final(l).phase
            == RunPhase::Ended && final(l).status == 2,
        signal == RunSignal::Shutdown && old(l).phase == RunPhase::Unsubscribed ==> final(l).phase
            == RunPhase::Ended && final(l).status == 3,
        old(l).phase == RunPhase::Ended ==> *final(l) == *old(l),
        old(l).phase == RunPhase::Idle && signal != RunSignal::Shutdown ==> *final(l) == *old(l),
{
}

// ---------------------------------------------------------------------
// Files
// ---------------------------------------------------------------------

/// Each change is reported under its own kind, of every path in order; a mere
/// look at a file is not.
pub proof fn law_reported_changes(kind: NotifyKind, paths: Vec<String>, r: Option<Vec<FsEvent>>, i: int)
    requires
        call_ensures(convert_event, (kind, &paths), r),
    ensures
        kind == NotifyKind::Access || kind == NotifyKind::Other || paths@.len() == 0 <==> r is None,
        r is Some ==> r->0@.len() == paths@.len(),
        r is Some && 0 <= i < paths@.len() ==> r->0@[i].path@ == paths@[i]@ && r->0@[i].kind == (
        match kind {
            NotifyKind::Create => FsEventKind::Created,
            NotifyKind::ModifyMetadata => FsEventKind::MetadataChanged,
            NotifyKind::ModifyName => FsEventKind::Renamed,
            NotifyKind::Remove => FsEventKind::Deleted,
            _ => FsEventKind::Modified,
        }),
{
}

/// A path is watched from when the system watches it until the system lets go
/// of it; a failure changes nothing and says which path it was.
pub proof fn law_watched_paths(
    w: &mut FsWatcher,
    path: &str,
    outcome: Result<(), String>,
    r: Result<(), FsWatcherError>,
    u: &mut FsWatcher,
    s: Result<(), FsWatcherError>,
    other: Seq<char>,
)
    requires
        call_ensures(FsWatcher::watch, (w, path, outcome), r),
        call_ensures(FsWatcher::unwatch, (u, path, outcome), s),
    ensures
        r is Ok <==> outcome is Ok,
        s is Ok <==> outcome is Ok,
        outcome is Ok ==> final(w).paths().last() == path@ && final(w).paths().drop_last() == old(
            w,
        ).paths(),
        outcome is Ok ==> !final(u).paths().contains(path@),
        outcome is Ok && other != path@ ==> (final(u).paths().contains(other) <==> old(u).paths().contains(
            other,
        )),
        outcome is Err ==> final(w).paths() == old(w).paths() && final(u).paths() == old(u).paths(),
        outcome is Err ==> r->Err_0 is WatchFailed && r->Err_0->path@ == path@ && r->Err_0->source
            == outcome->Err_0,
        outcome is Err ==> s->Err_0 is WatchFailed && s->Err_0->path@ == path@ && s->Err_0->source
            == outcome->Err_0,
{
    if outcome is Ok {
        assert(final(w).paths().drop_last() =~= old(w).paths());
        let p = |x: Seq<char>| x != path@;
        let a = old(u).paths();
        let b = a.filter(p);
        assert(final(u).paths() == b);
        assert forall|x: Seq<char>| #[trigger] b.contains(x) <==> a.contains(x) && x != path@ by {
            if a.contains(x) && x != path@ {
                let i = choose|i: int| 0 <= i < a.len() && a[i] == x;
                a.lemma_filter_contains(p, i);
            }
            if b.contains(x) {
                let i = choose|i: int| 0 <= i < b.len() && b[i] == x;
                a.lemma_filter_pred(p, i);
                a.lemma_filter_contains_rev(p, x);
            }
        }
    }
}

// ---------------------------------------------------------------------
// Time
// ---------------------------------------------------------------------

/// Milliseconds are whole ones, rounded down; of two points in time one is
/// not after the other, and both only where they are the same.
pub proof fn law_time(a: Timestamp, b: Timestamp, m: i64, ab: bool, ba: bool)
    requires
        call_ensures(Timestamp::timestamp_millis, (&a,), m),
        call_ensures(Timestamp::is_not_after, (&a, &b), ab),
        call_ensures(Timestamp::is_not_after, (&b, &a), ba),
    ensures
        m * 1_000_000 <= a.secs * 1_000_000_000 + a.nanos < (m + 1) * 1_000_000,
        ab || ba,
        ab && ba ==> a == b,
        a.secs < b.secs ==> !ba,
        a.secs == b.secs && a.nanos < b.nanos ==> !ba,
{
}

/// Time that is added can be told again: outside of leap seconds, the point
/// that is some seconds later is that many seconds away.
pub proof fn law_added_time_passes(a: Timestamp, secs: u64, b: Timestamp, n: Option<u128>)
    requires
        a.valid(),
        a.nanos < 1_000_000_000,
        a.secs + secs <= 8_210_266_876_799,
        call_ensures(Timestamp::after_secs, (&a, secs), b),
        call_ensures(Timestamp::nanos_since, (&b, &a), n),
    ensures
        b.secs == a.secs + secs && b.nanos == a.nanos,
        n is Some && n->0 == secs * 1_000_000_000,
{
}

/// The modules are known by their names, and say of themselves what their
/// codes stand for.
pub proof fn law_modules(
    n: NetworkMonitorModule,
    d: DnsMonitorModule,
    p: ProcessMonitorModule,
    a: &'static str,
    b: &'static str,
    c: &'static str,
    s: ModuleStatus,
    t: ModuleStatus,
    u: ModuleStatus,
    x: ModuleHealth,
    y: ModuleHealth,
    z: ModuleHealth,
)
    requires
        call_ensures(NetworkMonitorModule::name, (&n,), a),
        call_ensures(DnsMonitorModule::name, (&d,), b),
        call_ensures(ProcessMonitorModule::name, (&p,), c),
        call_ensures(NetworkMonitorModule::status, (&n,), s),
        call_ensures(DnsMonitorModule::status, (&d,), t),
        call_ensures(ProcessMonitorModule::status, (&p,), u),
        call_ensures(NetworkMonitorModule::health, (&n,), x),
        call_ensures(DnsMonitorModule::health, (&d,), y),
        call_ensures(ProcessMonitorModule::health, (&p,), z),
    ensures
        a@ == "network_monitor"@ && b@ == "dns_monitor"@ && c@ == "process_monitor"@,
        s == ModuleStatus::Running <==> n.code() == 1,
        s == ModuleStatus::Stopped <==> n.code() == 2,
        s == ModuleStatus::Failed <==> n.code() == 3,
        t == ModuleStatus::Running <==> d.code() == 1,
        t == ModuleStatus::Failed <==> d.code() == 3,
        u == ModuleStatus::Running <==> p.code() == 1,
        u == ModuleStatus::Failed <==> p.code() == 3,
        x is Unhealthy <==> n.code() == 3,
        y is Unhealthy <==> d.code() == 3,
        z is Unhealthy <==> p.code() == 3,
{
}

/// What cannot be observed on a system is refused, and the refusal says what
/// would be needed.
pub proof fn law_monitors_that_are_not_there(
    o: DnsMonitorOpts,
    q: ProcessMonitorOpts,
    w: NetworkMonitorOpts,
    dl: LinuxDnsMonitor,
    dw: WindowsDnsMonitor,
    dm: MacosDnsMonitor,
    pw: WindowsProcessMonitor,
    pm: MacosProcessMonitor,
    nw: WindowsNetworkMonitor,
    nm: MacosNetworkMonitor,
    a: Result<(), DnsMonitorError>,
    b: Result<(), DnsMonitorError>,
    c: Result<(), DnsMonitorError>,
    d: Result<(), ProcessMonitorError>,
    e: Result<(), ProcessMonitorError>,
    f: Result<(), NetworkMonitorError>,
    g: Result<(), NetworkMonitorError>,
)
    requires
        call_ensures(LinuxDnsMonitor::subscribe, (&dl, &o), a),
        call_ensures(WindowsDnsMonitor::subscribe, (&dw, &o), b),
        call_ensures(MacosDnsMonitor::subscribe, (&dm, &o), c),
        call_ensures(WindowsProcessMonitor::subscribe, (&pw, &q), d),
        call_ensures(MacosProcessMonitor::subscribe, (&pm, &q), e),
        call_ensures(WindowsNetworkMonitor::subscribe, (&nw, &w), f),
        call_ensures(MacosNetworkMonitor::subscribe, (&nm, &w), g),
    ensures
        a is Err && a->Err_0 is Unsupported && a->Err_0->Unsupported_0@
            == "Linux DnsMonitor requires journalctl/systemd-resolved or an eBPF probe; use MockDnsMonitor in CI"@,
        b is Err && b->Err_0 is Unsupported && b->Err_0->Unsupported_0@
            == "ETW DnsMonitor requires SYSTEM; use MockDnsMonitor in CI"@,
        c is Err && c->Err_0 is Unsupported && c->Err_0->Unsupported_0@
            == "NEDNSProxyProvider DnsMonitor requires entitlement; use MockDnsMonitor in CI"@,
        d is Err && d->Err_0 is Unsupported && d->Err_0->Unsupported_0@
            == "ETW Microsoft-Windows-Kernel-Process provider not wired (needs SYSTEM)"@,
        e is Err && e->Err_0 is Unsupported && e->Err_0->Unsupported_0@
            == "Endpoint Security client not wired (needs entitlement)"@,
        f is Err && f->Err_0 is Unsupported && f->Err_0->Unsupported_0@
            == "ETW NetworkMonitor requires a signed-driver build; use MockNetworkMonitor in CI"@,
        g is Err && g->Err_0 is Unsupported && g->Err_0->Unsupported_0@
            == "NEFilterDataProvider NetworkMonitor requires Apple entitlement; use MockNetworkMonitor in CI"@,
{
}

/// Time that would pass the end of the calendar stops there.
pub proof fn law_the_calendar_ends(t: Timestamp, secs: u64, r: Timestamp)
    requires
        t.valid(),
        call_ensures(Timestamp::after_secs, (&t, secs), r),
        t.secs + secs > 8_210_266_876_799,
        secs > 0,
    ensures
        r.secs == 8_210_266_876_799,
        r.nanos == 999_999_999,
{
}

} // verus!
