//! Memory scans on a host: what is listed, what is read and what is counted.

use crate::laws::text::{law_gathering, law_written_numbers_are_read};
use crate::memory_module::{
    column_time, idle_time, scan_once, total_time, AlertSink, LinuxProcessLister, MemoryAlertKind,
    MemoryMatcher, MemoryScanner, MemoryScannerConfig, MemoryScannerModule, MemoryScannerVitals,
    ProcStatCpuSampler, ProcessHandle, ProcessLister,
};
use crate::memory_scanner::{
    maps_line, parse_proc_maps, LinuxMemoryScanner, MacosMemoryScanner, MappingKind,
    MemoryPermissions, MemoryRegion, MockMemoryScanner, RegionInfo, RegionWalk, ScanError,
    ScanErrorKind, UnsupportedMemoryScanner, WindowsMemoryScanner,
};
use crate::scan_host::ScanHost;
use crate::text::{gather, lines_of, number, numeral, trimmed, views, words_of};
use crate::types::PowerState;
use vstd::prelude::*;

verus! {

// ---------------------------------------------------------------------
// Regions
// ---------------------------------------------------------------------

/// Every answer to a walk adds the region that it describes, where memory is
/// committed to it, and nothing else. Private memory is never told to be a
/// file's, and only an image or a mapping without all three rights is.
pub proof fn law_walks_tell_what_backs_a_region(w: &mut RegionWalk, i: RegionInfo)
    requires
        !old(w).over(),
        call_ensures(RegionWalk::step, (w, Some(i)), ()),
    ensures
        i.state != 0x1000 ==> final(w).regions() == old(w).regions(),
        i.state == 0x1000 ==> {
            let r = final(w).regions().last();
            &&& final(w).regions().drop_last() == old(w).regions()
            &&& r.base == i.base && r.size == i.size
            &&& i.kind == 0x2_0000 ==> !(r.mapping is FileBacked)
            &&& r.mapping is FileBacked <==> (i.kind == 0x100_0000 || i.kind == 0x4_0000) && !(
            r.permissions.readable && r.permissions.writable && r.permissions.executable)
            &&& r.permissions.readable && r.permissions.writable && r.permissions.executable && (i.kind
                == 0x2_0000 || i.kind == 0x100_0000 || i.kind == 0x4_0000) <==> r.mapping is Jit
        },
{
    if i.state == 0x1000 {
        assert(final(w).regions().drop_last() =~= old(w).regions());
    }
}

/// A walk goes on at the end of the region that it was told of, and ends where
/// that is not further on, or where there is no answer.
pub proof fn law_walks_go_on(w: &mut RegionWalk, i: RegionInfo, v: &mut RegionWalk)
    requires
        !old(w).over(),
        call_ensures(RegionWalk::step, (w, Some(i)), ()),
        !old(v).over(),
        call_ensures(RegionWalk::step, (v, None::<RegionInfo>), ()),
    ensures
        i.base + i.size <= u64::MAX && i.base + i.size > old(w).at() ==> final(w).at() == i.base + i.size
            && !final(w).over(),
        i.base + i.size <= old(w).at() ==> final(w).over(),
        i.base + i.size > u64::MAX && old(w).at() < u64::MAX ==> final(w).at() == u64::MAX
            && !final(w).over(),
        final(v).over(),
        final(v).regions() == old(v).regions(),
{
}

/// A walk begins at the lowest address, with nothing found.
pub proof fn law_walks_begin(w: RegionWalk, r: Option<u64>)
    requires
        call_ensures(RegionWalk::begin, (), w),
        call_ensures(RegionWalk::next_address, (&w,), r),
    ensures
        r == Some(0u64),
        w.regions().len() == 0,
{
}

/// Rights and files, as they are asked for.
pub proof fn law_rights_and_files(p: MemoryPermissions, m: MappingKind, r: bool, f: bool, z: MemoryPermissions)
    requires
        call_ensures(MemoryPermissions::is_rwx, (&p,), r),
        call_ensures(MappingKind::is_file_backed, (&m,), f),
        call_ensures(MemoryPermissions::default, (), z),
    ensures
        r <==> p.readable && p.writable && p.executable,
        f <==> m is FileBacked,
        !z.readable && !z.writable && !z.executable,
{
}

/// Each line of a maps file adds its region, in order, and nothing else.
pub proof fn law_maps_files(line: Seq<char>, rest: Seq<char>, a: &str, b: &str, r: Vec<MemoryRegion>, s: Vec<MemoryRegion>)
    requires
        !line.contains('\n'),
        line.len() > 0,
        line.last() != '\r',
        a@ == line + seq!['\n'] + rest,
        b@ == rest,
        call_ensures(parse_proc_maps, (a,), r),
        call_ensures(parse_proc_maps, (b,), s),
    ensures
        maps_line(line) is None ==> r@.len() == s@.len(),
        maps_line(line) is Some ==> r@.len() == s@.len() + 1 && r@[0]@ == maps_line(line)->0,
        forall|i: int|
            0 <= i < s@.len() ==> #[trigger] s@[i]@ == r@[i + r@.len() - s@.len()]@,
{
    let f = crate::memory_scanner::maps_reader();
    crate::laws::text::law_lines_come_apart(line, rest);
    let none: Seq<Seq<char>> = Seq::empty();
    let l = lines_of(rest);
    law_gathering(none, line, l, f);
    assert(none + seq![line] + l =~= seq![line] + l);
    assert(gather(none, f) =~= Seq::empty());
    let x = crate::memory_scanner::region_views(r@);
    let y = crate::memory_scanner::region_views(s@);
    let head = match maps_line(line) {
        Some(m) => seq![m],
        None => Seq::empty(),
    };
    assert(x =~= head + y);
    assert(x.len() == r@.len() && y.len() == s@.len());
    assert forall|i: int| 0 <= i < s@.len() implies #[trigger] s@[i]@ == r@[i + r@.len() - s@.len()]@ by {
        assert(y[i] == s@[i]@);
        assert(x[i + head.len()] == y[i]);
        assert(x[i + head.len()] == r@[i + head.len()]@);
    }
    if maps_line(line) is Some {
        assert(x[0] == r@[0]@);
    }
}

/// The agent's own memory is never listed and never read, on no system.
pub proof fn law_the_agent_is_left_alone(
    l: LinuxMemoryScanner,
    w: WindowsMemoryScanner,
    m: MacosMemoryScanner,
    maps: Result<String, ScanError>,
    answers: Vec<RegionInfo>,
    len: usize,
    room: usize,
    a: Result<Vec<MemoryRegion>, ScanError>,
    b: Vec<MemoryRegion>,
    c: Result<Vec<MemoryRegion>, ScanError>,
    x: Result<usize, ScanError>,
    y: Result<usize, ScanError>,
)
    requires
        call_ensures(LinuxMemoryScanner::enumerate, (&l, l.own(), maps), a),
        call_ensures(WindowsMemoryScanner::enumerate, (&w, w.own(), &answers), b),
        call_ensures(MacosMemoryScanner::enumerate, (&m, m.own()), c),
        call_ensures(LinuxMemoryScanner::read_limit, (&l, l.own(), len, room), x),
        call_ensures(WindowsMemoryScanner::read_limit, (&w, w.own(), len, room), y),
    ensures
        a is Ok && a->Ok_0@.len() == 0,
        b@.len() == 0,
        c is Ok && c->Ok_0@.len() == 0,
        x is Err && x->Err_0.kind == ScanErrorKind::PermissionDenied && x->Err_0.message@
            == "refusing to read the agent's own memory"@,
        y is Err && y->Err_0.kind == ScanErrorKind::PermissionDenied && y->Err_0.message@
            == "refusing to read the agent's own memory"@,
{
    assert(crate::memory_scanner::region_views(b@).len() == b@.len());
}

/// Of another process as much is read as was asked for and there is room for,
/// and its regions are those of its maps file.
pub proof fn law_other_processes_are_read(
    l: LinuxMemoryScanner,
    w: WindowsMemoryScanner,
    pid: u32,
    maps: String,
    fault: ScanError,
    len: usize,
    room: usize,
    a: Result<Vec<MemoryRegion>, ScanError>,
    b: Result<Vec<MemoryRegion>, ScanError>,
    x: Result<usize, ScanError>,
    y: Result<usize, ScanError>,
)
    requires
        pid != l.own(),
        pid != w.own(),
        call_ensures(LinuxMemoryScanner::enumerate, (&l, pid, Ok::<String, ScanError>(maps)), a),
        call_ensures(LinuxMemoryScanner::enumerate, (&l, pid, Err::<String, ScanError>(fault)), b),
        call_ensures(LinuxMemoryScanner::read_limit, (&l, pid, len, room), x),
        call_ensures(WindowsMemoryScanner::read_limit, (&w, pid, len, room), y),
    ensures
        a is Ok && crate::memory_scanner::region_views(a->Ok_0@) == gather(
            lines_of(maps@),
            crate::memory_scanner::maps_reader(),
        ),
        b == Err::<Vec<MemoryRegion>, ScanError>(fault),
        x is Ok && x->Ok_0 <= len && x->Ok_0 <= room && (x->Ok_0 == len || x->Ok_0 == room),
        y is Ok && y->Ok_0 == x->Ok_0,
{
}

/// The files of a process.
pub proof fn law_files_of_a_process(l: LinuxMemoryScanner, pid: u32, maps: String, mem: String)
    requires
        call_ensures(LinuxMemoryScanner::maps_path, (&l, pid), maps),
        call_ensures(LinuxMemoryScanner::mem_path, (&l, pid), mem),
    ensures
        maps@ == "/proc/"@ + numeral(pid as nat, 10) + "/maps"@,
        mem@ == "/proc/"@ + numeral(pid as nat, 10) + "/mem"@,
{
}

/// Where memory cannot be scanned, that is said.
pub proof fn law_unsupported_scanners(
    m: MacosMemoryScanner,
    u: UnsupportedMemoryScanner,
    pid: u32,
    a: Result<Vec<MemoryRegion>, ScanError>,
    b: Result<Vec<MemoryRegion>, ScanError>,
)
    requires
        pid != m.own(),
        call_ensures(MacosMemoryScanner::enumerate, (&m, pid), a),
        call_ensures(UnsupportedMemoryScanner::enumerate, (&u, pid), b),
    ensures
        a is Err && a->Err_0.kind == ScanErrorKind::Unsupported,
        b is Err && b->Err_0.kind == ScanErrorKind::Unsupported,
{
}

/// Canned memory is copied as far as it was asked for, as there is any and as
/// there is room; the rest of the buffer stays.
pub proof fn law_canned_memory(
    m: &mut MockMemoryScanner,
    pid: u32,
    base: u64,
    len: usize,
    buf: &mut [u8],
    r: Result<usize, ScanError>,
    i: int,
)
    requires
        call_ensures(MockMemoryScanner::read, (m, pid, base, len, buf), r),
    ensures
        r is Err <==> pid == old(m).own(),
        final(buf)@.len() == old(buf)@.len(),
        r is Err ==> final(buf)@ == old(buf)@,
        r is Ok && old(m).memory(pid, base) is None ==> r->Ok_0 == 0,
        r is Ok && old(m).memory(pid, base) is Some && 0 <= i < old(buf)@.len() ==> final(buf)@[i] == if i
            < len && i < old(m).memory(pid, base)->0.len() {
            old(m).memory(pid, base)->0[i]
        } else {
            old(buf)@[i]
        },
        old(m).readings() < u64::MAX ==> final(m).readings() == old(m).readings() + 1,
{
}

// ---------------------------------------------------------------------
// Processes and load
// ---------------------------------------------------------------------

/// An entry of the process directory is a process where its name is a
/// number; the name of the process is what its file holds, without the space
/// around it.
pub proof fn law_entries_of_processes(
    pid: u32,
    file_name: &str,
    comm: &str,
    r: Option<ProcessHandle>,
    bare: Option<ProcessHandle>,
)
    requires
        call_ensures(LinuxProcessLister::entry, (file_name, Some(comm)), r),
        call_ensures(LinuxProcessLister::entry, (file_name, None::<&str>), bare),
    ensures
        r is Some <==> number(file_name@, 10, 0xffff_ffff) is Some,
        bare is Some <==> r is Some,
        file_name@ == numeral(pid as nat, 10) ==> r is Some && r->0.pid == pid && bare->0.pid == pid,
        r is Some ==> r->0.name@ == trimmed(comm@) && bare->0.name@.len() == 0,
{
    law_written_numbers_are_read(pid as nat, 10, 0xffff_ffff);
}

/// The sum of some numbers.
pub open spec fn sum_of(v: Seq<u64>) -> int
    decreases v.len(),
{
    if v.len() == 0 {
        0
    } else {
        sum_of(v.drop_last()) + v.last()
    }
}

/// The numbers as words.
pub open spec fn written(v: Seq<u64>) -> Seq<Seq<char>> {
    v.map_values(|n: u64| numeral(n as nat, 10))
}

proof fn lemma_sum_grows(v: Seq<u64>, k: int)
    requires
        0 <= k <= v.len(),
    ensures
        0 <= sum_of(v.take(k)) <= sum_of(v),
    decreases v.len() - k,
{
    lemma_sum_positive(v.take(k));
    if k < v.len() {
        lemma_sum_grows(v, k + 1);
        assert(v.take(k + 1).drop_last() =~= v.take(k));
    } else {
        assert(v.take(k) =~= v);
    }
}

proof fn lemma_sum_positive(v: Seq<u64>)
    ensures
        sum_of(v) >= 0,
    decreases v.len(),
{
    if v.len() > 0 {
        lemma_sum_positive(v.drop_last());
    }
}

proof fn lemma_column(v: Seq<u64>, k: int)
    requires
        0 <= k < v.len(),
    ensures
        column_time(written(v)[k]) == v[k],
{
    law_written_numbers_are_read(v[k] as nat, 10, u64::MAX as nat);
    assert(written(v)[k] == numeral(v[k] as nat, 10));
}

proof fn lemma_total(v: Seq<u64>, n: int)
    requires
        0 <= n <= v.len(),
        sum_of(v) <= u64::MAX,
    ensures
        total_time(written(v), n) == sum_of(v.take(n)),
    decreases n,
{
    if n > 0 {
        lemma_total(v, n - 1);
        lemma_column(v, n - 1);
        lemma_sum_grows(v, n);
        assert(v.take(n).drop_last() =~= v.take(n - 1));
        assert(v.take(n).last() == v[n - 1]);
    }
}

proof fn lemma_idle(v: Seq<u64>, n: int)
    requires
        5 <= v.len(),
        0 <= n <= v.len(),
        v[3] + v[4] <= u64::MAX,
    ensures
        idle_time(written(v), n) == if n <= 3 {
            0int
        } else if n == 4 {
            v[3] as int
        } else {
            v[3] + v[4]
        },
    decreases n,
{
    if n > 0 {
        lemma_idle(v, n - 1);
        lemma_column(v, n - 1);
    }
}

/// The line of all processors together is read column by column: the total is
/// the sum of all columns, and the fourth and the fifth are idle.
pub proof fn law_processor_times(contents: &str, v: Seq<u64>, r: Option<(u64, u64)>)
    requires
        call_ensures(ProcStatCpuSampler::read_totals, (contents,), r),
        lines_of(contents@).len() > 0,
        "cpu "@.is_prefix_of(lines_of(contents@)[0]),
        words_of(lines_of(contents@)[0]) == seq!["cpu"@] + written(v),
        v.len() >= 5,
        sum_of(v) <= u64::MAX,
    ensures
        r matches Some((total, idle)) && total == sum_of(v) && idle == v[3] + v[4],
{
    let l = lines_of(contents@)[0];
    let w = words_of(l).skip(1);
    assert(w =~= written(v));
    let n = v.len() as int;
    lemma_total(v, n);
    assert(v.take(n) =~= v);
    lemma_sum_grows(v, 5);
    assert(v.take(5).drop_last() =~= v.take(4));
    assert(v.take(4).drop_last() =~= v.take(3));
    lemma_sum_positive(v.take(3));
    assert(sum_of(v.take(5)) == sum_of(v.take(4)) + v[4]);
    assert(sum_of(v.take(4)) == sum_of(v.take(3)) + v[3]);
    lemma_idle(v, n);
}

/// Statistics that do not begin with the line of all processors tell nothing.
pub proof fn law_other_statistics(contents: &str, r: Option<(u64, u64)>)
    requires
        call_ensures(ProcStatCpuSampler::read_totals, (contents,), r),
    ensures
        lines_of(contents@).len() == 0 ==> r is None,
        lines_of(contents@).len() > 0 && !"cpu "@.is_prefix_of(lines_of(contents@)[0])
            && !"cpu\t"@.is_prefix_of(lines_of(contents@)[0]) ==> r is None,
{
}

// ---------------------------------------------------------------------
// Settings, alerts and counters
// ---------------------------------------------------------------------

/// The settings, where nothing is said of them, and how often scans are made.
pub proof fn law_settings_of_scans(d: MemoryScannerConfig, c: MemoryScannerConfig, secs: u64, s: ProcStatCpuSampler)
    requires
        call_ensures(MemoryScannerConfig::default, (), d),
        call_ensures(MemoryScannerConfig::effective_interval_secs, (&c,), secs),
        call_ensures(ProcStatCpuSampler::new, (), s),
    ensures
        !d.enabled && d.scan_interval_secs == 5 * 60 && d.only_when_idle_below_cpu_pct == 20,
        views(d.allow_list_processes@) == seq!["sn360-desktop-agent"@],
        d.yara_rule_source@ == "trds"@ && d.defer_on_battery && d.max_region_bytes == 0x40_0000,
        secs >= 1,
        c.scan_interval_secs >= 1 ==> secs == c.scan_interval_secs,
        s.sample_window_ms == 100,
{
}

/// The names of the alerts on the wire.
pub proof fn law_names_of_alerts(k: MemoryAlertKind, r: &'static str)
    requires
        call_ensures(MemoryAlertKind::as_wire, (&k,), r),
    ensures
        r@ == "yara_match"@ <==> k == MemoryAlertKind::YaraMatch,
        r@ == "amsi_match"@ <==> k == MemoryAlertKind::AmsiMatch,
        r@ == "rwx_region_enumerated"@ <==> k == MemoryAlertKind::RwxRegionEnumerated,
{
    reveal_strlit("yara_match");
    reveal_strlit("amsi_match");
    reveal_strlit("rwx_region_enumerated");
    assert("yara_match"@[0] == 'y' && "amsi_match"@[0] == 'a' && "rwx_region_enumerated"@[0] == 'r');
}

/// An alert counts as published or as failed, and as nothing else.
pub proof fn law_alerts_are_counted(v: &mut MemoryScannerVitals, ok: bool)
    requires
        call_ensures(MemoryScannerVitals::on_published, (v, ok), ()),
        old(v).matches_emitted < u64::MAX,
        old(v).publish_failures < u64::MAX,
    ensures
        final(v).matches_emitted == old(v).matches_emitted + (if ok {
            1int
        } else {
            0
        }),
        final(v).publish_failures == old(v).publish_failures + (if ok {
            0int
        } else {
            1
        }),
        final(v).scans_started == old(v).scans_started,
        final(v).regions_scanned == old(v).regions_scanned,
        final(v).regions_enumerated == old(v).regions_enumerated,
{
}

/// A scan that is held back asks nothing of the host and says why it was; any
/// scan counts as started.
pub proof fn law_scans_that_are_held_back<
    S: MemoryScanner,
    L: ProcessLister,
    M: MemoryMatcher,
    A: AlertSink,
>(
    cfg: MemoryScannerConfig,
    host: &mut ScanHost<S, L, M, A>,
    busy: u32,
    power: PowerState,
    allow: Vec<String>,
    v: &mut MemoryScannerVitals,
)
    requires
        call_ensures(scan_once::<S, L, M, A>, (&cfg, host, busy, power, &allow, v), ()),
        old(v).scans_started < u64::MAX,
        old(v).scans_skipped_cpu < u64::MAX,
        old(v).scans_skipped_battery < u64::MAX,
    ensures
        cfg.only_when_idle_below_cpu_pct < 100 && busy >= cfg.only_when_idle_below_cpu_pct ==> {
            &&& *final(host) == *old(host)
            &&& final(v).scans_skipped_cpu == old(v).scans_skipped_cpu + 1
            &&& final(v).scans_skipped_battery == old(v).scans_skipped_battery
            &&& final(v).scans_started == old(v).scans_started + 1
            &&& final(v).regions_scanned == old(v).regions_scanned
        },
        (busy < cfg.only_when_idle_below_cpu_pct || cfg.only_when_idle_below_cpu_pct >= 100)
            && cfg.defer_on_battery && power == PowerState::Battery ==> {
            &&& *final(host) == *old(host)
            &&& final(v).scans_skipped_battery == old(v).scans_skipped_battery + 1
            &&& final(v).scans_skipped_cpu == old(v).scans_skipped_cpu
            &&& final(v).scans_started == old(v).scans_started + 1
        },
        (busy < cfg.only_when_idle_below_cpu_pct || cfg.only_when_idle_below_cpu_pct >= 100) && !(
        cfg.defer_on_battery && power == PowerState::Battery) ==> {
            &&& final(host).asked().len() > old(host).asked().len()
            &&& final(host).asked()[old(host).asked().len() as int] is List
            &&& final(host).asked().take(old(host).asked().len() as int) == old(host).asked()
            &&& final(v).scans_started == old(v).scans_started + 1
            &&& final(v).scans_skipped_cpu == old(v).scans_skipped_cpu
            &&& final(v).scans_skipped_battery == old(v).scans_skipped_battery
        },
{
    if (busy < cfg.only_when_idle_below_cpu_pct || cfg.only_when_idle_below_cpu_pct >= 100) && !(
    cfg.defer_on_battery && power == PowerState::Battery) {
        assert(final(host).asked().take(old(host).asked().len() as int) =~= old(host).asked());
    }
}

/// The module is known by its name.
pub proof fn law_name_of_the_scanner(m: MemoryScannerModule, r: &'static str)
    requires
        call_ensures(MemoryScannerModule::name, (&m,), r),
    ensures
        r@ == "memory_scanner"@,
{
}

} // verus!
