//! The host: what its files and its kernel tell, and when it is asked.

use crate::amsi::{
    amsi_verdict, contains_subslice, content_name, content_name_for, holds_run, triggered,
    utf16_of, utf16_units, utf16_with_nul, CannedAmsiResult,
};
use crate::clock::Timestamp;
use crate::kernel::linux_ebpf::{
    attach_to_perf_buffer, detect_ebpf_capability, kernel_version,
    parse_kernel_version_at_least, parse_perf_records, MockLinuxKernelChannel, PerfRecord,
};
use crate::kernel::macos::parse_xpc_records;
use crate::kernel::windows::{parse_pipe_records, record_views};
use crate::kernel::{record_lines, record_on, records_of, AttachError, KernelEvent};
use crate::laws::text::{
    law_first_piece, law_gathering, law_octets_come_apart, law_only_digits_are_read,
    law_trimming_takes_white_space_only, law_written_numbers_are_read,
};
use crate::memory_module::{MemoryAlertKind, MemoryMatch};
use crate::memory_scanner::MemoryRegion;
use crate::net::IpAddr;
use crate::query::{
    cap_rows, first_due, probe, soonest, ClientError, FileReading, OsqueryClient, ProbeResult,
    QueryResultSet, ScheduledQuery, Scheduler, SidecarBudget, Tick, UnavailableClient,
};
use crate::sysinfo::{
    last_memory, last_model, last_setting, linux_hardware_info, linux_os_info, memory_on, model_on,
    processor_lines, setting, without_unit, SystemInfoCollector, SystemReading,
};
use crate::text::{
    ascii_lower, drop_back, drop_front, gather, just, lines_of, number, numeral,
    octet_pieces_of, pieces_of, signed_numeral, trimmed, views, words_of,
};
use crate::types::{HardwareInfo, OsInfo};
use vstd::prelude::*;

verus! {

// ---------------------------------------------------------------------
// System information
// ---------------------------------------------------------------------

/// A setting is what stands behind its key, with or without double quotes.
pub proof fn law_settings(key: Seq<char>, value: Seq<char>)
    requires
        value.len() > 0,
        value[0] != '"',
        value.last() != '"',
    ensures
        setting(key + seq!['"'] + value + seq!['"'], key) == Some(value),
        setting(key + value, key) == Some(value),
{
    let q = seq!['"'];
    let a = key + q + value + q;
    let b = key + value;
    let n = key.len() as int;
    assert(a.subrange(0, n) =~= key);
    assert(b.subrange(0, n) =~= key);
    assert(key.is_prefix_of(a));
    assert(key.is_prefix_of(b));
    let x = a.skip(n);
    assert(x =~= q + value + q);
    assert(b.skip(n) =~= value);
    let y = x.drop_first();
    assert(y =~= value + q);
    assert(y[0] == value[0]);
    assert(drop_front(y, just('"')) == y);
    assert(drop_front(x, just('"')) == drop_front(y, just('"')));
    assert(y.drop_last() =~= value);
    assert(drop_back(value, just('"')) == value);
    assert(drop_back(y, just('"')) == drop_back(y.drop_last(), just('"')));
    assert(drop_front(value, just('"')) == value);
}

proof fn lemma_last_setting(l: Seq<Seq<char>>, key: Seq<char>, k: int, n: int)
    requires
        0 <= k < n <= l.len(),
        key.is_prefix_of(l[k]),
        forall|j: int| k < j < l.len() ==> !key.is_prefix_of(#[trigger] l[j]),
    ensures
        last_setting(l, key, n) == setting(l[k], key),
    decreases n,
{
    if n - 1 > k {
        assert(!key.is_prefix_of(l[n - 1]));
        lemma_last_setting(l, key, k, n - 1);
    }
}

proof fn lemma_no_setting(l: Seq<Seq<char>>, key: Seq<char>, n: int)
    requires
        0 <= n <= l.len(),
        forall|j: int| 0 <= j < l.len() ==> !key.is_prefix_of(#[trigger] l[j]),
    ensures
        last_setting(l, key, n) is None,
    decreases n,
{
    if n > 0 {
        assert(!key.is_prefix_of(l[n - 1]));
        lemma_no_setting(l, key, n - 1);
    }
}

/// The name and the version of a Linux system are the last ones that its
/// `os-release` file gives, and its kernel is the third word of the version
/// file; what is not told is `Linux` or unknown.
pub proof fn law_linux_systems(
    os_release: &str,
    proc_version: &str,
    architecture: String,
    hostname: String,
    r: OsInfo,
    bare: OsInfo,
    i: int,
    j: int,
)
    requires
        call_ensures(linux_os_info, (Some(os_release), Some(proc_version), architecture, hostname), r),
        call_ensures(linux_os_info, (None::<&str>, None::<&str>, architecture, hostname), bare),
        0 <= i < lines_of(os_release@).len(),
        "NAME="@.is_prefix_of(lines_of(os_release@)[i]),
        forall|k: int|
            i < k < lines_of(os_release@).len() ==> !"NAME="@.is_prefix_of(
                #[trigger] lines_of(os_release@)[k],
            ),
        0 <= j < lines_of(os_release@).len(),
        "VERSION_ID="@.is_prefix_of(lines_of(os_release@)[j]),
        forall|k: int|
            j < k < lines_of(os_release@).len() ==> !"VERSION_ID="@.is_prefix_of(
                #[trigger] lines_of(os_release@)[k],
            ),
        words_of(proc_version@).len() >= 3,
    ensures
        Some(r.name@) == setting(lines_of(os_release@)[i], "NAME="@),
        Some(r.version@) == setting(lines_of(os_release@)[j], "VERSION_ID="@),
        r.kernel_version@ == words_of(proc_version@)[2],
        r.architecture == architecture && r.hostname == hostname,
        bare.name@ == "Linux"@ && bare.version@ == "unknown"@ && bare.kernel_version@ == "unknown"@,
        bare.architecture == architecture && bare.hostname == hostname,
{
    let l = lines_of(os_release@);
    lemma_last_setting(l, "NAME="@, i, l.len() as int);
    lemma_last_setting(l, "VERSION_ID="@, j, l.len() as int);
}

/// The name of a processor stands behind `model name`, and the last one
/// counts.
pub proof fn law_processors(l: Seq<Seq<char>>, k: int)
    requires
        0 <= k < l.len(),
        "model name\t: "@.is_prefix_of(l[k]),
        forall|j: int| k < j < l.len() ==> !"model name\t: "@.is_prefix_of(#[trigger] l[j]),
    ensures
        last_model(l, l.len() as int) == Some(trimmed(l[k].skip("model name\t: "@.len() as int))),
{
    lemma_model(l, k, l.len() as int);
}

proof fn lemma_model(l: Seq<Seq<char>>, k: int, n: int)
    requires
        0 <= k < n <= l.len(),
        "model name\t: "@.is_prefix_of(l[k]),
        forall|j: int| k < j < l.len() ==> !"model name\t: "@.is_prefix_of(#[trigger] l[j]),
    ensures
        last_model(l, n) == Some(trimmed(l[k].skip("model name\t: "@.len() as int))),
    decreases n,
{
    if n - 1 > k {
        assert(model_on(l[n - 1]) is None);
        lemma_model(l, k, n - 1);
    }
}

/// Each line that begins with `processor` is one processor.
pub proof fn law_number_of_processors(l: Seq<Seq<char>>, x: Seq<char>)
    ensures
        processor_lines(l.push(x), (l.len() + 1) as int) == processor_lines(l, l.len() as int) + if (
        "processor"@.is_prefix_of(x)) {
            1nat
        } else {
            0nat
        },
        processor_lines(Seq::empty(), 0) == 0,
{
    lemma_processors(l, x, l.len() as int);
    assert(l.push(x)[l.len() as int] == x);
}

proof fn lemma_processors(l: Seq<Seq<char>>, x: Seq<char>, n: int)
    requires
        0 <= n <= l.len(),
    ensures
        processor_lines(l.push(x), n) == processor_lines(l, n),
    decreases n,
{
    if n > 0 {
        lemma_processors(l, x, n - 1);
        assert(l.push(x)[n - 1] == l[n - 1]);
    }
}

/// The memory is written in kilobytes, with space before the number, and is
/// read back.
pub proof fn law_memory_lines_are_read_back(gap: Seq<char>, kb: u64)
    requires
        forall|i: int| 0 <= i < gap.len() ==> crate::text::is_space(#[trigger] gap[i]),
    ensures
        memory_on("MemTotal:"@ + gap + numeral(kb as nat, 10) + " kB"@) == Some(kb as nat),
{
    reveal_strlit("MemTotal:");
    reveal_strlit(" kB");
    let n = numeral(kb as nat, 10);
    let h = "MemTotal:"@;
    let none: Seq<char> = Seq::empty();
    let s = n + " kB"@;
    let line = h + gap + n + " kB"@;
    lemma_figures(kb as nat);
    assert(line.subrange(0, h.len() as int) =~= h);
    assert(h.is_prefix_of(line));
    assert(line.skip(h.len() as int) =~= gap + s + none);
    crate::laws::text::law_white_space_of_ascii('B');
    assert(s.last() == 'B');
    assert(s[0] == n[0]);
    law_trimming_takes_white_space_only(gap, s, none);
    assert(s.subrange(n.len() as int, s.len() as int) =~= " kB"@);
    assert(" kB"@.is_suffix_of(s));
    assert(s.take(s.len() - 3) =~= n);
    assert(!" kB"@.is_suffix_of(n)) by {
        if " kB"@.is_suffix_of(n) {
            let t = n.subrange(n.len() - 3, n.len() as int);
            assert(t == " kB"@);
            assert(t[2] == n[n.len() - 1]);
            law_only_digits_are_read(n, 10, kb as nat, n.len() - 1);
        }
    }
    assert(without_unit(n) == n);
    assert(without_unit(s) == without_unit(n));
    law_trimming_takes_white_space_only(none, n, none);
    assert(none + n + none =~= n);
    law_written_numbers_are_read(kb as nat, 10, u64::MAX as nat);
}

proof fn lemma_figures(n: nat)
    ensures
        numeral(n, 10).len() > 0,
        number(numeral(n, 10), 10, n) == Some(n),
        forall|i: int|
            0 <= i < numeral(n, 10).len() ==> !crate::text::is_space(#[trigger] numeral(n, 10)[i]),
{
    let s = numeral(n, 10);
    law_written_numbers_are_read(n, 10, n);
    assert forall|i: int| 0 <= i < s.len() implies !crate::text::is_space(#[trigger] s[i]) by {
        law_only_digits_are_read(s, 10, n, i);
        crate::laws::text::law_white_space_of_ascii(s[i]);
    }
}

/// Memory is told in megabytes of 1024 kilobytes, rounded down; a host of
/// which nothing can be read has none.
pub proof fn law_hardware(cpuinfo: &str, meminfo: &str, r: HardwareInfo, bare: HardwareInfo, kb: nat)
    requires
        call_ensures(linux_hardware_info, (Some(cpuinfo), Some(meminfo)), r),
        call_ensures(linux_hardware_info, (None::<&str>, None::<&str>), bare),
        last_memory(lines_of(meminfo@), lines_of(meminfo@).len() as int) == Some(kb),
    ensures
        r.total_ram_mb * 1024 <= kb < (r.total_ram_mb + 1) * 1024,
        last_model(lines_of(cpuinfo@), lines_of(cpuinfo@).len() as int) matches Some(m) ==> r.cpu_name@
            == m,
        last_model(lines_of(cpuinfo@), lines_of(cpuinfo@).len() as int) is None ==> r.cpu_name@
            == "unknown"@,
        processor_lines(lines_of(cpuinfo@), lines_of(cpuinfo@).len() as int) <= 0xffff_ffff
            ==> r.cpu_cores == processor_lines(lines_of(cpuinfo@), lines_of(cpuinfo@).len() as int),
        bare.cpu_name@ == "unknown"@ && bare.cpu_cores == 0 && bare.total_ram_mb == 0,
{
}

/// The last line that tells of the memory counts.
pub proof fn law_the_last_memory_counts(l: Seq<Seq<char>>, k: int)
    requires
        0 <= k < l.len(),
        memory_on(l[k]) is Some,
        forall|j: int| k < j < l.len() ==> memory_on(#[trigger] l[j]) is None,
    ensures
        last_memory(l, l.len() as int) == memory_on(l[k]),
{
    lemma_memory(l, k, l.len() as int);
}

proof fn lemma_memory(l: Seq<Seq<char>>, k: int, n: int)
    requires
        0 <= k < n <= l.len(),
        memory_on(l[k]) is Some,
        forall|j: int| k < j < l.len() ==> memory_on(#[trigger] l[j]) is None,
    ensures
        last_memory(l, n) == memory_on(l[k]),
    decreases n,
{
    if n - 1 > k {
        assert(memory_on(l[n - 1]) is None);
        lemma_memory(l, k, n - 1);
    }
}

/// Other systems are known by their names alone.
pub proof fn law_other_systems(
    c: SystemInfoCollector,
    name: &str,
    architecture: String,
    hostname: String,
    m: OsInfo,
    w: OsInfo,
    o: OsInfo,
    h: HardwareInfo,
)
    requires
        call_ensures(SystemInfoCollector::os_info, (&c, &SystemReading::Macos, architecture, hostname), m),
        call_ensures(
            SystemInfoCollector::os_info,
            (&c, &SystemReading::Windows, architecture, hostname),
            w,
        ),
        call_ensures(
            SystemInfoCollector::os_info,
            (&c, &SystemReading::Other(name), architecture, hostname),
            o,
        ),
        call_ensures(SystemInfoCollector::hardware_info, (&c, &SystemReading::Other(name)), h),
    ensures
        m.name@ == "macOS"@ && w.name@ == "Windows"@ && o.name@ == name@,
        m.version@ == "unknown"@ && w.version@ == "unknown"@ && o.version@ == "unknown"@,
        m.architecture == architecture && m.hostname == hostname,
        w.architecture == architecture && w.hostname == hostname,
        o.architecture == architecture && o.hostname == hostname,
        h.cpu_name@ == "unknown"@ && h.cpu_cores == 0 && h.total_ram_mb == 0,
{
}

/// The collector tells of a Linux host what its files tell.
pub proof fn law_the_collector_reads_the_files(
    c: SystemInfoCollector,
    os_release: Option<&str>,
    proc_version: Option<&str>,
    cpuinfo: Option<&str>,
    meminfo: Option<&str>,
    architecture: String,
    hostname: String,
    a: OsInfo,
    b: OsInfo,
    x: HardwareInfo,
    y: HardwareInfo,
)
    requires
        call_ensures(
            SystemInfoCollector::os_info,
            (
                &c,
                &SystemReading::Linux { os_release, proc_version, cpuinfo, meminfo },
                architecture,
                hostname,
            ),
            a,
        ),
        call_ensures(linux_os_info, (os_release, proc_version, architecture, hostname), b),
        call_ensures(
            SystemInfoCollector::hardware_info,
            (&c, &SystemReading::Linux { os_release, proc_version, cpuinfo, meminfo }),
            x,
        ),
        call_ensures(linux_hardware_info, (cpuinfo, meminfo), y),
    ensures
        a.name@ == b.name@ && a.version@ == b.version@ && a.kernel_version@ == b.kernel_version@,
        x.cpu_name@ == y.cpu_name@ && x.cpu_cores == y.cpu_cores && x.total_ram_mb == y.total_ram_mb,
{
}

// ---------------------------------------------------------------------
// Queries
// ---------------------------------------------------------------------

/// Whether a point in time has come.
pub open spec fn has_come(t: Timestamp, now: Timestamp) -> bool {
    t.secs < now.secs || (t.secs == now.secs && t.nanos <= now.nanos)
}

proof fn lemma_first_due(due: Seq<Timestamp>, now: Timestamp, i: int)
    requires
        0 <= i <= due.len(),
    ensures
        match first_due(due, now, i) {
            Some(k) => i <= k < due.len() && has_come(due[k], now) && forall|j: int|
                i <= j < k ==> !has_come(#[trigger] due[j], now),
            None => forall|j: int| i <= j < due.len() ==> !has_come(#[trigger] due[j], now),
        },
    decreases due.len() - i,
{
    if i < due.len() {
        lemma_first_due(due, now, i + 1);
    }
}

proof fn lemma_soonest(due: Seq<Timestamp>, n: int)
    requires
        1 <= n <= due.len(),
    ensures
        exists|j: int| 0 <= j < n && #[trigger] due[j] == soonest(due, n),
        forall|j: int| 0 <= j < n ==> has_come(soonest(due, n), #[trigger] due[j]),
    decreases n,
{
    if n > 1 {
        lemma_soonest(due, n - 1);
        let j = choose|j: int| 0 <= j < n - 1 && #[trigger] due[j] == soonest(due, n - 1);
        let m = soonest(due, n);
        assert(m == due[j] || m == due[n - 1]);
    } else {
        assert(due[0] == soonest(due, n));
    }
}

/// The first query whose time has come is run. While none has come the
/// scheduler sleeps until the earliest is due, but for a millisecond at
/// least; without queries it sleeps an hour.
pub proof fn law_ticks(s: Scheduler, now: Timestamp, r: (Option<usize>, Tick))
    requires
        s.wf(),
        now.valid(),
        call_ensures(Scheduler::tick, (&s, now), r),
    ensures
        r.0 matches Some(i) ==> {
            &&& i < s.due().len()
            &&& has_come(s.due()[i as int], now)
            &&& forall|j: int| 0 <= j < i ==> !has_come(#[trigger] s.due()[j], now)
            &&& r.1 == Tick::Run
        },
        r.0 is None ==> {
            &&& forall|j: int| 0 <= j < s.due().len() ==> !has_come(#[trigger] s.due()[j], now)
            &&& r.1 is Sleep
            &&& r.1->Sleep_0 >= 1_000_000
        },
        s.due().len() == 0 ==> r.0 is None && r.1 == Tick::Sleep(3_600_000_000_000),
        r.0 is None && s.due().len() > 0 ==> exists|j: int|
            0 <= j < s.due().len() && (forall|k: int|
                0 <= k < s.due().len() ==> has_come(s.due()[j], #[trigger] s.due()[k])) && r.1->Sleep_0
                == {
                let gap = crate::clock::nanos_from(now, #[trigger] s.due()[j]);
                if gap < 1_000_000 {
                    1_000_000
                } else {
                    gap
                }
            },
{
    let due = s.due();
    lemma_first_due(due, now, 0);
    if due.len() > 0 && r.0 is None {
        lemma_soonest(due, due.len() as int);
        let m = soonest(due, due.len() as int);
        let j = choose|j: int| 0 <= j < due.len() && #[trigger] due[j] == m;
        assert(r.1->Sleep_0 == {
            let gap = crate::clock::nanos_from(now, due[j]);
            if gap < 1_000_000 {
                1_000_000
            } else {
                gap
            }
        });
    }
}

/// A query that was run is due again after its interval; the others stay.
pub proof fn law_runs_are_recorded(s: &mut Scheduler, idx: usize, now: Timestamp, k: int)
    requires
        old(s).wf(),
        now.valid(),
        now.nanos < 1_000_000_000,
        idx < old(s).list().len(),
        idx < old(s).due().len(),
        call_ensures(Scheduler::record_run, (s, idx, now), ()),
    ensures
        final(s).list() == old(s).list(),
        final(s).due().len() == old(s).due().len(),
        0 <= k < old(s).due().len() && k != idx ==> final(s).due()[k] == old(s).due()[k],
        now.secs + old(s).list()[idx as int].interval_secs
            <= 8_210_266_876_799 ==> final(s).due()[idx as int].secs == now.secs + old(
            s,
        ).list()[idx as int].interval_secs && final(s).due()[idx as int].nanos == now.nanos,
{
}

/// All queries are due at once when the scheduler begins, and each is asked
/// under its own name.
pub proof fn law_schedulers_begin(
    queries: Vec<ScheduledQuery>,
    now: Timestamp,
    s: Scheduler,
    idx: usize,
    r: (String, String),
)
    requires
        now.valid(),
        call_ensures(Scheduler::new, (queries, now), s),
        idx < queries@.len(),
        call_ensures(Scheduler::request, (&s, idx), r),
    ensures
        s.list() == queries@,
        s.due().len() == queries@.len(),
        s.due()[idx as int] == now,
        r.0@ == "schedule."@ + queries@[idx as int].name@,
        r.1@ == queries@[idx as int].sql@,
{
}

/// An answer keeps its first rows, as many as are allowed, and says whether
/// any were left out.
pub proof fn law_answers_are_cut(rs: QueryResultSet, max_rows: usize, r: QueryResultSet, i: int)
    requires
        call_ensures(cap_rows, (rs, max_rows), r),
    ensures
        r.query_id == rs.query_id && r.sql == rs.sql,
        r.rows@.len() <= max_rows,
        rs.rows@.len() <= max_rows ==> r.rows@ == rs.rows@ && r.truncated == rs.truncated,
        rs.rows@.len() > max_rows ==> r.rows@.len() == max_rows && r.truncated,
        0 <= i < r.rows@.len() ==> r.rows@[i] == rs.rows@[i],
{
}

/// The sidecar can be started where its file is there and can be run: with
/// one of the three execute bits, or as an `exe`.
pub proof fn law_probes(
    path: &str,
    mode: u32,
    fault: String,
    ext: String,
    off: ProbeResult,
    absent: ProbeResult,
    unix: ProbeResult,
    odd: ProbeResult,
    windows: ProbeResult,
    bare: ProbeResult,
    file: FileReading,
)
    requires
        call_ensures(probe, (None::<&str>, &file), off),
        call_ensures(probe, (Some(path), &FileReading::Absent), absent),
        call_ensures(probe, (Some(path), &FileReading::Unix(Ok::<u32, String>(mode))), unix),
        call_ensures(probe, (Some(path), &FileReading::Unix(Err::<u32, String>(fault))), odd),
        call_ensures(probe, (Some(path), &FileReading::Windows(Some(ext))), windows),
        call_ensures(probe, (Some(path), &FileReading::Windows(None::<String>)), bare),
    ensures
        off == ProbeResult::DisabledByConfig,
        absent is Missing && absent->tried@ == path@ && absent->reason@ == "no such file"@,
        unix is Available <==> mode & 0o111 != 0,
        unix is Available ==> unix->path@ == path@,
        unix is Missing ==> unix->reason@ == "not executable (no +x bit)"@,
        odd is Missing && odd->reason@ == "stat failed: "@ + fault@,
        windows is Available <==> ascii_lower(ext@) == "exe"@,
        bare is Missing && bare->reason@ == "expected .exe extension"@,
{
}

/// The sidecar may use sixty megabytes and five percent of a processor.
pub proof fn law_budget_of_the_sidecar(r: SidecarBudget)
    requires
        call_ensures(SidecarBudget::default_phase1, (), r),
    ensures
        r.max_rss_mb == 60,
        r.max_cpu_percent == 5,
{
}

// ---------------------------------------------------------------------
// Kernel
// ---------------------------------------------------------------------

/// A record of the ring buffer becomes the event that it tells of, field by
/// field, and its addresses keep their order.
pub proof fn law_records_become_events(rec: PerfRecord, r: KernelEvent)
    requires
        call_ensures(PerfRecord::into_kernel_event, (rec,), r),
    ensures
        rec matches PerfRecord::Exec { pid, ppid, uid } ==> r is ProcessCreated
            && r->ProcessCreated_pid == pid && r->ppid == ppid && r->uid == uid && r->image_path is None,
        rec matches PerfRecord::Exit { pid, exit_code } ==> r is ProcessExited && r->ProcessExited_pid
            == pid && r->exit_code == exit_code,
        rec matches PerfRecord::Connect4 { pid, protocol, saddr, daddr, sport, dport } ==> {
            &&& r is NetworkConnect
            &&& r->NetworkConnect_pid == pid
            &&& r->protocol == protocol
            &&& r->local_addr@ == IpAddr::V4(saddr@[0], saddr@[1], saddr@[2], saddr@[3]).text()
            &&& r->local_port == sport
            &&& r->remote_addr@ == IpAddr::V4(daddr@[0], daddr@[1], daddr@[2], daddr@[3]).text()
            &&& r->remote_port == dport
        },
{
}

proof fn lemma_separate(n: nat, c: char)
    requires
        crate::text::digit(c, 10) is None,
        c != '+',
    ensures
        !numeral(n, 10).contains(c),
{
    let s = numeral(n, 10);
    law_written_numbers_are_read(n, 10, n);
    if s.contains(c) {
        let i = choose|i: int| 0 <= i < s.len() && s[i] == c;
        law_only_digits_are_read(s, 10, n, i);
    }
}

/// The release of a kernel is read back: the number before its first dot and
/// the one after it; what follows does not matter.
pub proof fn law_kernel_releases_are_read_back(major: u32, minor: u32, patch: Seq<char>, tail: Seq<char>)
    requires
        !patch.contains('-'),
        tail.len() > 0 ==> !crate::text::is_space(tail.last()),
    ensures
        kernel_version(
            numeral(major as nat, 10) + seq!['.'] + (numeral(minor as nat, 10) + seq!['.'] + patch)
                + seq!['-'] + tail,
        ) == Some((major as nat, minor as nat)),
{
    let a = numeral(major as nat, 10);
    let b = numeral(minor as nat, 10);
    let d = seq!['.'];
    let h = seq!['-'];
    let v = a + d + (b + d + patch);
    let s = v + h + tail;
    let none: Seq<char> = Seq::empty();
    lemma_figures(major as nat);
    lemma_figures(minor as nat);
    lemma_separate(major as nat, '-');
    lemma_separate(minor as nat, '-');
    lemma_separate(major as nat, '.');
    lemma_separate(minor as nat, '.');
    crate::laws::text::law_white_space_of_ascii('-');
    assert(s[0] == a[0]);
    assert(s.last() == if tail.len() > 0 {
        tail.last()
    } else {
        '-'
    });
    law_trimming_takes_white_space_only(none, s, none);
    assert(none + s + none =~= s);
    lemma_without(a, d + (b + d + patch), '-', b, patch);
    law_first_piece(v, '-', tail);
    law_first_piece(a, '.', b + d + patch);
    law_first_piece(b, '.', patch);
    let p = pieces_of(v, '.');
    assert(p =~= seq![a] + pieces_of(b + d + patch, '.'));
    assert(p =~= seq![a] + (seq![b] + pieces_of(patch, '.')));
    assert(p[0] == a && p[1] == b);
    law_written_numbers_are_read(major as nat, 10, u32::MAX as nat);
    law_written_numbers_are_read(minor as nat, 10, u32::MAX as nat);
}

proof fn lemma_without(a: Seq<char>, x: Seq<char>, c: char, b: Seq<char>, patch: Seq<char>)
    requires
        x == seq!['.'] + (b + seq!['.'] + patch),
        c == '-',
        !a.contains(c),
        !b.contains(c),
        !patch.contains(c),
    ensures
        !(a + seq!['.'] + (b + seq!['.'] + patch)).contains(c),
{
    let d = seq!['.'];
    let v = a + d + (b + d + patch);
    if v.contains(c) {
        let i = choose|i: int| 0 <= i < v.len() && v[i] == c;
        let n = a.len() as int;
        let m = (a.len() + 1 + b.len()) as int;
        if i < n {
            assert(a[i] == c);
        } else if n < i < m {
            assert(b[i - n - 1] == c);
        } else if i > m {
            assert(patch[i - m - 1] == c);
        }
    }
}

/// Releases are compared number by number, the first one first; the backend
/// needs 5.8.
pub proof fn law_releases_are_compared(
    release: &str,
    a: u32,
    b: u32,
    r: bool,
    capable: bool,
    none: bool,
    x: nat,
    y: nat,
)
    requires
        call_ensures(parse_kernel_version_at_least, (release, a, b), r),
        call_ensures(detect_ebpf_capability, (Some(release),), capable),
        call_ensures(detect_ebpf_capability, (None::<&str>,), none),
        kernel_version(release@) == Some((x, y)),
    ensures
        x > a ==> r,
        x < a ==> !r,
        x == a ==> (r <==> y >= b),
        capable <==> x > 5 || (x == 5 && y >= 8),
        !none,
{
}

/// What is no release is never new enough.
pub proof fn law_what_is_no_release(release: &str, a: u32, b: u32, r: bool)
    requires
        call_ensures(parse_kernel_version_at_least, (release, a, b), r),
        kernel_version(release@) is None,
    ensures
        !r,
{
}

/// Each line of a stream is one record, without the space around it; blank
/// lines and lines that are no text are passed over.
pub proof fn law_each_line_is_a_record(line: Seq<u8>, rest: Seq<u8>)
    requires
        !line.contains(0x0a),
    ensures
        records_of(line + seq![0x0au8] + rest) == (match record_on(line) {
            Some(t) => seq![t],
            None => Seq::empty(),
        }) + records_of(rest),
        record_on(line) is Some <==> vstd::utf8::valid_utf8(line) && trimmed(
            vstd::utf8::decode_utf8(line),
        ).len() > 0,
        record_on(line) matches Some(t) ==> t == trimmed(vstd::utf8::decode_utf8(line)),
{
    let f = crate::kernel::record_reader();
    law_octets_come_apart(line, 0x0a, rest);
    let none: Seq<Seq<u8>> = Seq::empty();
    let others = octet_pieces_of(rest, 0x0a);
    law_gathering(none, line, others, f);
    assert(none + seq![line] + others =~= seq![line] + others);
    assert(gather(none, f) =~= Seq::empty());
    assert(records_of(line + seq![0x0au8] + rest) =~= (match record_on(line) {
        Some(t) => seq![t],
        None => Seq::empty(),
    }) + records_of(rest));
}

/// The streams of the backends are read alike, but that a line of the pipe
/// that is no text is told as such.
pub proof fn law_streams_of_the_backends(
    input: &[u8],
    a: Vec<String>,
    b: Vec<String>,
    c: Vec<String>,
    p: Vec<Option<String>>,
    i: int,
)
    requires
        call_ensures(record_lines, (input,), a),
        call_ensures(parse_perf_records, (input,), b),
        call_ensures(parse_xpc_records, (input,), c),
        call_ensures(parse_pipe_records, (input,), p),
    ensures
        views(a@) == records_of(input@) && views(b@) == views(a@) && views(c@) == views(a@),
        0 <= i < octet_pieces_of(input@, 0x0a).len() && !vstd::utf8::valid_utf8(
            octet_pieces_of(input@, 0x0a)[i],
        ) ==> record_views(p@).contains(None),
        0 <= i < octet_pieces_of(input@, 0x0a).len() && record_on(octet_pieces_of(input@, 0x0a)[i])
            is Some ==> record_views(p@).contains(record_on(octet_pieces_of(input@, 0x0a)[i])),
{
    let s = octet_pieces_of(input@, 0x0a);
    let f = crate::kernel::windows::pipe_reader();
    if 0 <= i < s.len() {
        match f(s[i]) {
            Some(y) => {
                crate::laws::text::law_gathered_items(s, f, y);
                assert(f(s[i]) == Some(y));
            },
            None => {},
        }
    }
}

/// The channel for tests gives back what was put in, in that order.
pub proof fn law_channels_for_tests(
    c: &mut MockLinuxKernelChannel,
    ev: KernelEvent,
    d: &mut MockLinuxKernelChannel,
    on: bool,
    n: usize,
    e: MockLinuxKernelChannel,
)
    requires
        call_ensures(MockLinuxKernelChannel::push, (c, ev), ()),
        call_ensures(MockLinuxKernelChannel::set_attached, (d, on), ()),
        call_ensures(MockLinuxKernelChannel::pending, (&e,), n),
    ensures
        final(c).queue().last() == ev,
        final(c).queue().drop_last() == old(c).queue(),
        final(c).attached() == old(c).attached(),
        final(d).attached() == on && final(d).queue() == old(d).queue(),
        n == e.queue().len(),
{
    assert(final(c).queue().drop_last() =~= old(c).queue());
}

// ---------------------------------------------------------------------
// Antimalware scan interface
// ---------------------------------------------------------------------

/// A result counts as a detection from 32768 on, where the call succeeded.
pub proof fn law_verdicts(hr: i32, result: i32, r: Vec<MemoryMatch>)
    requires
        call_ensures(amsi_verdict, (hr, result), r),
    ensures
        r@.len() == 1 <==> hr == 0 && result >= 32768,
        r@.len() == 0 <==> hr != 0 || result < 32768,
        r@.len() == 1 ==> r@[0].alert_type == MemoryAlertKind::AmsiMatch && r@[0].description@
            == "AMSI detected malicious content (result="@ + signed_numeral(result as int) + ")"@,
{
}

/// The character that a unit, or a pair of units, stands for.
pub open spec fn unit_value(u: Seq<u16>) -> int {
    if u.len() == 1 {
        u[0] as int
    } else {
        0x1_0000 + (u[0] - 0xd800) * 0x400 + (u[1] - 0xdc00)
    }
}

/// UTF-16 is read back: a character below 0x10000 is one unit, any other a
/// high and a low one.
pub proof fn law_utf16_is_read_back(c: char)
    ensures
        unit_value(utf16_units(c)) == c as u32,
        (c as u32) < 0x1_0000 <==> utf16_units(c).len() == 1,
        (c as u32) >= 0x1_0000 ==> utf16_units(c).len() == 2 && 0xd800 <= utf16_units(c)[0] < 0xdc00
            && 0xdc00 <= utf16_units(c)[1] < 0xe000,
{
}

/// A text in UTF-16 is the units of its characters, in order, with a zero at
/// its end.
pub proof fn law_utf16_of_texts(s: &str, r: Vec<u16>, a: Seq<char>, c: char)
    requires
        call_ensures(utf16_with_nul, (s,), r),
    ensures
        r@.last() == 0,
        r@.drop_last() == utf16_of(s@),
        utf16_of(a.push(c)) == utf16_of(a) + utf16_units(c),
        utf16_of(Seq::empty()).len() == 0,
{
    assert(r@.drop_last() =~= utf16_of(s@));
    assert(a.push(c).drop_last() =~= a);
}

/// The name of a region gives the process in decimal and the place in
/// hexadecimal; without a process there is no name.
pub proof fn law_names_of_contents(pid: u32, region: MemoryRegion, r: Vec<u16>, none: Vec<u16>)
    requires
        pid != 0,
        call_ensures(content_name_for, (pid, &region), r),
        call_ensures(content_name_for, (0u32, &region), none),
    ensures
        r@.drop_last() == utf16_of(
            "pid="@ + numeral(pid as nat, 10) + "@base=0x"@ + numeral(region.base as nat, 16),
        ),
        none@.len() == 1,
{
    assert(r@.drop_last() =~= utf16_of(content_name(pid, region.base)));
    assert(utf16_of(Seq::<char>::empty()).len() == 0);
}

/// A run of octets is found wherever it stands.
pub proof fn law_runs_are_found(hay: &[u8], needle: &[u8], r: bool, a: Seq<u8>, b: Seq<u8>)
    requires
        call_ensures(contains_subslice, (hay, needle), r),
    ensures
        hay@ == a + needle@ + b ==> r,
        needle@.len() > hay@.len() ==> !r,
        r ==> exists|i: int|
            0 <= i <= hay@.len() - needle@.len() && #[trigger] hay@.subrange(i, i + needle@.len())
                == needle@,
{
    if hay@ == a + needle@ + b {
        let i = a.len() as int;
        assert(hay@.subrange(i, i + needle@.len()) =~= needle@);
        assert(crate::amsi::run_at(hay@, needle@, i));
    }
    if r {
        let i = choose|i: int| crate::amsi::run_at(hay@, needle@, i);
        assert(hay@.subrange(i, i + needle@.len()) == needle@);
    }
}

/// Memory that holds a trigger is told with its description, trigger by
/// trigger, in order.
pub proof fn law_canned_verdicts(canned: Seq<CannedAmsiResult>, c: CannedAmsiResult, bytes: Seq<u8>)
    ensures
        triggered(canned.push(c), bytes, (canned.len() + 1) as int) == (if holds_run(bytes, c.trigger@) {
            triggered(canned, bytes, canned.len() as int).push(c.description@)
        } else {
            triggered(canned, bytes, canned.len() as int)
        }),
        triggered(Seq::empty(), bytes, 0).len() == 0,
{
    lemma_triggered(canned, c, bytes, canned.len() as int);
    assert(canned.push(c)[canned.len() as int] == c);
}

proof fn lemma_triggered(canned: Seq<CannedAmsiResult>, c: CannedAmsiResult, bytes: Seq<u8>, n: int)
    requires
        0 <= n <= canned.len(),
    ensures
        triggered(canned.push(c), bytes, n) == triggered(canned, bytes, n),
    decreases n,
{
    if n > 0 {
        lemma_triggered(canned, c, bytes, n - 1);
        assert(canned.push(c)[n - 1] == canned[n - 1]);
    }
}

/// A client that reaches no one says so, or why.
pub proof fn law_unavailable_clients(
    c: UnavailableClient,
    id: &str,
    sql: &str,
    r: Result<QueryResultSet, ClientError>,
)
    requires
        call_ensures(UnavailableClient::execute, (&c, id, sql), r),
    ensures
        r is Err && r->Err_0 is Unavailable,
        c.reason@.len() > 0 ==> r->Err_0->Unavailable_0@ == c.reason@,
        c.reason@.len() == 0 ==> r->Err_0->Unavailable_0@ == "osquery sidecar not yet wired (Phase 2)"@,
{
}

/// A scheduled query is asked under its name and its answer keeps to the rows
/// that it allows; an error is handed on.
pub proof fn law_scheduled_queries<C: OsqueryClient>(
    s: Scheduler,
    client: C,
    idx: usize,
    r: Result<QueryResultSet, ClientError>,
)
    requires
        idx < s.list().len(),
        call_ensures(Scheduler::execute::<C>, (&s, &client, idx), r),
    ensures
        r is Ok ==> r->Ok_0.rows@.len() <= s.list()[idx as int].max_rows,
        exists|id: &str, sql: &str, answer: Result<QueryResultSet, ClientError>|
            #![trigger call_ensures(C::execute, (&client, id, sql), answer)]
            {
                &&& id@ == "schedule."@ + s.list()[idx as int].name@
                &&& sql@ == s.list()[idx as int].sql@
                &&& call_ensures(C::execute, (&client, id, sql), answer)
                &&& answer is Ok <==> r is Ok
                &&& answer is Err ==> r->Err_0 == answer->Err_0
                &&& answer is Ok ==> r->Ok_0.query_id == answer->Ok_0.query_id && r->Ok_0.rows@
                    == answer->Ok_0.rows@.take(r->Ok_0.rows@.len() as int)
            },
{
    let (id, sql, answer) = choose|id: &str, sql: &str, answer: Result<QueryResultSet, ClientError>|
        #![trigger call_ensures(C::execute, (&client, id, sql), answer)]
        {
            &&& id@ == "schedule."@ + s.list()[idx as int].name@
            &&& sql@ == s.list()[idx as int].sql@
            &&& call_ensures(C::execute, (&client, id, sql), answer)
            &&& match answer {
                Ok(rs) => r is Ok && crate::query::capped(rs, s.list()[idx as int].max_rows, r->Ok_0),
                Err(e) => r == Err::<QueryResultSet, ClientError>(e),
            }
        };
    if answer is Ok {
        assert(r->Ok_0.rows@ =~= answer->Ok_0.rows@.take(r->Ok_0.rows@.len() as int));
    }
}

/// The ring buffer is not there, and the error says why: the kernel is too
/// old, or this build lacks it.
pub proof fn law_ring_buffers(
    release: &str,
    r: Result<(), AttachError>,
    none: Result<(), AttachError>,
    capable: bool,
)
    requires
        call_ensures(attach_to_perf_buffer, (Some(release),), r),
        call_ensures(attach_to_perf_buffer, (None::<&str>,), none),
        call_ensures(detect_ebpf_capability, (Some(release),), capable),
    ensures
        r is Err && r->Err_0 is NotPresent,
        capable ==> r->Err_0->NotPresent_0@ == "kernel-linux-ebpf feature not enabled"@,
        !capable ==> r->Err_0->NotPresent_0@
            == "kernel < 5.8 or CAP_BPF not granted; falling back to cn_proc + audit"@,
        none is Err && none->Err_0 is NotPresent && none->Err_0->NotPresent_0@
            == "kernel < 5.8 or CAP_BPF not granted; falling back to cn_proc + audit"@,
{
}

/// A point in time has a date from the year -262143 to the year 262142; a
/// leap second is the last of its minute.
pub proof fn law_dates(secs: i64, nanos: u32, r: Option<Timestamp>)
    requires
        call_ensures(Timestamp::from_timestamp, (secs, nanos), r),
    ensures
        r is Some ==> r->0.secs == secs && r->0.nanos == nanos,
        nanos < 1_000_000_000 ==> (r is Some <==> -8_334_601_228_800 <= secs <= 8_210_266_876_799),
        nanos >= 2_000_000_000 ==> r is None,
        1_000_000_000 <= nanos < 2_000_000_000 && secs % 60 != 59 ==> r is None,
        1_000_000_000 <= nanos < 2_000_000_000 && secs % 60 == 59 && 0 <= secs <= 8_210_266_876_799
            ==> r is Some,
{
}

/// A version file of fewer than three words tells no kernel, and a file
/// without a name or a version tells neither.
pub proof fn law_systems_that_tell_little(
    os_release: &str,
    proc_version: &str,
    architecture: String,
    hostname: String,
    r: OsInfo,
)
    requires
        call_ensures(linux_os_info, (Some(os_release), Some(proc_version), architecture, hostname), r),
    ensures
        words_of(proc_version@).len() < 3 ==> r.kernel_version@ == "unknown"@,
        (forall|k: int|
            0 <= k < lines_of(os_release@).len() ==> !"NAME="@.is_prefix_of(
                #[trigger] lines_of(os_release@)[k],
            )) ==> r.name@ == "Linux"@,
        (forall|k: int|
            0 <= k < lines_of(os_release@).len() ==> !"VERSION_ID="@.is_prefix_of(
                #[trigger] lines_of(os_release@)[k],
            )) ==> r.version@ == "unknown"@,
{
    let l = lines_of(os_release@);
    if forall|k: int| 0 <= k < l.len() ==> !"NAME="@.is_prefix_of(#[trigger] l[k]) {
        lemma_no_setting(l, "NAME="@, l.len() as int);
    }
    if forall|k: int| 0 <= k < l.len() ==> !"VERSION_ID="@.is_prefix_of(#[trigger] l[k]) {
        lemma_no_setting(l, "VERSION_ID="@, l.len() as int);
    }
}

/// A release of two numbers is read as well, and one without a dot is none.
pub proof fn law_short_releases(major: u32, minor: u32, word: Seq<char>)
    requires
        !word.contains('-'),
        !word.contains('.'),
    ensures
        kernel_version(numeral(major as nat, 10) + seq!['.'] + numeral(minor as nat, 10)) == Some(
            (major as nat, minor as nat),
        ),
        trimmed(word) == word ==> kernel_version(word) is None,
{
    let a = numeral(major as nat, 10);
    let b = numeral(minor as nat, 10);
    let d = seq!['.'];
    let s = a + d + b;
    let none: Seq<char> = Seq::empty();
    lemma_figures(major as nat);
    lemma_figures(minor as nat);
    lemma_separate(major as nat, '-');
    lemma_separate(minor as nat, '-');
    lemma_separate(major as nat, '.');
    lemma_separate(minor as nat, '.');
    assert(s[0] == a[0]);
    assert(s.last() == b.last());
    law_trimming_takes_white_space_only(none, s, none);
    assert(none + s + none =~= s);
    assert(!s.contains('-')) by {
        if s.contains('-') {
            let i = choose|i: int| 0 <= i < s.len() && s[i] == '-';
            if i < a.len() {
                assert(a[i] == '-');
            } else if i > a.len() {
                assert(b[i - a.len() - 1] == '-');
            }
        }
    }
    crate::laws::text::law_one_piece(s, '-');
    crate::laws::text::law_one_piece(word, '-');
    crate::laws::text::law_one_piece(word, '.');
    law_first_piece(a, '.', b);
    crate::laws::text::law_one_piece(b, '.');
    let p = pieces_of(s, '.');
    assert(p =~= seq![a, b]);
    law_written_numbers_are_read(major as nat, 10, u32::MAX as nat);
    law_written_numbers_are_read(minor as nat, 10, u32::MAX as nat);
}

} // verus!
