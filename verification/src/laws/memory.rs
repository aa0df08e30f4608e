//! Memory scanning: which memory is worth reading, how regions are listed,
//! when a scan may run and what its alerts say.

use crate::laws::text::{
    law_cut_undoes_joining, law_octets_of_ascii, law_trimming_takes_white_space_only,
    law_words_come_apart, law_written_numbers_are_read,
};
use crate::memory_module::{
    alert_for, build_allow_list, counted, emit_alert, gate_of, load, read_len, reads_planned,
    skipped, AlertDraft, Answer, MemoryMatch, MemoryScanAlertPayload, MemoryScannerConfig,
    MemoryScannerVitals, ProcessHandle, ScanGate,
};
use crate::memory_scanner::{
    joined, letter_rights, maps_line, mapping_of, walked, win_region, win_rights, MappingView,
    MemoryPermissions, MemoryRegion, RegionInfo, RegionView,
};
use crate::scan_host::Asked;
use crate::stream::wrapping_succ;
use crate::text::{cut, gather, is_space, number, numeral, trimmed, views, words_of};
use crate::types::PowerState;
use vstd::prelude::*;

verus! {

// ---------------------------------------------------------------------
// What is worth reading
// ---------------------------------------------------------------------

/// A region is passed over only where a file backs it and one of the three
/// rights is missing.
pub proof fn law_only_files_without_all_rights_are_passed_over(m: MemoryRegion)
    ensures
        !m.interesting() <==> m.mapping is FileBacked && !(m.permissions.readable
            && m.permissions.writable && m.permissions.executable),
        m.mapping is Anonymous || m.mapping is Jit ==> m.interesting(),
{
}

/// More rights never make a region less worth reading.
pub proof fn law_more_rights_more_interest(a: MemoryRegion, b: MemoryRegion)
    requires
        a.mapping is FileBacked == b.mapping is FileBacked,
        a.permissions.readable ==> b.permissions.readable,
        a.permissions.writable ==> b.permissions.writable,
        a.permissions.executable ==> b.permissions.executable,
        a.interesting(),
    ensures
        b.interesting(),
{
}

/// The last address of a region lies as far behind its base as the region is
/// long, short of one; only the end of memory cuts it off.
pub proof fn law_region_end(m: MemoryRegion, r: u64)
    requires
        call_ensures(MemoryRegion::end, (&m,), r),
    ensures
        r >= m.base,
        m.size > 0 && m.base + m.size <= 0x1_0000_0000_0000_0000 ==> r - m.base + 1 == m.size,
        m.size > 0 && m.base + m.size > 0x1_0000_0000_0000_0000 ==> r == 0xffff_ffff_ffff_ffff,
        m.size == 0 ==> r == m.base,
{
}

// ---------------------------------------------------------------------
// Windows
// ---------------------------------------------------------------------

/// What a page protection allows, right by right, once its modifiers are set
/// aside.
pub proof fn law_page_rights(protect: u32)
    ensures
        ({
            let b = protect & 0x0fff_f8ff;
            let p = win_rights(protect);
            &&& p.readable <==> b == 0x02 || b == 0x04 || b == 0x08 || b == 0x20 || b == 0x40 || b
                == 0x80
            &&& p.writable <==> b == 0x04 || b == 0x08 || b == 0x40 || b == 0x80
            &&& p.executable <==> b == 0x10 || b == 0x20 || b == 0x40 || b == 0x80
        }),
        win_rights(protect).writable ==> win_rights(protect).readable,
{
    assert(protect & !0xF000_0700u32 == protect & 0x0fff_f8ffu32) by (bit_vector);
}

/// A protection with the right to execute is the one without it, sixteenfold:
/// it gives the same rights to read and to write, and the right to execute.
pub proof fn law_execute_protections(base: u32)
    requires
        base == 0x01 || base == 0x02 || base == 0x04 || base == 0x08,
    ensures
        win_rights((base * 16) as u32).readable == win_rights(base).readable,
        win_rights((base * 16) as u32).writable == win_rights(base).writable,
        win_rights((base * 16) as u32).executable,
        !win_rights(base).executable,
        win_rights(base).readable <==> base != 0x01,
        win_rights(base).writable <==> base >= 0x04,
{
    law_page_rights(base);
    law_page_rights((base * 16) as u32);
    assert(0x01u32 & 0x0fff_f8ffu32 == 0x01u32) by (bit_vector);
    assert(0x02u32 & 0x0fff_f8ffu32 == 0x02u32) by (bit_vector);
    assert(0x04u32 & 0x0fff_f8ffu32 == 0x04u32) by (bit_vector);
    assert(0x08u32 & 0x0fff_f8ffu32 == 0x08u32) by (bit_vector);
    assert(0x10u32 & 0x0fff_f8ffu32 == 0x10u32) by (bit_vector);
    assert(0x20u32 & 0x0fff_f8ffu32 == 0x20u32) by (bit_vector);
    assert(0x40u32 & 0x0fff_f8ffu32 == 0x40u32) by (bit_vector);
    assert(0x80u32 & 0x0fff_f8ffu32 == 0x80u32) by (bit_vector);
}

/// Committed private memory, the heaps and stacks of a process, is always
/// worth reading, whatever its protection: no file backs it.
pub proof fn law_private_memory_is_worth_reading(info: RegionInfo, m: MemoryRegion)
    requires
        info.state == 0x1000,
        info.kind == 0x2_0000,
        win_region(info) == Some(m@),
    ensures
        !(m.mapping is FileBacked),
        m.interesting(),
        m.base == info.base,
        m.size == info.size,
{
}

/// Every committed region is reported, at its place and with its size, and no
/// other is. A file backs it only where it is an image or a mapped file and
/// not all rights are there; code that is written and run is generated.
pub proof fn law_windows_regions(info: RegionInfo)
    ensures
        win_region(info) is Some <==> info.state == 0x1000,
        win_region(info) matches Some(r) ==> {
            let all = r.permissions.readable && r.permissions.writable && r.permissions.executable;
            let file = info.kind == 0x100_0000 || info.kind == 0x4_0000;
            &&& r.base == info.base
            &&& r.size == info.size
            &&& r.permissions == win_rights(info.protect)
            &&& r.mapping is FileBacked <==> file && !all
            &&& r.mapping is Jit <==> all && (file || info.kind == 0x2_0000)
        },
{
}

/// A walk that gets the regions of a process one after another reports every
/// committed one of them, in order: it stops short of none.
pub proof fn law_walk_reports_every_region(answers: Seq<RegionInfo>, i: int, at: int)
    requires
        0 <= i <= answers.len(),
        forall|k: int|
            i <= k < answers.len() ==> (#[trigger] answers[k]).size > 0 && answers[k].base
                + answers[k].size <= 0xffff_ffff_ffff_ffff,
        forall|k: int|
            i <= k < answers.len() - 1 ==> (#[trigger] answers[k]).base + answers[k].size
                <= answers[k + 1].base,
        i < answers.len() ==> at <= answers[i].base,
    ensures
        walked(answers, i, at) == gather(answers.skip(i), |x: RegionInfo| win_region(x)),
    decreases answers.len() - i,
{
    let f = |x: RegionInfo| win_region(x);
    if i < answers.len() {
        let next = answers[i].base + answers[i].size;
        law_walk_reports_every_region(answers, i + 1, next);
        let rest = answers.skip(i);
        let none: Seq<RegionInfo> = Seq::empty();
        crate::laws::text::law_gathering(none, answers[i], answers.skip(i + 1), f);
        assert(none + seq![answers[i]] + answers.skip(i + 1) =~= rest);
        assert(walked(answers, i, at) =~= gather(rest, f));
    } else {
        assert(answers.skip(i) =~= Seq::empty());
    }
}

/// A walk only goes up: it ends at an answer that would not take it further,
/// and reports no region after that.
pub proof fn law_walk_only_goes_up(answers: Seq<RegionInfo>, i: int, at: int)
    requires
        0 <= i < answers.len(),
        answers[i].base + answers[i].size <= at <= 0xffff_ffff_ffff_ffff,
    ensures
        walked(answers, i, at).len() <= 1,
        walked(answers, i, at).len() == 1 <==> answers[i].state == 0x1000,
{
}

// ---------------------------------------------------------------------
// Linux
// ---------------------------------------------------------------------

/// The rights of a maps line are its first three letters, each at its place.
pub proof fn law_letters_of_rights(s: Seq<char>)
    requires
        s.len() >= 3,
        forall|i: int| 0 <= i < s.len() ==> (#[trigger] s[i]) as u32 <= 0x7f,
    ensures
        letter_rights(s).readable <==> s[0] == 'r',
        letter_rights(s).writable <==> s[1] == 'w',
        letter_rights(s).executable <==> s[2] == 'x',
{
    law_octets_of_ascii(s, 0);
    law_octets_of_ascii(s, 1);
    law_octets_of_ascii(s, 2);
}

/// A file backs a mapping only where its path names one: memory without a
/// path, with a tag in brackets, or that can be written and run never counts
/// as a file.
pub proof fn law_only_paths_are_files(path: Seq<char>, p: MemoryPermissions)
    ensures
        match mapping_of(path, p) {
            MappingView::FileBacked(t) => {
                &&& t.len() > 0
                &&& t[0] != '['
                &&& t == trimmed(path)
                &&& !(p.writable && p.executable)
            },
            MappingView::Jit => p.writable && p.executable,
            MappingView::Anonymous => {
                &&& !(p.writable && p.executable)
                &&& trimmed(path).len() == 0 || trimmed(path)[0] == '['
            },
        },
{
}

/// Whether a text is one word: there is something, and no white space.
pub open spec fn one_word(s: Seq<char>) -> bool {
    s.len() > 0 && forall|i: int| 0 <= i < s.len() ==> !is_space(#[trigger] s[i])
}

/// A maps line that was written is read back: the range, the rights and what
/// backs the region.
pub proof fn law_maps_lines_are_read_back(
    start: u64,
    end: u64,
    letters: Seq<char>,
    offset: Seq<char>,
    device: Seq<char>,
    inode: Seq<char>,
    path: Seq<char>,
)
    requires
        start < end,
        one_word(letters),
        one_word(offset),
        one_word(device),
        one_word(inode),
        one_word(path),
    ensures
        ({
            let b = seq![' '];
            let range = numeral(start as nat, 16) + seq!['-'] + numeral(end as nat, 16);
            let bare = range + b + (letters + b + (offset + b + (device + b + inode)));
            let named = range + b + (letters + b + (offset + b + (device + b + (inode + b + path))));
            let p = letter_rights(letters);
            &&& maps_line(named) == Some(
                RegionView {
                    base: start,
                    size: (end - start) as u64,
                    permissions: p,
                    mapping: if p.writable && p.executable {
                        MappingView::Jit
                    } else if path[0] == '[' {
                        MappingView::Anonymous
                    } else {
                        MappingView::FileBacked(path)
                    },
                },
            )
            &&& maps_line(bare) == Some(
                RegionView {
                    base: start,
                    size: (end - start) as u64,
                    permissions: p,
                    mapping: if p.writable && p.executable {
                        MappingView::Jit
                    } else {
                        MappingView::Anonymous
                    },
                },
            )
        }),
{
    let b = seq![' '];
    let from = numeral(start as nat, 16);
    let to = numeral(end as nat, 16);
    let range = from + seq!['-'] + to;
    law_written_numbers_are_read(start as nat, 16, u64::MAX as nat);
    law_written_numbers_are_read(end as nat, 16, u64::MAX as nat);
    lemma_numeral_is_plain(start as nat);
    lemma_numeral_is_plain(end as nat);
    law_cut_undoes_joining(from, '-', to);
    assert(one_word(range)) by {
        assert forall|i: int| 0 <= i < range.len() implies !is_space(#[trigger] range[i]) by {
            if i < from.len() {
                assert(range[i] == from[i]);
            } else if i > from.len() {
                assert(range[i] == to[i - from.len() - 1]);
            }
        }
    }
    let empty: Seq<char> = Seq::empty();
    law_words_come_apart(path, b, empty);
    law_words_come_apart(inode, b, path);
    law_words_come_apart(inode, b, empty);
    let n0 = inode + b + path;
    law_words_come_apart(device, b, n0);
    let n1 = device + b + n0;
    law_words_come_apart(offset, b, n1);
    let n2 = offset + b + n1;
    law_words_come_apart(letters, b, n2);
    let n3 = letters + b + n2;
    law_words_come_apart(range, b, n3);
    let named = range + b + n3;
    let w = words_of(named);
    assert(w =~= seq![range, letters, offset, device, inode, path]);
    assert(w.skip(5) =~= seq![path]);
    assert(joined(w.skip(5)) == path);
    law_trimming_takes_white_space_only(empty, path, empty);
    assert(empty + path + empty =~= path);
    law_words_come_apart(device, b, inode);
    let m1 = device + b + inode;
    law_words_come_apart(offset, b, m1);
    let m2 = offset + b + m1;
    law_words_come_apart(letters, b, m2);
    let m3 = letters + b + m2;
    law_words_come_apart(range, b, m3);
    let v = words_of(range + b + m3);
    assert(v =~= seq![range, letters, offset, device, inode]);
    assert(v.skip(5) =~= Seq::empty());
    law_trimming_takes_white_space_only(empty, empty, empty);
    assert(empty + empty + empty =~= empty);
}

proof fn lemma_numeral_is_plain(n: nat)
    ensures
        numeral(n, 16).len() > 0,
        !numeral(n, 16).contains('-'),
        forall|i: int| 0 <= i < numeral(n, 16).len() ==> !is_space(#[trigger] numeral(n, 16)[i]),
    decreases n,
{
    let s = numeral(n, 16);
    law_written_numbers_are_read(n, 16, n);
    assert forall|i: int| 0 <= i < s.len() implies !is_space(#[trigger] s[i]) && s[i] != '-' by {
        crate::laws::text::law_only_digits_are_read(s, 16, n, i);
    }
}

/// A range that ends where it begins, or before, is no region, and neither is
/// a line that lacks one of its fields.
pub proof fn law_what_is_no_region(line: Seq<char>)
    ensures
        maps_line(line) matches Some(r) ==> {
            &&& words_of(line).len() >= 5
            &&& r.size > 0
            &&& match cut(words_of(line)[0], '-') {
                Some((from, to)) => number(from, 16, 0xffff_ffff_ffff_ffff) == Some(r.base as nat)
                    && number(to, 16, 0xffff_ffff_ffff_ffff) == Some((r.base + r.size) as nat),
                None => false,
            }
        },
{
}

// ---------------------------------------------------------------------
// The scan
// ---------------------------------------------------------------------

/// A read takes the whole region, or as much as the cap allows; a cap of 0 is
/// none.
pub proof fn law_read_length(size: usize, cap: usize)
    ensures
        read_len(size, cap) <= size,
        cap > 0 ==> read_len(size, cap) <= cap,
        read_len(size, cap) == size || read_len(size, cap) == cap,
        cap == 0 || size <= cap ==> read_len(size, cap) == size,
{
}

/// Every interesting region is planned, once and in order, and no other is.
pub proof fn law_every_interesting_region_is_planned(
    regions: Seq<MemoryRegion>,
    cap: usize,
    n: int,
    i: int,
)
    requires
        0 <= n <= regions.len() <= usize::MAX,
        0 <= i < n,
    ensures
        (exists|k: int|
            0 <= k < reads_planned(regions, cap, n).len() && (#[trigger] reads_planned(
                regions,
                cap,
                n,
            )[k]).0 == i) <==> !(regions[i].mapping is FileBacked) || (regions[i].permissions.readable
            && regions[i].permissions.writable && regions[i].permissions.executable),
        forall|j: int, k: int|
            #![trigger reads_planned(regions, cap, n)[j], reads_planned(regions, cap, n)[k]]
            0 <= j < k < reads_planned(regions, cap, n).len() ==> reads_planned(regions, cap, n)[j].0
                < reads_planned(regions, cap, n)[k].0,
    decreases n,
{
    crate::memory_module::law_reads_are_bounded(regions, cap, n);
    let all = reads_planned(regions, cap, n);
    let front = reads_planned(regions, cap, n - 1);
    if n > 1 {
        law_every_interesting_region_is_planned(regions, cap, n - 1, if i < n - 1 {
            i
        } else {
            0
        });
    }
    crate::memory_module::law_reads_are_bounded(regions, cap, n - 1);
    if regions[i].interesting() {
        if i == n - 1 {
            assert(all.last().0 == i);
            assert(all[all.len() - 1].0 == i);
        } else {
            let k = choose|k: int| 0 <= k < front.len() && (#[trigger] front[k]).0 == i;
            assert(all[k] == front[k]);
        }
    } else {
        assert forall|k: int| 0 <= k < all.len() implies (#[trigger] all[k]).0 != i by {
            assert(regions[all[k].0 as int].interesting());
        }
    }
    assert forall|j: int, k: int|
        #![trigger all[j], all[k]]
        0 <= j < k < all.len() implies all[j].0 < all[k].0 by {
        if k < front.len() {
            assert(all[j] == front[j] && all[k] == front[k]);
        } else {
            assert(all[j] == front[j]);
            assert(front[j].0 < n - 1);
        }
    }
}

/// Only process 0, the agent itself and listed names are passed over.
pub proof fn law_who_is_passed_over(h: ProcessHandle, self_pid: u32, allow: Seq<Seq<char>>)
    ensures
        !skipped(h, self_pid, allow) <==> h.pid != 0 && h.pid != self_pid && !allow.contains(h.name@),
{
}

/// The names that are never scanned are those of the settings and the two of
/// the agent.
pub proof fn law_names_never_scanned(cfg: MemoryScannerConfig, r: Vec<String>, name: Seq<char>)
    requires
        call_ensures(build_allow_list, (&cfg,), r),
    ensures
        views(r@).contains(name) <==> views(cfg.allow_list_processes@).contains(name) || name
            == "sn360-desktop-agent"@ || name == "sda-agent"@,
{
    let own = views(cfg.allow_list_processes@);
    let all = views(r@);
    assert(all == own + seq!["sn360-desktop-agent"@, "sda-agent"@]);
    if own.contains(name) {
        let i = choose|i: int| 0 <= i < own.len() && own[i] == name;
        assert(all[i] == name);
    }
    assert(all[own.len() as int] == "sn360-desktop-agent"@);
    assert(all[own.len() as int + 1] == "sda-agent"@);
    if all.contains(name) {
        let i = choose|i: int| 0 <= i < all.len() && all[i] == name;
        if i < own.len() {
            assert(own[i] == name);
        }
    }
}

/// A scan is held back only by load at or above a threshold below 100, or by
/// a battery where the settings say so; less load never holds it back.
pub proof fn law_what_holds_a_scan_back(
    cfg: MemoryScannerConfig,
    busy: u32,
    less: u32,
    power: PowerState,
)
    requires
        less <= busy,
    ensures
        gate_of(cfg, busy, power) == ScanGate::Open <==> (cfg.only_when_idle_below_cpu_pct >= 100
            || busy < cfg.only_when_idle_below_cpu_pct) && (!cfg.defer_on_battery || power
            != PowerState::Battery),
        gate_of(cfg, busy, power) == ScanGate::Open ==> gate_of(cfg, less, power) == ScanGate::Open,
        gate_of(cfg, busy, power) == ScanGate::OnBattery ==> power == PowerState::Battery
            && cfg.defer_on_battery,
        gate_of(cfg, busy, power) == ScanGate::Busy ==> busy >= cfg.only_when_idle_below_cpu_pct
            && cfg.only_when_idle_below_cpu_pct < 100,
{
}

/// An alert names the process, the region and the hit that raised it.
pub proof fn law_alerts_name_their_hit(
    h: ProcessHandle,
    region: MemoryRegion,
    m: MemoryMatch,
    draft: AlertDraft,
    at: String,
    r: MemoryScanAlertPayload,
)
    requires
        call_ensures(alert_for, (&h, &region, &m), draft),
        call_ensures(emit_alert, (draft, at), r),
    ensures
        r.pid == h.pid,
        r.process_name == h.name,
        r.region_base == region.base,
        r.region_size == region.size,
        r.alert_type == m.alert_type,
        r.description == m.description,
        r.detected_at == at,
{
}

/// What was read of a region, and nothing else, goes to the matcher, as
/// octets of that process and that region; each hit raises its own alert.
pub proof fn law_what_is_read_is_matched(
    h: ProcessHandle,
    region: MemoryRegion,
    len: usize,
    bytes: Seq<u8>,
    hits: Seq<MemoryMatch>,
    told: Seq<bool>,
)
    ensures
        ({
            let q = (Answer::Seen { bytes, hits, told }).asked(h, region, len);
            &&& q.len() == 2 + hits.len()
            &&& q[0] == Asked::Read { pid: h.pid, base: region.base, len, got: Some(bytes) }
            &&& q[1] == Asked::Match { pid: h.pid, region, bytes, hits }
            &&& forall|i: int|
                0 <= i < hits.len() ==> {
                    &&& #[trigger] q[2 + i] is Raise
                    &&& q[2 + i]->published == told[i]
                    &&& q[2 + i]->draft.pid == h.pid
                    &&& q[2 + i]->draft.process_name == h.name
                    &&& q[2 + i]->draft.region_base == region.base
                    &&& q[2 + i]->draft.region_size == region.size
                    &&& q[2 + i]->draft.hit == hits[i]
                }
        }),
        Answer::Refused.asked(h, region, len) == seq![
            Asked::Read { pid: h.pid, base: region.base, len, got: None },
        ],
        Answer::Unasked.asked(h, region, len) == Seq::<Asked>::empty(),
{
}

/// Each question moves the counter that it stands for, and no other.
pub proof fn law_each_question_is_counted_once(
    before: MemoryScannerVitals,
    found: nat,
    asked: Seq<Asked>,
    q: Asked,
)
    ensures
        ({
            let a = counted(before, found, asked);
            let b = counted(before, found, asked.push(q));
            &&& b.regions_enumerated == a.regions_enumerated
            &&& b.regions_scanned == if q is Match {
                wrapping_succ(a.regions_scanned)
            } else {
                a.regions_scanned
            }
            &&& b.matches_emitted == if q is Raise && q->published {
                wrapping_succ(a.matches_emitted)
            } else {
                a.matches_emitted
            }
            &&& b.publish_failures == if q is Raise && !q->published {
                wrapping_succ(a.publish_failures)
            } else {
                a.publish_failures
            }
            &&& b.scans_started == before.scans_started
            &&& b.scans_skipped_cpu == before.scans_skipped_cpu
            &&& b.scans_skipped_battery == before.scans_skipped_battery
        }),
        counted(before, 0, Seq::empty()) == before,
        counted(before, (found + 1) as nat, asked).regions_enumerated == wrapping_succ(
            counted(before, found, asked).regions_enumerated,
        ),
{
    assert(asked.push(q).drop_last() =~= asked);
}

// ---------------------------------------------------------------------
// Load
// ---------------------------------------------------------------------

/// A load is a share of the time that has passed: all of it idle is none, none
/// of it idle is all, and it never goes beyond 100.
pub proof fn law_load_is_a_share(total: u64, idle: u64, dt: u64, di: u64)
    requires
        total + dt <= u64::MAX,
        idle + di <= u64::MAX,
        di <= dt,
    ensures
        ({
            let l = load((total, idle), ((total + dt) as u64, (idle + di) as u64));
            &&& 0 <= l <= 100
            &&& dt == 0 ==> l == 0
            &&& dt > 0 && di == dt ==> l == 0
            &&& dt > 0 && di == 0 ==> l == 100
            &&& dt > 0 ==> l * dt <= (dt - di) * 100 < (l + 1) * dt
        }),
{
    if dt > 0 {
        let d = dt as int;
        let b = (dt - di) * 100;
        assert(b / d * d <= b < (b / d + 1) * d) by (nonlinear_arith)
            requires
                d > 0,
                b >= 0,
        ;
        assert(b / d <= 100) by (nonlinear_arith)
            requires
                d > 0,
                0 <= b <= d * 100,
        ;
        if di == 0 {
            assert(d * 100 / d == 100) by (nonlinear_arith)
                requires
                    d > 0,
            ;
        }
        if di == dt {
            assert(0int / d == 0) by (nonlinear_arith)
                requires
                    d > 0,
            ;
        }
    }
}

} // verus!
