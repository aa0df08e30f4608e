//! Processes: reading the process directory undoes the kernel's writing, and
//! what changes is told once.

use crate::clock::Timestamp;
use crate::laws::network::{lemma_octets_len, lemma_process_octets, lemma_tenths};
use crate::laws::text::{
    law_gathering, law_last_index_is_last, law_octets_come_apart, law_only_digits_are_read,
    law_words_come_apart, law_written_numbers_are_read,
};
use crate::network_module::{octets, tenth, tenth_octets};
use crate::process_module::{
    ancestor_request, emit_event, found_chain, process_identity, process_step,
    published_process, ProcessMonitorConfig, ProcessPayload, ProcessPipeline, WireAncestor,
};
use crate::process_monitor::{
    ancestors, arguments, chain, created_event, entry_from, parse_cmdline, parse_stat,
    parse_status_uid, process_changes, process_number, read_snapshot, stat_entry,
    terminated_event, uid_from, uid_line, walk_ancestors, AncestorView, AncestorWalk,
    MockProcessMonitor, ProcChanges, ProcEntry, ProcPoller, ProcSnapshot, ProcessAncestor,
    ProcessEvent, ProcessMonitorError, ProcessMonitorOpts,
};
use crate::text::{
    gather, just, last_index, lemma_scan, lines_of, lossy_utf8, number, numeral, octet_pieces_of,
    opt_view, scan, views, words_of,
};
use std::collections::HashMap;
use std::hash::DefaultHasher;
use vstd::prelude::*;
use vstd::std_specs::hash::DefaultHasherAdditionalSpecFns;

verus! {

proof fn lemma_absent(n: nat, c: char)
    requires
        crate::text::digit(c, 10) is None,
        c != '+',
    ensures
        !numeral(n, 10).contains(c),
{
    let s = numeral(n, 10);
    law_written_numbers_are_read(n, 10, n);
    if s.contains(c) {
        let i = choose|i: int| 0 <= i < s.len() && s[i] == c;
        law_only_digits_are_read(s, 10, n, i);
    }
}

proof fn lemma_scan_first(a: Seq<char>, c: char, b: Seq<char>)
    requires
        !a.contains(c),
    ensures
        scan(a + seq![c] + b, just(c), 0) == a.len(),
{
    let s = a + seq![c] + b;
    lemma_scan(s, just(c), 0);
    let e = scan(s, just(c), 0);
    assert(s[a.len() as int] == c);
    if e < a.len() {
        assert(just(c)(s[e]));
        assert(s[e] == a[e]);
        assert(a.contains(c));
    }
    if e > a.len() {
        assert(!just(c)(s[a.len() as int]));
    }
}

/// The kernel's line on a process is read back, whatever the name of the
/// process holds: brackets, blanks or anything else.
pub proof fn law_stat_lines_are_read_back(
    pid: u32,
    name: Seq<char>,
    state: Seq<char>,
    ppid: u32,
    rest: Seq<char>,
)
    requires
        state.len() > 0,
        forall|i: int| 0 <= i < state.len() ==> !crate::text::is_space(#[trigger] state[i]),
        !state.contains(')'),
        !rest.contains(')'),
    ensures
        stat_entry(
            numeral(pid as nat, 10) + seq![' ', '('] + name + seq![')', ' '] + (state + seq![' '] + (
            numeral(ppid as nat, 10) + seq![' '] + rest)),
        ) == Some((pid as nat, name, ppid as nat)),
{
    let p = numeral(pid as nat, 10);
    let q = numeral(ppid as nat, 10);
    let b = seq![' '];
    let tail = state + b + (q + b + rest);
    let s = p + seq![' ', '('] + name + seq![')', ' '] + tail;
    crate::laws::text::law_white_space_of_ascii(' ');
    lemma_absent(pid as nat, ' ');
    lemma_absent(pid as nat, '(');
    lemma_absent(ppid as nat, ')');
    let n = p.len() as int;
    let close = n + 2 + name.len();
    // the number of the process
    let after_blank = seq!['('] + name + seq![')', ' '] + tail;
    assert(s =~= p + b + after_blank);
    lemma_scan_first(p, ' ', after_blank);
    assert(s.take(n) =~= p);
    law_written_numbers_are_read(pid as nat, 10, u32::MAX as nat);
    // the name
    let head = p + b;
    assert(!head.contains('(')) by {
        if head.contains('(') {
            let i = choose|i: int| 0 <= i < head.len() && head[i] == '(';
            if i < n {
                assert(p[i] == '(');
            }
        }
    }
    let after_open = name + seq![')', ' '] + tail;
    assert(s =~= head + seq!['('] + after_open);
    lemma_scan_first(head, '(', after_open);
    law_last_index_is_last(s, ')');
    assert(s[close] == ')');
    lemma_no_bracket(state, q, rest);
    assert(s.contains(')'));
    let i = last_index(s, ')', s.len() as int)->0;
    if i < close {
        assert(s.skip(i + 1)[close - i - 1] == ')');
    }
    if i > close {
        assert(s.skip(close + 1) =~= b + tail);
        assert((b + tail)[i - close - 1] == ')');
        if i - close - 1 > 0 {
            assert(tail[i - close - 2] == ')');
        }
    }
    assert(i == close);
    assert(s.subrange(n + 2, close) =~= name);
    // the parent
    assert(s.skip(close + 1) =~= b + tail);
    lemma_digits_are_words(ppid as nat);
    law_words_come_apart(q, b, rest);
    law_words_come_apart(state, b, q + b + rest);
    law_words_come_apart(state, b, tail);
    assert(words_of(b + tail) == words_of(tail));
    let f = words_of(tail);
    assert(f =~= seq![state, q] + words_of(rest));
    assert(f[1] == q);
    law_written_numbers_are_read(ppid as nat, 10, u32::MAX as nat);
}

proof fn lemma_no_bracket(state: Seq<char>, q: Seq<char>, rest: Seq<char>)
    requires
        !state.contains(')'),
        !q.contains(')'),
        !rest.contains(')'),
    ensures
        !(state + seq![' '] + (q + seq![' '] + rest)).contains(')'),
{
    let b = seq![' '];
    let t = state + b + (q + b + rest);
    if t.contains(')') {
        let i = choose|i: int| 0 <= i < t.len() && t[i] == ')';
        let n = state.len() as int;
        let m = (state.len() + 1 + q.len()) as int;
        if i < n {
            assert(state[i] == ')');
        } else if i > n && i < m {
            assert(q[i - n - 1] == ')');
        } else if i > m {
            assert(rest[i - m - 1] == ')');
        }
    }
}

proof fn lemma_digits_are_words(n: nat)
    ensures
        numeral(n, 10).len() > 0,
        forall|i: int|
            0 <= i < numeral(n, 10).len() ==> !crate::text::is_space(#[trigger] numeral(n, 10)[i]),
{
    let s = numeral(n, 10);
    law_written_numbers_are_read(n, 10, n);
    assert forall|i: int| 0 <= i < s.len() implies !crate::text::is_space(#[trigger] s[i]) by {
        law_only_digits_are_read(s, 10, n, i);
        crate::laws::text::law_white_space_of_ascii(s[i]);
    }
}

/// A file without a closing bracket, or with no number at its start, is no
/// line on a process.
pub proof fn law_what_is_no_process(s: Seq<char>)
    ensures
        !s.contains(')') ==> stat_entry(s) is None,
        !s.contains('(') ==> stat_entry(s) is None,
{
    law_last_index_is_last(s, ')');
    lemma_scan(s, just('('), 0);
    let e = scan(s, just('('), 0);
    if e < s.len() {
        assert(just('(')(s[e]));
        assert(s.contains('('));
    }
}

/// What is read is what the reader of the file hands out.
pub proof fn law_stat_files(s: &str, r: Option<(u32, String, u32)>, e: (nat, Seq<char>, nat))
    requires
        call_ensures(parse_stat, (s,), r),
        stat_entry(s@) == Some(e),
    ensures
        r matches Some((pid, name, ppid)) && pid == e.0 && name@ == e.1 && ppid == e.2,
{
}

/// A command line is read argument by argument, in order; empty arguments are
/// left out.
pub proof fn law_command_lines_are_read_back(a: Seq<u8>, rest: Seq<u8>)
    requires
        !a.contains(0),
    ensures
        arguments(a + seq![0u8] + rest) == (if a.len() > 0 {
            seq![lossy_utf8(a)]
        } else {
            Seq::empty()
        }) + arguments(rest),
        arguments(a) == if a.len() > 0 {
            seq![lossy_utf8(a)]
        } else {
            Seq::empty()
        },
{
    let f = crate::process_monitor::argument_reader();
    law_octets_come_apart(a, 0, rest);
    let none: Seq<Seq<u8>> = Seq::empty();
    let others = octet_pieces_of(rest, 0);
    law_gathering(none, a, others, f);
    assert(none + seq![a] + others =~= seq![a] + others);
    law_gathering(none, a, none, f);
    assert(none + seq![a] + none =~= seq![a]);
    assert(gather(none, f) =~= Seq::empty());
    assert(arguments(a + seq![0u8] + rest) =~= (if a.len() > 0 {
        seq![lossy_utf8(a)]
    } else {
        Seq::empty()
    }) + arguments(rest));
    assert(arguments(a) =~= if a.len() > 0 {
        seq![lossy_utf8(a)]
    } else {
        Seq::empty()
    });
}

/// The user is the first number behind `Uid:`, which is the real one.
pub proof fn law_users_of_processes(uid: Seq<char>, rest: Seq<char>)
    requires
        uid.len() > 0,
        forall|i: int| 0 <= i < uid.len() ==> !crate::text::is_space(#[trigger] uid[i]),
    ensures
        uid_line("Uid:"@ + seq!['\t'] + (uid + seq!['\t'] + rest)) == Some(uid),
{
    reveal_strlit("Uid:");
    let t = seq!['\t'];
    let line = "Uid:"@ + t + (uid + t + rest);
    crate::laws::text::law_white_space_of_ascii('\t');
    assert("Uid:"@.is_prefix_of(line));
    assert(line.skip("Uid:"@.len() as int) =~= t + (uid + t + rest));
    law_words_come_apart(uid, t, rest);
    law_words_come_apart(uid, t, uid + t + rest);
    assert(words_of(t + (uid + t + rest)) == words_of(uid + t + rest));
    assert(words_of(uid + t + rest)[0] == uid);
}

/// The first line that names a user counts; without one there is none.
pub proof fn law_the_first_user_counts(status: &str, r: Option<String>, i: int)
    requires
        call_ensures(parse_status_uid, (status,), r),
        0 <= i <= lines_of(status@).len(),
        forall|k: int| 0 <= k < i ==> !"Uid:"@.is_prefix_of(#[trigger] lines_of(status@)[k]),
    ensures
        i == lines_of(status@).len() ==> r is None,
        i < lines_of(status@).len() && uid_line(lines_of(status@)[i]) is Some ==> opt_view(r)
            == uid_line(lines_of(status@)[i]),
{
    lemma_uid(lines_of(status@), 0, i);
}

proof fn lemma_uid(l: Seq<Seq<char>>, from: int, i: int)
    requires
        0 <= from <= i <= l.len(),
        forall|k: int| 0 <= k < i ==> !"Uid:"@.is_prefix_of(#[trigger] l[k]),
    ensures
        uid_from(l, from) == uid_from(l, i),
    decreases i - from,
{
    if from < i {
        assert(uid_line(l[from]) is None);
        lemma_uid(l, from + 1, i);
    }
}

/// Only a directory that is named by a number stands for a process.
pub proof fn law_directories_of_processes(pid: u32, file_name: &str, r: Option<u32>)
    requires
        call_ensures(process_number, (file_name,), r),
    ensures
        file_name@ == numeral(pid as nat, 10) ==> r == Some(pid),
        r is None <==> number(file_name@, 10, 0xffff_ffff) is None,
{
    law_written_numbers_are_read(pid as nat, 10, 0xffff_ffff);
}

/// A snapshot says of each file what it holds; without a readable line on the
/// process there is none.
pub proof fn law_snapshots_of_processes(
    stat: &str,
    exe_path: Option<String>,
    cmdline: &[u8],
    status: &str,
    r: Option<ProcSnapshot>,
    bare: Option<ProcSnapshot>,
    none: Option<ProcSnapshot>,
    e: (nat, Seq<char>, nat),
)
    requires
        call_ensures(read_snapshot, (Some(stat), exe_path, Some(cmdline), Some(status)), r),
        call_ensures(read_snapshot, (Some(stat), exe_path, None::<&[u8]>, None::<&str>), bare),
        call_ensures(read_snapshot, (None::<&str>, exe_path, Some(cmdline), Some(status)), none),
        stat_entry(stat@) == Some(e),
    ensures
        none is None,
        r is Some && bare is Some,
        r->0.name@ == e.1 && r->0.ppid == e.2 && r->0.exe_path == exe_path,
        views(r->0.cmdline@) == arguments(cmdline@),
        opt_view(r->0.user) == uid_from(lines_of(status@), 0),
        bare->0.name@ == e.1 && bare->0.ppid == e.2 && bare->0.exe_path == exe_path,
        bare->0.cmdline@.len() == 0,
        bare->0.user is None,
{
    assert(views(bare->0.cmdline@).len() == bare->0.cmdline@.len());
}

/// A process is told to be new exactly where it is in the later reading
/// alone, and to be gone exactly where it is in the earlier one alone, under
/// the name that it had there.
pub proof fn law_changes_of_processes(
    last: HashMap<u32, ProcSnapshot>,
    current: HashMap<u32, ProcSnapshot>,
    r: ProcChanges,
    p: u32,
    i: int,
)
    requires
        call_ensures(process_changes, (&last, &current), r),
    ensures
        r.started@.contains(p) <==> current@.contains_key(p) && !last@.contains_key(p),
        (exists|k: int| 0 <= k < r.ended@.len() && (#[trigger] r.ended@[k]).0 == p)
            <==> last@.contains_key(p) && !current@.contains_key(p),
        0 <= i < r.ended@.len() ==> r.ended@[i].1@ == last@[r.ended@[i].0].name@,
        r.started@.no_duplicates(),
{
    let n = crate::process_monitor::numbers_of(r.ended@);
    assert(n.len() == r.ended@.len());
    assert forall|k: int| 0 <= k < n.len() implies #[trigger] n[k] == r.ended@[k].0 by {}
    if n.contains(p) {
        let k = choose|k: int| 0 <= k < n.len() && n[k] == p;
        assert(r.ended@[k].0 == p);
    }
    if exists|k: int| 0 <= k < r.ended@.len() && (#[trigger] r.ended@[k]).0 == p {
        let k = choose|k: int| 0 <= k < r.ended@.len() && (#[trigger] r.ended@[k]).0 == p;
        assert(n[k] == p);
    }
}

/// A new process is told as it was found, and one that is gone under its
/// name, without an exit code.
pub proof fn law_processes_are_told_as_they_are(
    pid: u32,
    snap: ProcSnapshot,
    name: String,
    now: Timestamp,
    c: ProcessEvent,
    t: ProcessEvent,
)
    requires
        call_ensures(created_event, (pid, &snap, now), c),
        call_ensures(terminated_event, (pid, name, now), t),
    ensures
        c is Created && c->Created_pid == pid && c->ppid == snap.ppid && c->Created_name == snap.name,
        c->exe_path == snap.exe_path && views(c->cmdline@) == views(snap.cmdline@) && c->user
            == snap.user && c->started_at == now,
        t is Terminated && t->Terminated_pid == pid && t->Terminated_name == name && t->exit_code is None
            && t->ended_at == now,
{
}

/// The first ancestor of a process is its parent, and the others are those of
/// the parent; process 0 and a process that is its own parent have none.
pub proof fn law_ancestors_are_parents_of_parents(
    d: Seq<ProcEntry>,
    i: int,
    j: int,
    depth: nat,
    me: (nat, Seq<char>, nat),
    parent: (nat, Seq<char>, nat),
)
    requires
        depth > 0,
        0 <= i < d.len(),
        0 <= j < d.len(),
        forall|k: int| 0 <= k < i ==> (#[trigger] d[k]).pid != d[i].pid,
        forall|k: int| 0 <= k < j ==> (#[trigger] d[k]).pid != d[j].pid,
        stat_entry(d[i].stat@) == Some(me),
        stat_entry(d[j].stat@) == Some(parent),
        parent.0 == d[j].pid,
        me.2 == d[j].pid,
        d[j].pid != 0,
    ensures
        ({
            let a = ancestors(d, d[i].pid as nat, depth);
            &&& a.len() > 0
            &&& a[0].pid == me.2
            &&& a[0].name == parent.1
            &&& a[0].exe_path == opt_view(d[j].exe_path)
            &&& a.drop_first() == if parent.2 == parent.0 {
                Seq::empty()
            } else {
                ancestors(d, d[j].pid as nat, (depth - 1) as nat)
            }
        }),
{
    lemma_entry(d, i, 0);
    lemma_entry(d, j, 0);
    let a = ancestors(d, d[i].pid as nat, depth);
    assert(a == chain(d, me.2, depth));
    let rest = if parent.2 == parent.0 {
        Seq::empty()
    } else {
        chain(d, parent.2, (depth - 1) as nat)
    };
    let here = AncestorView { pid: parent.0, name: parent.1, exe_path: opt_view(d[j].exe_path) };
    assert(a =~= seq![here] + rest);
    assert(a.drop_first() =~= rest);
}

proof fn lemma_entry(d: Seq<ProcEntry>, i: int, from: int)
    requires
        0 <= from <= i < d.len(),
        forall|k: int| 0 <= k < i ==> (#[trigger] d[k]).pid != d[i].pid,
    ensures
        entry_from(d, d[i].pid as nat, from) == Some(i),
    decreases i - from,
{
    if from < i {
        lemma_entry(d, i, from + 1);
    }
}

/// A process of which nothing can be read has no ancestors, and neither has
/// one whose parent is process 0.
pub proof fn law_where_ancestors_end(d: Seq<ProcEntry>, pid: nat, depth: nat)
    ensures
        (forall|k: int| 0 <= k < d.len() ==> (#[trigger] d[k]).pid != pid) ==> ancestors(
            d,
            pid,
            depth,
        ).len() == 0,
        chain(d, 0, depth).len() == 0,
        ancestors(d, pid, 0).len() == 0,
{
    if forall|k: int| 0 <= k < d.len() ==> (#[trigger] d[k]).pid != pid {
        lemma_no_entry(d, pid, 0);
    }
}

proof fn lemma_no_entry(d: Seq<ProcEntry>, pid: nat, from: int)
    requires
        0 <= from,
        forall|k: int| 0 <= k < d.len() ==> (#[trigger] d[k]).pid != pid,
    ensures
        entry_from(d, pid, from) is None,
    decreases d.len() - from,
{
    if from < d.len() {
        lemma_no_entry(d, pid, from + 1);
    }
}

// ---------------------------------------------------------------------
// Module
// ---------------------------------------------------------------------

/// The pace of readings is what was asked for, and never below fifty
/// milliseconds.
pub proof fn law_pace_of_process_readings(o: ProcessMonitorOpts, r: u64)
    requires
        call_ensures(ProcessMonitorOpts::effective_poll_ms, (&o,), r),
    ensures
        r >= 50,
        o.poll_interval_ms >= 50 ==> r == o.poll_interval_ms,
        o.poll_interval_ms < 50 ==> r == 50,
{
}

/// What the module asks the monitor for is what it was configured with.
pub proof fn law_process_subscription(c: ProcessMonitorConfig, r: ProcessMonitorOpts)
    requires
        call_ensures(ProcessMonitorConfig::subscription, (&c,), r),
    ensures
        r.image_load_events == c.image_load_events,
        r.channel_buffer == c.event_buffer_size,
        r.poll_interval_ms == c.poll_interval_ms,
{
}

/// Ancestors are looked up for new processes alone, of that very process, as
/// deep as was configured.
pub proof fn law_lookups_of_ancestors(ev: ProcessEvent, c: ProcessMonitorConfig, r: Option<(u32, u32)>)
    requires
        call_ensures(ancestor_request, (&ev, &c), r),
    ensures
        r is Some <==> ev is Created && c.parent_chain_depth != 0,
        r matches Some((pid, depth)) ==> pid == ev->Created_pid && depth == c.parent_chain_depth,
{
}

/// What is published of an event says what the event says.
pub proof fn law_published_processes(
    ev: ProcessEvent,
    c: ProcessMonitorConfig,
    found: Option<Vec<ProcessAncestor>>,
    r: Option<ProcessPayload>,
)
    requires
        ev.at().valid(),
        call_ensures(emit_event, (ev, &c, found), r),
    ensures
        r is None <==> ev is ImageLoaded && !c.image_load_events,
        ev is Created ==> r is Some && r->0 is Created && {
            let p = r->0->Created_0;
            &&& p.pid == ev->Created_pid
            &&& p.ppid == ev->ppid
            &&& p.name@ == ev->Created_name@
            &&& opt_view(p.exe_path) == opt_view(ev->exe_path)
            &&& views(p.cmdline@) == views(ev->cmdline@)
            &&& opt_view(p.user) == opt_view(ev->user)
            &&& p.started_at@ == crate::clock::rfc3339_text(
                ev->started_at.secs as int,
                ev->started_at.nanos as int,
            )
            &&& crate::process_module::wire_chain(p.parent_chain@) == if c.parent_chain_depth > 0
                && found is Some {
                crate::process_monitor::chain_view(found->0@)
            } else {
                Seq::empty()
            }
        },
        ev is Terminated ==> r is Some && r->0 is Terminated && {
            let p = r->0->Terminated_0;
            &&& p.pid == ev->Terminated_pid
            &&& p.name@ == ev->Terminated_name@
            &&& p.exit_code == ev->exit_code
        },
        r is Some && ev is ImageLoaded ==> r->0 is ImageLoaded && {
            let p = r->0->ImageLoaded_0;
            &&& p.pid == ev->ImageLoaded_pid
            &&& p.image_path@ == ev->image_path@
            &&& opt_view(p.image_hash) == opt_view(ev->image_hash)
        },
{
    let v = published_process(ev, c, found_chain(found));
    match r {
        Some(p) => {
            assert(v == Some(p@));
        },
        None => {},
    }
}

/// Only repeated reports are taken for one: two events with one identity are
/// of one kind, of one process and of one tenth of a second, and two loads are
/// of one image.
pub proof fn law_different_occurrences_differ(a: ProcessEvent, b: ProcessEvent)
    requires
        a.at().valid(),
        b.at().valid(),
        process_identity(a) == process_identity(b),
    ensures
        a is Created <==> b is Created,
        a is Terminated <==> b is Terminated,
        a.process() == b.process(),
        tenth(a.at()) == tenth(b.at()),
        a is ImageLoaded ==> vstd::utf8::encode_utf8(a->image_path@) == vstd::utf8::encode_utf8(
            b->image_path@,
        ),
{
    let p = process_identity(a);
    let q = process_identity(b);
    lemma_octets_len(a.process() as int, 4);
    lemma_octets_len(b.process() as int, 4);
    lemma_tenth_len(a.at());
    lemma_tenth_len(b.at());
    assert(p[0] == q[0]);
    assert(p[0] == if a is Created {
        0u8
    } else if a is Terminated {
        1u8
    } else {
        2u8
    });
    assert(q[0] == if b is Created {
        0u8
    } else if b is Terminated {
        1u8
    } else {
        2u8
    });
    assert(p.subrange(1, 5) =~= octets(a.process() as int, 4));
    assert(q.subrange(1, 5) =~= octets(b.process() as int, 4));
    lemma_process_octets(a.process(), b.process());
    let n = p.len() as int;
    assert(p.skip(n - 8) =~= tenth_octets(a.at()));
    assert(q.skip(n - 8) =~= tenth_octets(b.at()));
    lemma_tenths(a.at(), b.at());
    if a is ImageLoaded {
        assert(p.subrange(5, n - 9) =~= vstd::utf8::encode_utf8(a->image_path@));
        assert(q.subrange(5, n - 9) =~= vstd::utf8::encode_utf8(b->image_path@));
    }
}

proof fn lemma_tenth_len(t: Timestamp)
    ensures
        tenth_octets(t).len() == 8,
{
    let m = tenth(t);
    lemma_octets_len(m, 8);
    lemma_octets_len(m + 0x1_0000_0000_0000_0000, 8);
}

/// An event goes on exactly where its key is not among the last 1024 that
/// went on; the oldest key makes room for it.
pub proof fn law_window_of_processes(pre: ProcessPipeline, ev: ProcessEvent, post: ProcessPipeline, fresh: bool)
    requires
        process_step(pre, ev, post, fresh),
        pre.window().len() <= 1024,
    ensures
        fresh <==> !pre.window().contains(crate::process_module::process_key(ev)),
        !fresh ==> post.window() == pre.window(),
        fresh && pre.window().len() < 1024 ==> post.window() == pre.window().push(
            crate::process_module::process_key(ev),
        ),
        fresh && pre.window().len() == 1024 ==> post.window() == pre.window().skip(1).push(
            crate::process_module::process_key(ev),
        ),
        fresh ==> post.counters() == pre.counters(),
        !fresh && pre.counters().duplicates_dropped < u64::MAX ==> post.counters().duplicates_dropped
            == pre.counters().duplicates_dropped + 1,
{
    assert(pre.window().drop_first() =~= pre.window().skip(1));
}

/// A walk begins at the parent of the process, goes from parent to parent and
/// ends at process 0, at a process that cannot be read or is its own parent,
/// and after as many as were asked for.
pub proof fn law_walks_up(
    seed: &str,
    depth: u32,
    begun: AncestorWalk,
    next: Option<u32>,
    nowhere: AncestorWalk,
    w: &mut AncestorWalk,
    stat: &str,
    exe_path: Option<String>,
    v: &mut AncestorWalk,
    me: (nat, Seq<char>, nat),
    parent: (nat, Seq<char>, nat),
)
    requires
        call_ensures(AncestorWalk::begin, (Some(seed), depth), begun),
        call_ensures(AncestorWalk::next, (&begun,), next),
        call_ensures(AncestorWalk::begin, (None::<&str>, depth), nowhere),
        stat_entry(seed@) == Some(me),
        me.2 <= u32::MAX,
        old(w).at() != 0,
        old(w).depth_left() > 0,
        call_ensures(AncestorWalk::step, (w, Some(stat), exe_path), ()),
        stat_entry(stat@) == Some(parent),
        old(v).at() != 0,
        old(v).depth_left() > 0,
        call_ensures(AncestorWalk::step, (v, None::<&str>, exe_path), ()),
    ensures
        begun.so_far().len() == 0,
        me.2 > 0 && depth > 0 ==> next is Some && next->0 == me.2,
        me.2 == 0 || depth == 0 ==> next is None,
        nowhere.at() == 0,
        final(w).so_far().drop_last() == old(w).so_far(),
        final(w).so_far().last().pid == parent.0 && final(w).so_far().last().name == parent.1,
        final(w).so_far().last().exe_path == opt_view(exe_path),
        final(w).at() == if parent.2 == parent.0 {
            0
        } else {
            parent.2
        },
        final(w).depth_left() == old(w).depth_left() - 1,
        final(v).at() == 0 && final(v).so_far() == old(v).so_far(),
{
    assert(final(w).so_far().drop_last() =~= old(w).so_far());
}

/// The ancestors that are found in a directory are those of the chain of
/// parents there.
pub proof fn law_ancestors_in_a_directory(d: Vec<ProcEntry>, pid: u32, depth: u32, r: Vec<ProcessAncestor>)
    requires
        call_ensures(walk_ancestors, (&d, pid, depth), r),
    ensures
        r@.len() <= depth,
        crate::process_monitor::chain_view(r@) == ancestors(d@, pid as nat, depth as nat),
{
    crate::process_monitor::law_chain_is_bounded(d@, pid as nat, depth as nat);
    assert(crate::process_monitor::chain_view(r@).len() == r@.len());
}

/// A reading that failed changes nothing and is told as it is; one that went
/// well is what is known from then on.
pub proof fn law_pollers_of_processes(
    p: &mut ProcPoller,
    reading: Result<HashMap<u32, ProcSnapshot>, ProcessMonitorError>,
    r: Result<ProcChanges, ProcessMonitorError>,
    begun: ProcPoller,
)
    requires
        call_ensures(ProcPoller::observe, (p, reading), r),
        call_ensures(ProcPoller::start, (reading,), begun),
    ensures
        r is Ok <==> reading is Ok,
        reading is Ok ==> final(p).known() == reading->Ok_0@ && begun.known() == reading->Ok_0@,
        reading is Err ==> final(p).known() == old(p).known() && r->Err_0 == reading->Err_0,
        reading is Err ==> begun.known() == Map::<u32, ProcSnapshot>::empty(),
{
}

/// The command line that is read is handed out as it is.
pub proof fn law_command_lines(raw: &[u8], r: Vec<String>)
    requires
        call_ensures(parse_cmdline, (raw,), r),
    ensures
        r@.len() == arguments(raw@).len(),
        forall|i: int| 0 <= i < r@.len() ==> (#[trigger] r@[i])@ == arguments(raw@)[i],
{
    let v = views(r@);
    assert(v.len() == r@.len());
    assert forall|i: int| 0 <= i < r@.len() implies (#[trigger] r@[i])@ == arguments(raw@)[i] by {
        assert(v[i] == r@[i]@);
    }
}

/// Canned ancestors are handed out as they are, as many as were asked for.
pub proof fn law_canned_ancestors(
    m: MockProcessMonitor,
    pid: u32,
    depth: u32,
    r: Result<Vec<ProcessAncestor>, ProcessMonitorError>,
    i: int,
)
    requires
        call_ensures(MockProcessMonitor::lookup_ancestors, (&m, pid, depth), r),
    ensures
        r is Ok && r->Ok_0@.len() <= depth && r->Ok_0@.len() <= m.ancestry(pid).len(),
        r->Ok_0@.len() == depth || r->Ok_0@.len() == m.ancestry(pid).len(),
        0 <= i < r->Ok_0@.len() ==> r->Ok_0@[i] == m.ancestry(pid)[i],
{
}

/// The key of an event is the hash of its identity, and of nothing less.
pub proof fn law_process_keys_are_hashes(ev: ProcessEvent, r: u64)
    requires
        ev.at().valid(),
        call_ensures(crate::process_module::event_dedup_key, (&ev,), r),
    ensures
        r == DefaultHasher::spec_finish(seq![process_identity(ev)]),
        r == crate::process_module::process_key(ev),
{
}

/// A published end of a process, and a published load of an image, have the
/// time at which they happened.
pub proof fn law_times_of_processes(
    ev: ProcessEvent,
    c: ProcessMonitorConfig,
    found: Option<Vec<ProcessAncestor>>,
    r: Option<ProcessPayload>,
)
    requires
        ev.at().valid(),
        call_ensures(emit_event, (ev, &c, found), r),
        r is Some,
    ensures
        ev is Terminated ==> r->0->Terminated_0.ended_at@ == crate::clock::rfc3339_text(
            ev->ended_at.secs as int,
            ev->ended_at.nanos as int,
        ),
        ev is ImageLoaded ==> r->0->ImageLoaded_0.loaded_at@ == crate::clock::rfc3339_text(
            ev->loaded_at.secs as int,
            ev->loaded_at.nanos as int,
        ),
{
    assert(published_process(ev, c, found_chain(found)) == Some(r->0@));
}

/// Nor is one whose name does not open before it closes, or that tells no
/// parent behind the name.
pub proof fn law_what_tells_no_parent(s: Seq<char>, close: int)
    requires
        0 <= close < s.len(),
        s[close] == ')',
        forall|i: int| close < i < s.len() ==> #[trigger] s[i] != ')',
    ensures
        (forall|i: int| 0 <= i < close ==> #[trigger] s[i] != '(') ==> stat_entry(s) is None,
        words_of(s.skip(close + 1)).len() < 2 ==> stat_entry(s) is None,
{
    law_last_index_is_last(s, ')');
    assert(s.contains(')'));
    let i = last_index(s, ')', s.len() as int)->0;
    if i < close {
        assert(s.skip(i + 1)[close - i - 1] == ')');
    }
    if i > close {
        assert(s[i] == ')');
    }
    lemma_scan(s, just('('), 0);
    let e = scan(s, just('('), 0);
    if e < close {
        assert(just('(')(s[e]));
    }
}

/// A line without a number behind its label tells no user, and neither does
/// a line without the label.
pub proof fn law_lines_that_tell_no_user(line: Seq<char>)
    ensures
        !"Uid:"@.is_prefix_of(line) ==> uid_line(line) is None,
        "Uid:"@.is_prefix_of(line) && words_of(line.skip("Uid:"@.len() as int)).len() == 0
            ==> uid_line(line) is None,
{
}

/// An ancestor goes into a payload as it was found.
pub proof fn law_ancestors_in_payloads(a: ProcessAncestor, r: WireAncestor)
    requires
        call_ensures(<WireAncestor as From<ProcessAncestor>>::from, (a,), r),
    ensures
        r.pid == a.pid && r.name@ == a.name@ && r.exe_path == a.exe_path,
{
}

} // verus!
