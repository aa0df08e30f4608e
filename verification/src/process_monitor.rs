//! Process telemetry: what the process directory says of processes, the
//! changes between two readings of it, and the chains of their ancestors.

use crate::clock::Timestamp;
use crate::text::{
    chars_of, gather, just, last_index, lemma_gather_step, lemma_views_push, lines, lines_of,
    lossy_text, lossy_utf8, number, octet_pieces, octet_pieces_of, octet_views, opt_view,
    parse_number, rfind_char, scan, scan_char, starts_with, string_of, texts, views, words,
    words_of,
};
use crate::stream::EventStream;
use std::collections::HashMap;
use vstd::prelude::*;
use vstd::slice::slice_subrange;
use vstd::string::*;

verus! {

/// What can go wrong in a process monitor.
#[derive(Debug, PartialEq, Eq)]
pub enum ProcessMonitorError {
    Io(String),
    Unsupported(String),
    AlreadySubscribed,
    Command(String),
}

impl ProcessMonitorError {
    /// The text that describes the error.
    pub open spec fn text(self) -> Seq<char> {
        match self {
            ProcessMonitorError::Io(e) => "process monitor IO error: "@ + e@,
            ProcessMonitorError::Unsupported(e) => "process monitor unsupported: "@ + e@,
            ProcessMonitorError::AlreadySubscribed => "process monitor already subscribed"@,
            ProcessMonitorError::Command(e) => "process monitor command failed: "@ + e@,
        }
    }

    /// Describes the error.
    pub fn message(&self) -> (r: String)
        ensures
            r@ == self.text(),
    {
        match self {
            ProcessMonitorError::Io(e) => "process monitor IO error: ".to_owned().concat(e.as_str()),
            ProcessMonitorError::Unsupported(e) => "process monitor unsupported: ".to_owned().concat(
                e.as_str(),
            ),
            ProcessMonitorError::AlreadySubscribed => "process monitor already subscribed".to_owned(),
            ProcessMonitorError::Command(e) => "process monitor command failed: ".to_owned().concat(
                e.as_str(),
            ),
        }
    }
}

/// Options of a subscription.
#[derive(Debug, Clone, Copy, PartialEq, Eq, Structural)]
pub struct ProcessMonitorOpts {
    /// Report the loading of images.
    pub image_load_events: bool,
    /// Room in the event channel.
    pub channel_buffer: usize,
    /// Time between two readings, in milliseconds.
    pub poll_interval_ms: u64,
}

impl Default for ProcessMonitorOpts {
    fn default() -> (r: Self)
        ensures
            r == (ProcessMonitorOpts {
                image_load_events: true,
                channel_buffer: 4096,
                poll_interval_ms: 500,
            }),
    {
        ProcessMonitorOpts { image_load_events: true, channel_buffer: 4096, poll_interval_ms: 500 }
    }
}

impl ProcessMonitorOpts {
    /// Time between two readings, in milliseconds: never below 50.
    pub fn effective_poll_ms(&self) -> (r: u64)
        ensures
            r == if self.poll_interval_ms < 50 {
                50
            } else {
                self.poll_interval_ms
            },
    {
        if self.poll_interval_ms < 50 {
            50
        } else {
            self.poll_interval_ms
        }
    }
}

/// Events on their way from a monitor to its subscriber.
pub type ProcessEventStream = EventStream<ProcessEvent>;

/// One process telemetry event.
#[derive(Debug, Clone, PartialEq, Eq)]
pub enum ProcessEvent {
    /// A process was started.
    Created {
        pid: u32,
        ppid: u32,
        name: String,
        exe_path: Option<String>,
        cmdline: Vec<String>,
        user: Option<String>,
        started_at: Timestamp,
    },
    /// A process has ended.
    Terminated { pid: u32, name: String, exit_code: Option<i32>, ended_at: Timestamp },
    /// An image was loaded into a process.
    ImageLoaded {
        pid: u32,
        image_path: String,
        image_hash: Option<String>,
        loaded_at: Timestamp,
    },
}

impl ProcessEvent {
    /// The process that the event is about.
    pub open spec fn process(self) -> u32 {
        match self {
            ProcessEvent::Created { pid, .. } => pid,
            ProcessEvent::Terminated { pid, .. } => pid,
            ProcessEvent::ImageLoaded { pid, .. } => pid,
        }
    }

    /// When the event happened.
    pub open spec fn at(self) -> Timestamp {
        match self {
            ProcessEvent::Created { started_at, .. } => started_at,
            ProcessEvent::Terminated { ended_at, .. } => ended_at,
            ProcessEvent::ImageLoaded { loaded_at, .. } => loaded_at,
        }
    }

    /// The process that the event is about.
    pub fn pid(&self) -> (r: u32)
        ensures
            r == self.process(),
    {
        match self {
            ProcessEvent::Created { pid, .. } => *pid,
            ProcessEvent::Terminated { pid, .. } => *pid,
            ProcessEvent::ImageLoaded { pid, .. } => *pid,
        }
    }
}

/// An ancestor of a process.
#[derive(Debug, PartialEq, Eq)]
pub struct ProcessAncestor {
    pub pid: u32,
    pub name: String,
    pub exe_path: Option<String>,
}

impl Clone for ProcessAncestor {
    fn clone(&self) -> (r: Self)
        ensures
            r == *self,
    {
        ProcessAncestor { pid: self.pid, name: self.name.clone(), exe_path: self.exe_path.clone() }
    }
}

// ---------------------------------------------------------------------
// The process directory
// ---------------------------------------------------------------------

/// What a `stat` file says: the process number before the first blank, the
/// name between the first opening and the last closing bracket, and the
/// number of the parent in the second field after that.
pub open spec fn stat_entry(s: Seq<char>) -> Option<(nat, Seq<char>, nat)> {
    let blank = scan(s, just(' '), 0);
    let open = scan(s, just('('), 0);
    if blank >= s.len() || open >= s.len() {
        None
    } else {
        match (number(s.take(blank), 10, u32::MAX as nat), last_index(s, ')', s.len() as int)) {
            (Some(pid), Some(close)) => {
                let f = words_of(s.skip(close + 1));
                if close <= open || f.len() < 2 {
                    None
                } else {
                    match number(f[1], 10, u32::MAX as nat) {
                        Some(ppid) => Some((pid, s.subrange(open + 1, close), ppid)),
                        None => None,
                    }
                }
            },
            _ => None,
        }
    }
}

/// Reads a `stat` file.
pub fn parse_stat(stat_content: &str) -> (r: Option<(u32, String, u32)>)
    ensures
        match r {
            Some((pid, name, ppid)) => stat_entry(stat_content@) == Some(
                (pid as nat, name@, ppid as nat),
            ),
            None => stat_entry(stat_content@) is None,
        },
{
    let v = chars_of(stat_content);
    let s = v.as_slice();
    let blank = scan_char(s, ' ', 0);
    if blank == s.len() {
        return None;
    }
    assert(s@.take(blank as int) =~= s@.subrange(0, blank as int));
    let open = scan_char(s, '(', 0);
    if open == s.len() {
        return None;
    }
    let pid = match parse_number(slice_subrange(s, 0, blank), 10, u32::MAX as u64) {
        Some(p) => p,
        None => {
            return None;
        },
    };
    let close = match rfind_char(s, ')') {
        Some(c) => c,
        None => {
            return None;
        },
    };
    if close <= open {
        return None;
    }
    let rest = slice_subrange(s, close + 1, s.len());
    assert(s@.skip(close + 1) =~= rest@);
    let f = words(rest);
    assert(texts(f@).len() == f@.len());
    if f.len() < 2 {
        return None;
    }
    assert(texts(f@)[1] == f@[1]@);
    match parse_number(f[1], 10, u32::MAX as u64) {
        Some(ppid) => Some(
            (pid as u32, string_of(slice_subrange(s, open + 1, close)), ppid as u32),
        ),
        None => None,
    }
}

/// A process as it was found.
#[derive(Debug, PartialEq, Eq)]
pub struct ProcSnapshot {
    pub ppid: u32,
    pub name: String,
    pub exe_path: Option<String>,
    pub cmdline: Vec<String>,
    pub user: Option<String>,
}

/// The text of an argument that is not empty.
pub open spec fn argument(piece: Seq<u8>) -> Option<Seq<char>> {
    if piece.len() == 0 {
        None
    } else {
        Some(lossy_utf8(piece))
    }
}

/// Reads an argument, for use with `gather`.
pub open spec fn argument_reader() -> spec_fn(Seq<u8>) -> Option<Seq<char>> {
    |piece: Seq<u8>| argument(piece)
}

/// The arguments of a command line that has a zero after each.
pub open spec fn arguments(raw: Seq<u8>) -> Seq<Seq<char>> {
    gather(octet_pieces_of(raw, 0), argument_reader())
}

/// Splits a command line at its zeros.
pub fn parse_cmdline(raw: &[u8]) -> (r: Vec<String>)
    ensures
        views(r@) == arguments(raw@),
{
    let all = octet_pieces(raw, 0);
    let ghost want = octet_views(all@);
    let ghost reader = argument_reader();
    let mut out: Vec<String> = Vec::new();
    let mut i: usize = 0;
    assert(want.take(0) =~= Seq::empty());
    assert(views(out@) =~= gather(want.take(0), reader));
    while i < all.len()
        invariant
            i <= all@.len(),
            want == octet_views(all@),
            reader == argument_reader(),
            views(out@) == gather(want.take(i as int), reader),
        decreases all@.len() - i,
    {
        let ghost before = out@;
        proof {
            lemma_gather_step(want, reader, i as int);
            assert(want[i as int] == all@[i as int]@);
        }
        if all[i].len() > 0 {
            let s = lossy_text(all[i]);
            out.push(s);
            proof {
                lemma_views_push(before, s);
            }
        }
        i += 1;
    }
    assert(want.take(i as int) =~= want);
    out
}

/// The user that a line of a `status` file names.
pub open spec fn uid_line(line: Seq<char>) -> Option<Seq<char>> {
    if "Uid:"@.is_prefix_of(line) {
        let w = words_of(line.skip("Uid:"@.len() as int));
        if w.len() > 0 {
            Some(w[0])
        } else {
            None
        }
    } else {
        None
    }
}

/// The user that the first line from the `i`-th on names which names one.
pub open spec fn uid_from(l: Seq<Seq<char>>, i: int) -> Option<Seq<char>>
    decreases l.len() - i,
{
    if i < 0 || i >= l.len() {
        None
    } else {
        match uid_line(l[i]) {
            Some(u) => Some(u),
            None => uid_from(l, i + 1),
        }
    }
}

/// Finds the user in a `status` file.
pub fn parse_status_uid(status: &str) -> (r: Option<String>)
    ensures
        opt_view(r) == uid_from(lines_of(status@), 0),
{
    let chars = chars_of(status);
    let all = lines(chars.as_slice());
    let ghost l = texts(all@);
    let mut i: usize = 0;
    proof {
        reveal_strlit("Uid:");
    }
    while i < all.len()
        invariant
            i <= all@.len(),
            l == texts(all@),
            l == lines_of(status@),
            uid_from(l, 0) == uid_from(l, i as int),
            "Uid:"@.len() == 4,
        decreases all@.len() - i,
    {
        let line = all[i];
        assert(l[i as int] == line@);
        if starts_with(line, "Uid:") {
            let rest = slice_subrange(line, 4, line.len());
            assert(line@.skip(4) =~= rest@);
            let w = words(rest);
            assert(texts(w@).len() == w@.len());
            if w.len() > 0 {
                assert(texts(w@)[0] == w@[0]@);
                return Some(string_of(w[0]));
            }
        }
        i += 1;
    }
    None
}

/// The process that an entry of the process directory stands for: one whose
/// name is a process number.
pub fn process_number(file_name: &str) -> (r: Option<u32>)
    ensures
        match r {
            Some(pid) => number(file_name@, 10, u32::MAX as nat) == Some(pid as nat),
            None => number(file_name@, 10, u32::MAX as nat) is None,
        },
{
    let f = chars_of(file_name);
    match parse_number(f.as_slice(), 10, u32::MAX as u64) {
        Some(pid) => Some(pid as u32),
        None => None,
    }
}

/// Puts together what the files of a process say. Without a readable `stat`
/// file there is nothing to say of it.
pub fn read_snapshot(
    stat: Option<&str>,
    exe_path: Option<String>,
    cmdline: Option<&[u8]>,
    status: Option<&str>,
) -> (r: Option<ProcSnapshot>)
    ensures
        match r {
            Some(p) => {
                &&& stat is Some
                &&& stat_entry(stat->0@) matches Some((_, name, ppid)) && p.ppid == ppid
                    && p.name@ == name
                &&& p.exe_path == exe_path
                &&& views(p.cmdline@) == (match cmdline {
                    Some(c) => arguments(c@),
                    None => Seq::empty(),
                })
                &&& opt_view(p.user) == (match status {
                    Some(s) => uid_from(lines_of(s@), 0),
                    None => None,
                })
            },
            None => stat is None || stat_entry(stat->0@) is None,
        },
{
    match stat {
        None => None,
        Some(t) => match parse_stat(t) {
            None => None,
            Some((_, name, ppid)) => {
                let cmdline = match cmdline {
                    Some(c) => parse_cmdline(c),
                    None => {
                        let none: Vec<String> = Vec::new();
                        assert(views(none@) =~= Seq::empty());
                        none
                    },
                };
                let user = match status {
                    Some(s) => parse_status_uid(s),
                    None => None,
                };
                Some(ProcSnapshot { ppid, name, exe_path, cmdline, user })
            },
        },
    }
}

// ---------------------------------------------------------------------
// Changes between two readings
// ---------------------------------------------------------------------

/// What has changed between two readings.
#[derive(Debug)]
pub struct ProcChanges {
    /// The new processes.
    pub started: Vec<u32>,
    /// Number and name of the processes that are gone.
    pub ended: Vec<(u32, String)>,
}

/// The numbers in a list of processes that are gone.
pub open spec fn numbers_of(v: Seq<(u32, String)>) -> Seq<u32> {
    v.map_values(|p: (u32, String)| p.0)
}

impl ProcChanges {
    /// Whether these are the changes from one reading to the other: each
    /// process that only the later one has is new, and each that only the
    /// earlier one has is gone, under the name it had; each is told once. A
    /// reading has no order, so neither have the changes.
    pub open spec fn between(
        self,
        last: Map<u32, ProcSnapshot>,
        current: Map<u32, ProcSnapshot>,
    ) -> bool {
        &&& self.started@.no_duplicates()
        &&& forall|p: u32| #[trigger]
            self.started@.contains(p) <==> current.contains_key(p) && !last.contains_key(p)
        &&& numbers_of(self.ended@).no_duplicates()
        &&& forall|p: u32| #[trigger]
            numbers_of(self.ended@).contains(p) <==> last.contains_key(p)
                && !current.contains_key(p)
        &&& forall|i: int|
            0 <= i < self.ended@.len() ==> (#[trigger] self.ended@[i]).1@
                == last[self.ended@[i].0].name@
    }
}

/// The processes of one reading that the other does not have.
fn missing_from(
    here: &HashMap<u32, ProcSnapshot>,
    there: &HashMap<u32, ProcSnapshot>,
) -> (r: Vec<u32>)
    ensures
        r@.no_duplicates(),
        forall|p: u32| #[trigger]
            r@.contains(p) <==> here@.contains_key(p) && !there@.contains_key(p),
{
    let mut out: Vec<u32> = Vec::new();
    let ghost mut met: Seq<u32> = Seq::empty();
    for pid in it: here.keys()
        invariant
            it.seq().unref().to_set() == here@.dom(),
            it.seq().no_duplicates(),
            met == it.seq().take(it.index() as int).unref(),
            it.index() == it.seq().len() ==> met == it.seq().unref(),
            out@.no_duplicates(),
            forall|p: u32| #[trigger]
                out@.contains(p) <==> met.contains(p) && !there@.contains_key(p),
    {
        let ghost before = met;
        let ghost kept = out@;
        let ghost at = it.index() as int;
        proof {
            assert(!before.contains(*pid)) by {
                if before.contains(*pid) {
                    let k = choose|k: int| 0 <= k < before.len() && before[k] == *pid;
                    assert(it.seq()[k] == it.seq()[at]);
                }
            }
            assert(!kept.contains(*pid));
        }
        if !there.contains_key(pid) {
            out.push(*pid);
        }
        proof {
            met = before.push(*pid);
            assert(met =~= it.seq().take(at + 1).unref());
            assert forall|p: u32| #[trigger] out@.contains(p) <==> met.contains(p)
                && !there@.contains_key(p) by {
                lemma_contains_push(before, *pid, p);
                lemma_contains_push(kept, *pid, p);
            }
        }
    }
    assert(met.to_set() =~= here@.dom());
    assert forall|p: u32| #[trigger] out@.contains(p) <==> here@.contains_key(p)
        && !there@.contains_key(p) by {
        assert(met.contains(p) == met.to_set().contains(p));
    }
    out
}

proof fn lemma_contains_push(s: Seq<u32>, x: u32, y: u32)
    ensures
        s.push(x).contains(y) <==> s.contains(y) || x == y,
{
    if s.contains(y) {
        let i = choose|i: int| 0 <= i < s.len() && s[i] == y;
        assert(s.push(x)[i] == y);
    }
    if x == y {
        assert(s.push(x)[s.len() as int] == y);
    }
}

/// Tells what has changed between two readings of the process directory.
pub fn process_changes(
    last: &HashMap<u32, ProcSnapshot>,
    current: &HashMap<u32, ProcSnapshot>,
) -> (r: ProcChanges)
    ensures
        r.between(last@, current@),
{
    let started = missing_from(current, last);
    let gone = missing_from(last, current);
    let mut ended: Vec<(u32, String)> = Vec::new();
    let mut i: usize = 0;
    while i < gone.len()
        invariant
            i <= gone@.len(),
            ended@.len() == i,
            forall|k: int| 0 <= k < i ==> (#[trigger] ended@[k]).0 == gone@[k],
            forall|k: int| 0 <= k < i ==> (#[trigger] ended@[k]).1@ == last@[ended@[k].0].name@,
            forall|p: u32| #[trigger]
                gone@.contains(p) <==> last@.contains_key(p) && !current@.contains_key(p),
        decreases gone@.len() - i,
    {
        let pid: u32 = gone[i];
        assert(gone@.contains(pid));
        match last.get(&pid) {
            Some(p) => {
                ended.push((pid, p.name.clone()));
            },
            None => {
                assert(false);
            },
        }
        i += 1;
    }
    assert(numbers_of(ended@) =~= gone@);
    ProcChanges { started, ended }
}

/// Follows the readings of the process directory.
#[derive(Debug)]
pub struct ProcPoller {
    last: HashMap<u32, ProcSnapshot>,
}

impl ProcPoller {
    /// The last reading that went well.
    pub closed spec fn known(&self) -> Map<u32, ProcSnapshot> {
        self.last@
    }

    /// Starts from a first reading; where that failed, nothing is known.
    pub fn start(initial: Result<HashMap<u32, ProcSnapshot>, ProcessMonitorError>) -> (r: ProcPoller)
        ensures
            r.known() == (match initial {
                Ok(m) => m@,
                Err(_) => Map::empty(),
            }),
    {
        match initial {
            Ok(last) => ProcPoller { last },
            Err(_) => ProcPoller { last: HashMap::new() },
        }
    }

    /// The last reading that went well.
    pub fn processes(&self) -> (r: &HashMap<u32, ProcSnapshot>)
        ensures
            r@ == self.known(),
    {
        &self.last
    }

    /// Takes a new reading and tells what has changed since the last. One
    /// that failed changes nothing.
    pub fn observe(
        &mut self,
        reading: Result<HashMap<u32, ProcSnapshot>, ProcessMonitorError>,
    ) -> (r: Result<ProcChanges, ProcessMonitorError>)
        ensures
            match reading {
                Ok(current) => {
                    &&& r is Ok
                    &&& r->Ok_0.between(old(self).known(), current@)
                    &&& final(self).known() == current@
                },
                Err(e) => r == Err::<ProcChanges, ProcessMonitorError>(e) && *final(self) == *old(
                    self,
                ),
            },
    {
        match reading {
            Ok(current) => {
                let changes = process_changes(&self.last, &current);
                self.last = current;
                Ok(changes)
            },
            Err(e) => Err(e),
        }
    }
}

/// A reading that shows the same processes as the one before reports
/// nothing.
pub proof fn law_unchanged_processes_are_quiet(
    changes: ProcChanges,
    last: Map<u32, ProcSnapshot>,
    current: Map<u32, ProcSnapshot>,
)
    requires
        changes.between(last, current),
        last.dom() == current.dom(),
    ensures
        changes.started@.len() == 0,
        changes.ended@.len() == 0,
{
    if changes.started@.len() > 0 {
        assert(changes.started@.contains(changes.started@[0]));
    }
    if changes.ended@.len() > 0 {
        let p = numbers_of(changes.ended@)[0];
        assert(numbers_of(changes.ended@).contains(p));
    }
}

/// Two readings have the same changes whichever way they were walked, but for
/// their order.
pub proof fn law_changes_differ_in_order_only(
    a: ProcChanges,
    b: ProcChanges,
    last: Map<u32, ProcSnapshot>,
    current: Map<u32, ProcSnapshot>,
)
    requires
        a.between(last, current),
        b.between(last, current),
    ensures
        a.started@.to_set() == b.started@.to_set(),
        numbers_of(a.ended@).to_set() == numbers_of(b.ended@).to_set(),
        forall|i: int, j: int|
            0 <= i < a.ended@.len() && 0 <= j < b.ended@.len() && #[trigger] a.ended@[i].0
                == #[trigger] b.ended@[j].0 ==> a.ended@[i].1@ == b.ended@[j].1@,
{
    assert forall|p: u32| a.started@.contains(p) == b.started@.contains(p) by {
        assert(a.started@.contains(p) <==> current.contains_key(p) && !last.contains_key(p));
        assert(b.started@.contains(p) <==> current.contains_key(p) && !last.contains_key(p));
    }
    assert(a.started@.to_set() =~= b.started@.to_set());
    assert forall|p: u32|
        numbers_of(a.ended@).contains(p) == numbers_of(b.ended@).contains(p) by {
        assert(numbers_of(a.ended@).contains(p) <==> last.contains_key(p) && !current.contains_key(p));
        assert(numbers_of(b.ended@).contains(p) <==> last.contains_key(p) && !current.contains_key(p));
    }
    assert(numbers_of(a.ended@).to_set() =~= numbers_of(b.ended@).to_set());
}

/// Reports a process that was not there before.
pub fn created_event(pid: u32, snap: &ProcSnapshot, now: Timestamp) -> (r: ProcessEvent)
    ensures
        r is Created,
        r.process() == pid,
        r.at() == now,
        r->ppid == snap.ppid,
        r->Created_name == snap.name,
        r->exe_path == snap.exe_path,
        views(r->cmdline@) == views(snap.cmdline@),
        r->user == snap.user,
{
    let cmdline = snap.cmdline.clone();
    assert(views(cmdline@) =~= views(snap.cmdline@));
    ProcessEvent::Created {
        pid,
        ppid: snap.ppid,
        name: snap.name.clone(),
        exe_path: snap.exe_path.clone(),
        cmdline,
        user: snap.user.clone(),
        started_at: now,
    }
}

/// Reports a process that is gone. Its exit code is not known.
pub fn terminated_event(pid: u32, name: String, now: Timestamp) -> (r: ProcessEvent)
    ensures
        r == (ProcessEvent::Terminated { pid, name, exit_code: None, ended_at: now }),
{
    ProcessEvent::Terminated { pid, name, exit_code: None, ended_at: now }
}

// ---------------------------------------------------------------------
// Ancestors
// ---------------------------------------------------------------------

/// What the files of a process say that stands in the process directory.
#[derive(Debug)]
pub struct ProcEntry {
    pub pid: u32,
    pub stat: String,
    pub exe_path: Option<String>,
}

/// The contents of an ancestor.
#[verifier::ext_equal]
pub struct AncestorView {
    pub pid: nat,
    pub name: Seq<char>,
    pub exe_path: Option<Seq<char>>,
}

impl View for ProcessAncestor {
    type V = AncestorView;

    open spec fn view(&self) -> AncestorView {
        AncestorView { pid: self.pid as nat, name: self.name@, exe_path: opt_view(self.exe_path) }
    }
}

/// The contents of a chain of ancestors.
pub open spec fn chain_view(v: Seq<ProcessAncestor>) -> Seq<AncestorView> {
    v.map_values(|a: ProcessAncestor| a@)
}

/// Index of the first entry of process `pid` from the `i`-th on.
pub open spec fn entry_from(d: Seq<ProcEntry>, pid: nat, i: int) -> Option<int>
    decreases d.len() - i,
{
    if i < 0 || i >= d.len() {
        None
    } else if d[i].pid == pid {
        Some(i)
    } else {
        entry_from(d, pid, i + 1)
    }
}

/// At most `depth` processes of the chain that begins with process `pid`:
/// each is followed by its parent. The chain ends at process 0, at a process
/// that is not in the directory or cannot be read, and at one that is its
/// own parent.
pub open spec fn chain(d: Seq<ProcEntry>, pid: nat, depth: nat) -> Seq<AncestorView>
    decreases depth,
{
    if depth == 0 || pid == 0 {
        Seq::empty()
    } else {
        match entry_from(d, pid, 0) {
            None => Seq::empty(),
            Some(i) => match stat_entry(d[i].stat@) {
                None => Seq::empty(),
                Some((this, name, ppid)) => {
                    let here = seq![
                        AncestorView { pid: this, name, exe_path: opt_view(d[i].exe_path) },
                    ];
                    if ppid == this {
                        here
                    } else {
                        here + chain(d, ppid, (depth - 1) as nat)
                    }
                },
            },
        }
    }
}

/// The ancestors of process `pid`, at most `depth` of them. The process
/// itself is not one of them.
pub open spec fn ancestors(d: Seq<ProcEntry>, pid: nat, depth: nat) -> Seq<AncestorView> {
    match entry_from(d, pid, 0) {
        None => Seq::empty(),
        Some(i) => match stat_entry(d[i].stat@) {
            None => Seq::empty(),
            Some((_, _, ppid)) => chain(d, ppid, depth),
        },
    }
}

/// A walk up a chain of ancestors.
#[derive(Debug)]
pub struct AncestorWalk {
    current: u32,
    left: u32,
    found: Vec<ProcessAncestor>,
}

impl AncestorWalk {
    /// The process to look at next; 0 at the end.
    pub closed spec fn at(&self) -> u32 {
        self.current
    }

    /// How many more may be looked at.
    pub closed spec fn depth_left(&self) -> u32 {
        self.left
    }

    /// The chain so far.
    pub closed spec fn so_far(&self) -> Seq<AncestorView> {
        chain_view(self.found@)
    }

    /// Begins at the parent that the `stat` file of the first process names;
    /// without a readable file there is nowhere to go.
    pub fn begin(seed: Option<&str>, max_depth: u32) -> (r: AncestorWalk)
        ensures
            r.so_far() == Seq::<AncestorView>::empty(),
            r.depth_left() == max_depth,
            r.at() == (match seed {
                None => 0,
                Some(s) => match stat_entry(s@) {
                    None => 0,
                    Some((_, _, ppid)) => ppid,
                },
            }),
    {
        let current: u32 = match seed {
            None => 0,
            Some(s) => match parse_stat(s) {
                None => 0,
                Some((_, _, ppid)) => ppid,
            },
        };
        let found: Vec<ProcessAncestor> = Vec::new();
        assert(chain_view(found@) =~= Seq::empty());
        AncestorWalk { current, left: max_depth, found }
    }

    /// The process to look at next, while the walk goes on.
    pub fn next(&self) -> (r: Option<u32>)
        ensures
            r == if self.at() == 0 || self.depth_left() == 0 {
                None
            } else {
                Some(self.at())
            },
    {
        if self.current == 0 || self.left == 0 {
            None
        } else {
            Some(self.current)
        }
    }

    /// Takes what the files of that process say.
    pub fn step(&mut self, stat: Option<&str>, exe_path: Option<String>)
        requires
            old(self).at() != 0,
            old(self).depth_left() > 0,
        ensures
            final(self).depth_left() == old(self).depth_left() - 1,
            match stat {
                None => final(self).at() == 0 && final(self).so_far() == old(self).so_far(),
                Some(s) => match stat_entry(s@) {
                    None => final(self).at() == 0 && final(self).so_far() == old(self).so_far(),
                    Some((this, name, ppid)) => {
                        &&& final(self).so_far() == old(self).so_far().push(
                            AncestorView { pid: this, name, exe_path: opt_view(exe_path) },
                        )
                        &&& final(self).at() == if ppid == this {
                            0
                        } else {
                            ppid
                        }
                    },
                },
            },
    {
        self.left = self.left - 1;
        match stat {
            None => {
                self.current = 0;
            },
            Some(s) => match parse_stat(s) {
                None => {
                    self.current = 0;
                },
                Some((this, name, ppid)) => {
                    let ghost before = self.found@;
                    let a = ProcessAncestor { pid: this, name, exe_path };
                    self.found.push(a);
                    assert(chain_view(self.found@) =~= chain_view(before).push(a@));
                    if ppid == this {
                        self.current = 0;
                    } else {
                        self.current = ppid;
                    }
                },
            },
        }
    }

    /// The chain.
    pub fn finish(self) -> (r: Vec<ProcessAncestor>)
        ensures
            chain_view(r@) == self.so_far(),
    {
        self.found
    }
}

fn find_entry(d: &Vec<ProcEntry>, pid: u32) -> (r: Option<usize>)
    ensures
        match r {
            Some(i) => entry_from(d@, pid as nat, 0) == Some(i as int) && i < d@.len(),
            None => entry_from(d@, pid as nat, 0) is None,
        },
{
    let mut i: usize = 0;
    while i < d.len()
        invariant
            i <= d@.len(),
            entry_from(d@, pid as nat, 0) == entry_from(d@, pid as nat, i as int),
        decreases d@.len() - i,
    {
        if d[i].pid == pid {
            return Some(i);
        }
        i += 1;
    }
    None
}

/// The ancestors of process `pid` in a process directory, at most
/// `max_depth` of them.
pub fn walk_ancestors(d: &Vec<ProcEntry>, pid: u32, max_depth: u32) -> (r: Vec<ProcessAncestor>)
    ensures
        chain_view(r@) == ancestors(d@, pid as nat, max_depth as nat),
{
    let seed = match find_entry(d, pid) {
        Some(i) => Some(d[i].stat.as_str()),
        None => None,
    };
    let mut walk = AncestorWalk::begin(seed, max_depth);
    let ghost goal = ancestors(d@, pid as nat, max_depth as nat);
    assert(walk.so_far() + chain(d@, walk.at() as nat, walk.depth_left() as nat) =~= goal);
    loop
        invariant
            walk.so_far() + chain(d@, walk.at() as nat, walk.depth_left() as nat) == goal,
            goal == ancestors(d@, pid as nat, max_depth as nat),
        decreases walk.depth_left(),
    {
        match walk.next() {
            None => {
                assert(walk.so_far() + chain(d@, walk.at() as nat, walk.depth_left() as nat)
                    =~= walk.so_far());
                return walk.finish();
            },
            Some(p) => {
                let ghost before = walk;
                let ghost rest = chain(d@, walk.at() as nat, walk.depth_left() as nat);
                match find_entry(d, p) {
                    Some(i) => {
                        walk.step(Some(d[i].stat.as_str()), d[i].exe_path.clone());
                    },
                    None => {
                        walk.step(None, None);
                    },
                }
                assert(walk.so_far() + chain(d@, walk.at() as nat, walk.depth_left() as nat)
                    =~= before.so_far() + rest);
            },
        }
    }
}

/// A chain of ancestors is never longer than was asked for.
pub proof fn law_chain_is_bounded(d: Seq<ProcEntry>, pid: nat, depth: nat)
    ensures
        ancestors(d, pid, depth).len() <= depth,
{
    match entry_from(d, pid, 0) {
        None => {},
        Some(i) => match stat_entry(d[i].stat@) {
            None => {},
            Some((_, _, ppid)) => {
                lemma_chain_len(d, ppid, depth);
            },
        },
    }
}

proof fn lemma_chain_len(d: Seq<ProcEntry>, pid: nat, depth: nat)
    ensures
        chain(d, pid, depth).len() <= depth,
    decreases depth,
{
    if depth > 0 && pid != 0 {
        match entry_from(d, pid, 0) {
            None => {},
            Some(i) => match stat_entry(d[i].stat@) {
                None => {},
                Some((_, _, ppid)) => {
                    lemma_chain_len(d, ppid, (depth - 1) as nat);
                },
            },
        }
    }
}

// ---------------------------------------------------------------------
// Providers
// ---------------------------------------------------------------------

/// Monitor that reads the process directory of a Linux host.
#[derive(Debug)]
pub struct LinuxProcessMonitor {
    proc_root: String,
}

impl LinuxProcessMonitor {
    /// The process directory.
    pub closed spec fn root(&self) -> Seq<char> {
        self.proc_root@
    }

    /// A monitor of this host.
    pub fn new() -> (r: LinuxProcessMonitor)
        ensures
            r.root() == "/proc"@,
    {
        LinuxProcessMonitor { proc_root: "/proc".to_owned() }
    }

    /// A monitor of the directory `proc_root`.
    pub fn with_proc_root(proc_root: String) -> (r: LinuxProcessMonitor)
        ensures
            r.root() == proc_root@,
    {
        LinuxProcessMonitor { proc_root }
    }

    /// The process directory.
    pub fn proc_root(&self) -> (r: &str)
        ensures
            r@ == self.root(),
    {
        self.proc_root.as_str()
    }
}

impl Default for LinuxProcessMonitor {
    fn default() -> (r: Self)
        ensures
            r.root() == "/proc"@,
    {
        LinuxProcessMonitor::new()
    }
}

/// Placeholder for the monitor of Windows hosts.
#[derive(Debug)]
pub struct WindowsProcessMonitor {}

impl WindowsProcessMonitor {
    pub fn new() -> (r: WindowsProcessMonitor)
        ensures
            r == (WindowsProcessMonitor {  }),
    {
        WindowsProcessMonitor {  }
    }

    /// No events can be had on this build.
    pub fn subscribe(&self, opts: &ProcessMonitorOpts) -> (r: Result<(), ProcessMonitorError>)
        ensures
            r is Err,
            r->Err_0 is Unsupported,
            r->Err_0->Unsupported_0@
                == "ETW Microsoft-Windows-Kernel-Process provider not wired (needs SYSTEM)"@,
    {
        Err(
            ProcessMonitorError::Unsupported(
                "ETW Microsoft-Windows-Kernel-Process provider not wired (needs SYSTEM)".to_owned(),
            ),
        )
    }

    /// No ancestors can be had on this build.
    pub fn lookup_ancestors(&self, pid: u32, max_depth: u32) -> (r: Result<
        Vec<ProcessAncestor>,
        ProcessMonitorError,
    >)
        ensures
            r is Err,
            r->Err_0 is Unsupported,
            r->Err_0->Unsupported_0@ == "Windows toolhelp32 ancestry not wired"@,
    {
        Err(
            ProcessMonitorError::Unsupported("Windows toolhelp32 ancestry not wired".to_owned()),
        )
    }
}

impl Default for WindowsProcessMonitor {
    fn default() -> (r: Self)
        ensures
            r == (WindowsProcessMonitor {  }),
    {
        WindowsProcessMonitor::new()
    }
}

/// Placeholder for the monitor of macOS hosts.
#[derive(Debug)]
pub struct MacosProcessMonitor {}

impl MacosProcessMonitor {
    pub fn new() -> (r: MacosProcessMonitor)
        ensures
            r == (MacosProcessMonitor {  }),
    {
        MacosProcessMonitor {  }
    }

    /// No events can be had on this build.
    pub fn subscribe(&self, opts: &ProcessMonitorOpts) -> (r: Result<(), ProcessMonitorError>)
        ensures
            r is Err,
            r->Err_0 is Unsupported,
            r->Err_0->Unsupported_0@ == "Endpoint Security client not wired (needs entitlement)"@,
    {
        Err(
            ProcessMonitorError::Unsupported(
                "Endpoint Security client not wired (needs entitlement)".to_owned(),
            ),
        )
    }

    /// No ancestors can be had on this build.
    pub fn lookup_ancestors(&self, pid: u32, max_depth: u32) -> (r: Result<
        Vec<ProcessAncestor>,
        ProcessMonitorError,
    >)
        ensures
            r is Err,
            r->Err_0 is Unsupported,
            r->Err_0->Unsupported_0@ == "macOS proc_listallpids ancestry not wired"@,
    {
        Err(
            ProcessMonitorError::Unsupported(
                "macOS proc_listallpids ancestry not wired".to_owned(),
            ),
        )
    }
}

impl Default for MacosProcessMonitor {
    fn default() -> (r: Self)
        ensures
            r == (MacosProcessMonitor {  }),
    {
        MacosProcessMonitor::new()
    }
}

/// Monitor with canned events and canned ancestors.
#[derive(Debug)]
pub struct MockProcessMonitor {
    events: Vec<ProcessEvent>,
    ancestors: HashMap<u32, Vec<ProcessAncestor>>,
}

impl MockProcessMonitor {
    /// The events in the order in which they are replayed.
    pub closed spec fn canned(&self) -> Seq<ProcessEvent> {
        self.events@
    }

    /// The canned ancestors of `pid`.
    pub closed spec fn ancestry(&self, pid: u32) -> Seq<ProcessAncestor> {
        if self.ancestors@.contains_key(pid) {
            self.ancestors@[pid]@
        } else {
            Seq::empty()
        }
    }

    pub fn new() -> (r: MockProcessMonitor)
        ensures
            r.canned() == Seq::<ProcessEvent>::empty(),
            forall|p: u32| #[trigger] r.ancestry(p) == Seq::<ProcessAncestor>::empty(),
    {
        MockProcessMonitor { events: Vec::new(), ancestors: HashMap::new() }
    }

    pub fn with_events(events: Vec<ProcessEvent>) -> (r: MockProcessMonitor)
        ensures
            r.canned() == events@,
            forall|p: u32| #[trigger] r.ancestry(p) == Seq::<ProcessAncestor>::empty(),
    {
        MockProcessMonitor { events, ancestors: HashMap::new() }
    }

    /// Adds an event to be replayed after the others.
    pub fn push_event(&mut self, event: ProcessEvent)
        ensures
            final(self).canned() == old(self).canned().push(event),
            forall|p: u32| #[trigger] final(self).ancestry(p) == old(self).ancestry(p),
    {
        self.events.push(event);
    }

    /// Sets the ancestors of `pid`.
    pub fn set_ancestors(&mut self, pid: u32, ancestors: Vec<ProcessAncestor>)
        ensures
            final(self).canned() == old(self).canned(),
            forall|p: u32| #[trigger]
                final(self).ancestry(p) == if p == pid {
                    ancestors@
                } else {
                    old(self).ancestry(p)
                },
    {
        self.ancestors.insert(pid, ancestors);
    }

    /// The events, in the order in which they are replayed.
    pub fn events(&self) -> (r: &Vec<ProcessEvent>)
        ensures
            r@ == self.canned(),
    {
        &self.events
    }

    /// The first `max_depth` of the canned ancestors of `pid`.
    pub fn lookup_ancestors(&self, pid: u32, max_depth: u32) -> (r: Result<
        Vec<ProcessAncestor>,
        ProcessMonitorError,
    >)
        ensures
            r is Ok,
            r->Ok_0@ == if self.ancestry(pid).len() <= max_depth {
                self.ancestry(pid)
            } else {
                self.ancestry(pid).take(max_depth as int)
            },
    {
        match self.ancestors.get(&pid) {
            Some(chain) => {
                let mut v = chain.clone();
                assert(v@ =~= chain@);
                v.truncate(max_depth as usize);
                assert(chain@.len() > max_depth ==> chain@.subrange(0, max_depth as int)
                    =~= chain@.take(max_depth as int));
                Ok(v)
            },
            None => Ok(Vec::new()),
        }
    }
}

impl Default for MockProcessMonitor {
    fn default() -> (r: Self)
        ensures
            r.canned() == Seq::<ProcessEvent>::empty(),
            forall|p: u32| #[trigger] r.ancestry(p) == Seq::<ProcessAncestor>::empty(),
    {
        MockProcessMonitor::new()
    }
}

} // verus!
