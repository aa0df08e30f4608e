//! Memory of other processes: its regions, what backs them, and the guards
//! around reading them.

use crate::stream::{count_up, wrapping_succ};
use crate::text::{
    char_at, char_index, chars_of, cut, gather, lemma_gather_step, lines, lines_of, number, numeral,
    parse_number,
    push_number, split_once, string_of, texts, words, words_of,
};
use std::collections::BTreeMap;
use vstd::prelude::*;
use vstd::string::*;

verus! {

/// Access rights to a region.
#[derive(Debug, Clone, Copy, PartialEq, Eq, Structural)]
pub struct MemoryPermissions {
    pub readable: bool,
    pub writable: bool,
    pub executable: bool,
}

impl Default for MemoryPermissions {
    fn default() -> (r: Self)
        ensures
            r == rights(false, false, false),
    {
        MemoryPermissions { readable: false, writable: false, executable: false }
    }
}

/// The rights to read, write and execute.
pub open spec fn rights(readable: bool, writable: bool, executable: bool) -> MemoryPermissions {
    MemoryPermissions { readable, writable, executable }
}

impl MemoryPermissions {
    /// All three rights together.
    pub open spec fn rwx(self) -> bool {
        self.readable && self.writable && self.executable
    }

    /// Whether all three rights are there.
    pub fn is_rwx(&self) -> (r: bool)
        ensures
            r == self.rwx(),
    {
        self.readable && self.writable && self.executable
    }
}

pub const WIN_PAGE_NOACCESS: u32 = 0x0000_0001;

pub const WIN_PAGE_READONLY: u32 = 0x0000_0002;

pub const WIN_PAGE_READWRITE: u32 = 0x0000_0004;

pub const WIN_PAGE_WRITECOPY: u32 = 0x0000_0008;

pub const WIN_PAGE_EXECUTE: u32 = 0x0000_0010;

pub const WIN_PAGE_EXECUTE_READ: u32 = 0x0000_0020;

pub const WIN_PAGE_EXECUTE_READWRITE: u32 = 0x0000_0040;

pub const WIN_PAGE_EXECUTE_WRITECOPY: u32 = 0x0000_0080;

pub const WIN_PAGE_GUARD: u32 = 0x0000_0100;

pub const WIN_PAGE_NOCACHE: u32 = 0x0000_0200;

pub const WIN_PAGE_WRITECOMBINE: u32 = 0x0000_0400;

pub const WIN_PAGE_HIGH_MODIFIERS: u32 = 0xF000_0000;

/// Every flag that modifies a protection: guard, no-cache, write-combine
/// and the four highest bits.
pub const WIN_PAGE_MODIFIERS: u32 = 0xF000_0700;

/// The rights that a base protection gives; an unknown one gives none.
pub open spec fn base_rights(base: u32) -> MemoryPermissions {
    if base == WIN_PAGE_READONLY {
        rights(true, false, false)
    } else if base == WIN_PAGE_READWRITE || base == WIN_PAGE_WRITECOPY {
        rights(true, true, false)
    } else if base == WIN_PAGE_EXECUTE {
        rights(false, false, true)
    } else if base == WIN_PAGE_EXECUTE_READ {
        rights(true, false, true)
    } else if base == WIN_PAGE_EXECUTE_READWRITE || base == WIN_PAGE_EXECUTE_WRITECOPY {
        rights(true, true, true)
    } else {
        rights(false, false, false)
    }
}

/// The rights that a page protection gives: those of its base, whatever
/// modifiers are set.
pub open spec fn win_rights(protect: u32) -> MemoryPermissions {
    base_rights(protect & !WIN_PAGE_MODIFIERS)
}

/// The rights that a page protection gives.
pub fn permissions_from_win_protect(protect: u32) -> (r: MemoryPermissions)
    ensures
        r == win_rights(protect),
{
    let base: u32 = protect & !WIN_PAGE_MODIFIERS;
    if base == WIN_PAGE_READONLY {
        MemoryPermissions { readable: true, writable: false, executable: false }
    } else if base == WIN_PAGE_READWRITE || base == WIN_PAGE_WRITECOPY {
        MemoryPermissions { readable: true, writable: true, executable: false }
    } else if base == WIN_PAGE_EXECUTE {
        MemoryPermissions { readable: false, writable: false, executable: true }
    } else if base == WIN_PAGE_EXECUTE_READ {
        MemoryPermissions { readable: true, writable: false, executable: true }
    } else if base == WIN_PAGE_EXECUTE_READWRITE || base == WIN_PAGE_EXECUTE_WRITECOPY {
        MemoryPermissions { readable: true, writable: true, executable: true }
    } else {
        MemoryPermissions { readable: false, writable: false, executable: false }
    }
}

/// Modifiers never change the rights that a protection gives: setting or
/// clearing any of them leaves the rights as they are.
pub proof fn law_modifiers_keep_rights(a: u32, b: u32)
    requires
        a & !WIN_PAGE_MODIFIERS == b & !WIN_PAGE_MODIFIERS,
    ensures
        win_rights(a) == win_rights(b),
        forall|m: u32| #[trigger]
            (m & WIN_PAGE_MODIFIERS) == m ==> win_rights(a | m) == win_rights(a),
{
    assert forall|m: u32| #[trigger] (m & WIN_PAGE_MODIFIERS) == m implies win_rights(a | m)
        == win_rights(a) by {
        assert((m & 0xF000_0700u32) == m ==> (a | m) & !0xF000_0700u32 == a & !0xF000_0700u32)
            by (bit_vector);
    }
}

/// What backs a region.
#[derive(Debug, PartialEq, Eq)]
pub enum MappingKind {
    Anonymous,
    FileBacked(String),
    Jit,
}

impl Clone for MappingKind {
    fn clone(&self) -> (r: Self)
        ensures
            r == *self,
    {
        match self {
            MappingKind::Anonymous => MappingKind::Anonymous,
            MappingKind::FileBacked(p) => MappingKind::FileBacked(p.clone()),
            MappingKind::Jit => MappingKind::Jit,
        }
    }
}

impl MappingKind {
    /// Whether a file backs the region.
    pub fn is_file_backed(&self) -> (r: bool)
        ensures
            r == (*self is FileBacked),
    {
        match self {
            MappingKind::FileBacked(_) => true,
            _ => false,
        }
    }
}

/// A region of a process's memory.
#[derive(Debug, PartialEq, Eq)]
pub struct MemoryRegion {
    pub base: u64,
    pub size: u64,
    pub permissions: MemoryPermissions,
    pub mapping: MappingKind,
}

impl Clone for MemoryRegion {
    fn clone(&self) -> (r: Self)
        ensures
            r == *self,
    {
        MemoryRegion {
            base: self.base,
            size: self.size,
            permissions: self.permissions,
            mapping: self.mapping.clone(),
        }
    }
}

impl MemoryRegion {
    /// Regions worth reading: those with all rights, and those that no file
    /// backs.
    pub open spec fn interesting(self) -> bool {
        self.permissions.rwx() || !(self.mapping is FileBacked)
    }

    /// The last address of the region; it does not run over the end of
    /// memory. Of an empty region it is the base.
    pub fn end(&self) -> (r: u64)
        ensures
            r == if self.size == 0 {
                self.base as int
            } else if self.base + self.size - 1 > u64::MAX {
                u64::MAX as int
            } else {
                self.base + self.size - 1
            },
    {
        if self.size == 0 {
            self.base
        } else {
            self.base.saturating_add(self.size - 1)
        }
    }

    /// Whether the region is worth reading.
    pub fn is_interesting(&self) -> (r: bool)
        ensures
            r == self.interesting(),
    {
        if self.permissions.is_rwx() {
            return true;
        }
        match &self.mapping {
            MappingKind::Anonymous => true,
            MappingKind::Jit => true,
            MappingKind::FileBacked(_) => false,
        }
    }
}

/// The contents of a [`MappingKind`].
#[verifier::ext_equal]
pub enum MappingView {
    Anonymous,
    FileBacked(Seq<char>),
    Jit,
}

impl View for MappingKind {
    type V = MappingView;

    open spec fn view(&self) -> MappingView {
        match self {
            MappingKind::Anonymous => MappingView::Anonymous,
            MappingKind::FileBacked(p) => MappingView::FileBacked(p@),
            MappingKind::Jit => MappingView::Jit,
        }
    }
}

/// The contents of a [`MemoryRegion`].
#[verifier::ext_equal]
pub struct RegionView {
    pub base: u64,
    pub size: u64,
    pub permissions: MemoryPermissions,
    pub mapping: MappingView,
}

impl View for MemoryRegion {
    type V = RegionView;

    open spec fn view(&self) -> RegionView {
        RegionView {
            base: self.base,
            size: self.size,
            permissions: self.permissions,
            mapping: self.mapping@,
        }
    }
}

/// The contents of a list of regions.
pub open spec fn region_views(v: Seq<MemoryRegion>) -> Seq<RegionView> {
    v.map_values(|r: MemoryRegion| r@)
}

proof fn lemma_regions_push(v: Seq<MemoryRegion>, r: MemoryRegion)
    ensures
        region_views(v.push(r)) == region_views(v).push(r@),
{
    assert(region_views(v.push(r)) =~= region_views(v).push(r@));
}

// ---------------------------------------------------------------------
// Errors
// ---------------------------------------------------------------------

/// Kinds of failure.
#[derive(Debug, Clone, Copy, PartialEq, Eq, Structural)]
pub enum ScanErrorKind {
    PermissionDenied,
    Unsupported,
    NotFound,
    Other,
}

/// Why memory could not be listed or read.
#[derive(Debug, PartialEq, Eq)]
pub struct ScanError {
    pub kind: ScanErrorKind,
    pub message: String,
}

impl ScanError {
    /// The kind of failure.
    pub fn kind(&self) -> (r: ScanErrorKind)
        ensures
            r == self.kind,
    {
        self.kind
    }
}

fn scan_error(kind: ScanErrorKind, message: &str) -> (r: ScanError)
    ensures
        r.kind == kind,
        r.message@ == message@,
{
    ScanError { kind, message: message.to_owned() }
}

/// Whether `e` is the refusal to read the agent's own memory.
pub open spec fn refuses_self(e: ScanError) -> bool {
    e.kind == ScanErrorKind::PermissionDenied && e.message@
        == "refusing to read the agent's own memory"@
}

// ---------------------------------------------------------------------
// Linux
// ---------------------------------------------------------------------

/// Words with single blanks between them.
pub open spec fn joined(w: Seq<Seq<char>>) -> Seq<char>
    decreases w.len(),
{
    if w.len() == 0 {
        Seq::empty()
    } else if w.len() == 1 {
        w[0]
    } else {
        joined(w.drop_last()).push(' ') + w.last()
    }
}

/// Whether the ASCII character `c` stands at octet `col` of `s`.
pub open spec fn letter_at(s: Seq<char>, col: nat, c: char) -> bool {
    match char_at(s, col) {
        Some(i) => 0 <= i < s.len() && s[i] == c,
        None => false,
    }
}

/// The rights that the letters of a maps line give.
pub open spec fn letter_rights(s: Seq<char>) -> MemoryPermissions {
    rights(letter_at(s, 0, 'r'), letter_at(s, 1, 'w'), letter_at(s, 2, 'x'))
}

/// What backs a region with that path and those rights: memory that can be
/// written and executed counts as generated code, a path in brackets or
/// none at all as anonymous memory.
pub open spec fn mapping_of(path: Seq<char>, p: MemoryPermissions) -> MappingView {
    let t = crate::text::trimmed(path);
    if p.writable && p.executable {
        MappingView::Jit
    } else if t.len() == 0 || t[0] == '[' {
        MappingView::Anonymous
    } else {
        MappingView::FileBacked(t)
    }
}

/// The region that a maps line describes: a range of hexadecimal addresses,
/// the rights, three fields that do not matter, and a path.
pub open spec fn maps_line(line: Seq<char>) -> Option<RegionView> {
    let w = words_of(line);
    if w.len() < 5 {
        None
    } else {
        match cut(w[0], '-') {
            Some((a, b)) => match (number(a, 16, u64::MAX as nat), number(b, 16, u64::MAX as nat)) {
                (Some(start), Some(end)) => if end <= start {
                    None
                } else {
                    let p = letter_rights(w[1]);
                    Some(
                        RegionView {
                            base: start as u64,
                            size: (end - start) as u64,
                            permissions: p,
                            mapping: mapping_of(joined(w.skip(5)), p),
                        },
                    )
                },
                _ => None,
            },
            None => None,
        }
    }
}

/// Reads a maps line, for use with `gather`.
pub open spec fn maps_reader() -> spec_fn(Seq<char>) -> Option<RegionView> {
    |line: Seq<char>| maps_line(line)
}

/// Reads the letters of a maps line.
pub fn parse_perms(s: &[char]) -> (r: MemoryPermissions)
    ensures
        r == letter_rights(s@),
{
    MemoryPermissions {
        readable: has_letter(s, 0, 'r'),
        writable: has_letter(s, 1, 'w'),
        executable: has_letter(s, 2, 'x'),
    }
}

fn has_letter(s: &[char], col: u128, c: char) -> (r: bool)
    ensures
        r == letter_at(s@, col as nat, c),
{
    match char_index(s, col) {
        Some(i) => i < s.len() && s[i] == c,
        None => false,
    }
}

/// Tells what backs a region with that path and those rights.
pub fn classify_mapping(path: &[char], perms: &MemoryPermissions) -> (r: MappingKind)
    ensures
        r@ == mapping_of(path@, *perms),
{
    let t = crate::text::trim(path);
    if perms.writable && perms.executable {
        return MappingKind::Jit;
    }
    if t.len() == 0 || t[0] == '[' {
        return MappingKind::Anonymous;
    }
    MappingKind::FileBacked(string_of(t))
}

fn join_words(w: &Vec<&[char]>, from: usize) -> (r: Vec<char>)
    requires
        from <= w@.len(),
    ensures
        r@ == joined(texts(w@).skip(from as int)),
{
    let ghost rest = texts(w@).skip(from as int);
    let mut out: Vec<char> = Vec::new();
    let mut i: usize = from;
    assert(rest.take(0) =~= Seq::empty());
    while i < w.len()
        invariant
            from <= i <= w@.len(),
            rest == texts(w@).skip(from as int),
            out@ == joined(rest.take(i - from)),
        decreases w@.len() - i,
    {
        let word = w[i];
        let ghost next = rest.take(i - from + 1);
        assert(next.drop_last() =~= rest.take(i - from));
        assert(next.last() == word@);
        if i > from {
            out.push(' ');
        }
        let ghost start = out@;
        let mut j: usize = 0;
        while j < word.len()
            invariant
                j <= word@.len(),
                out@ == start + word@.take(j as int),
            decreases word@.len() - j,
        {
            out.push(word[j]);
            assert(out@ =~= start + word@.take(j + 1));
            j += 1;
        }
        assert(word@.take(j as int) =~= word@);
        assert(out@ =~= joined(next));
        i += 1;
    }
    assert(rest.take(i - from) =~= rest);
    out
}

/// Reads a maps line.
pub fn parse_maps_line(line: &[char]) -> (r: Option<MemoryRegion>)
    ensures
        match r {
            Some(m) => maps_line(line@) == Some(m@),
            None => maps_line(line@) is None,
        },
{
    let w = words(line);
    assert(texts(w@).len() == w@.len());
    if w.len() < 5 {
        return None;
    }
    assert(texts(w@)[0] == w@[0]@);
    assert(texts(w@)[1] == w@[1]@);
    match split_once(w[0], '-') {
        None => None,
        Some((a, b)) => match (parse_number(a, 16, u64::MAX), parse_number(b, 16, u64::MAX)) {
            (Some(start), Some(end)) => {
                if end <= start {
                    return None;
                }
                let rest = join_words(&w, 5);
                let permissions = parse_perms(w[1]);
                let mapping = classify_mapping(rest.as_slice(), &permissions);
                Some(MemoryRegion { base: start, size: end - start, permissions, mapping })
            },
            _ => None,
        },
    }
}

/// Reads a maps file; lines that describe no region are passed over.
pub fn parse_proc_maps(content: &str) -> (r: Vec<MemoryRegion>)
    ensures
        region_views(r@) == gather(lines_of(content@), maps_reader()),
{
    let chars = chars_of(content);
    let all = lines(chars.as_slice());
    let ghost want = texts(all@);
    let ghost reader = maps_reader();
    let mut out: Vec<MemoryRegion> = Vec::new();
    let mut i: usize = 0;
    assert(want.take(0) =~= Seq::empty());
    assert(region_views(out@) =~= gather(want.take(0), reader));
    while i < all.len()
        invariant
            i <= all@.len(),
            want == texts(all@),
            reader == maps_reader(),
            region_views(out@) == gather(want.take(i as int), reader),
        decreases all@.len() - i,
    {
        let ghost before = out@;
        proof {
            lemma_gather_step(want, reader, i as int);
            assert(want[i as int] == all@[i as int]@);
        }
        match parse_maps_line(all[i]) {
            Some(m) => {
                out.push(m);
                proof {
                    lemma_regions_push(before, m);
                }
            },
            None => {},
        }
        i += 1;
    }
    assert(want.take(i as int) =~= want);
    out
}

/// Scanner of the processes of a Linux host.
#[derive(Debug)]
pub struct LinuxMemoryScanner {
    self_pid: u32,
}

impl LinuxMemoryScanner {
    /// The agent's own process.
    pub closed spec fn own(&self) -> u32 {
        self.self_pid
    }

    /// The scanner of an agent that runs as process `self_pid`.
    pub fn new(self_pid: u32) -> (r: LinuxMemoryScanner)
        ensures
            r.own() == self_pid,
    {
        LinuxMemoryScanner { self_pid }
    }

    /// The agent's own process.
    pub fn self_pid(&self) -> (r: u32)
        ensures
            r == self.own(),
    {
        self.self_pid
    }

    /// The file that lists the regions of `pid`.
    pub fn maps_path(&self, pid: u32) -> (r: String)
        ensures
            r@ == "/proc/"@ + numeral(pid as nat, 10) + "/maps"@,
    {
        let mut s = "/proc/".to_owned();
        push_number(&mut s, pid as u128, 10);
        s.concat("/maps")
    }

    /// The file that holds the memory of `pid`.
    pub fn mem_path(&self, pid: u32) -> (r: String)
        ensures
            r@ == "/proc/"@ + numeral(pid as nat, 10) + "/mem"@,
    {
        let mut s = "/proc/".to_owned();
        push_number(&mut s, pid as u128, 10);
        s.concat("/mem")
    }

    /// The regions of `pid`, given what came of reading its maps file. The
    /// agent's own process has none, whatever its file says.
    pub fn enumerate(&self, pid: u32, maps: Result<String, ScanError>) -> (r: Result<
        Vec<MemoryRegion>,
        ScanError,
    >)
        ensures
            pid == self.own() ==> r is Ok && r->Ok_0@ == Seq::<MemoryRegion>::empty(),
            pid != self.own() ==> match maps {
                Ok(t) => r is Ok && region_views(r->Ok_0@) == gather(lines_of(t@), maps_reader()),
                Err(e) => r == Err::<Vec<MemoryRegion>, _>(e),
            },
    {
        if pid == self.self_pid {
            return Ok(Vec::new());
        }
        match maps {
            Ok(t) => Ok(parse_proc_maps(t.as_str())),
            Err(e) => Err(e),
        }
    }

    /// How many octets may be read from `pid` into a buffer of `room`
    /// octets. The agent's own memory is refused.
    pub fn read_limit(&self, pid: u32, len: usize, room: usize) -> (r: Result<usize, ScanError>)
        ensures
            match r {
                Ok(n) => pid != self.own() && n == if len <= room {
                    len
                } else {
                    room
                },
                Err(e) => pid == self.own() && refuses_self(e),
            },
    {
        if pid == self.self_pid {
            return Err(
                scan_error(
                    ScanErrorKind::PermissionDenied,
                    "refusing to read the agent's own memory",
                ),
            );
        }
        if len <= room {
            Ok(len)
        } else {
            Ok(room)
        }
    }
}

// ---------------------------------------------------------------------
// Windows
// ---------------------------------------------------------------------

pub const MEM_COMMIT: u32 = 0x0000_1000;

pub const MEM_PRIVATE: u32 = 0x0002_0000;

pub const MEM_MAPPED: u32 = 0x0004_0000;

pub const MEM_IMAGE: u32 = 0x0100_0000;

/// What the system says of the region at an address.
#[derive(Debug, Clone, Copy, PartialEq, Eq, Structural)]
pub struct RegionInfo {
    pub base: u64,
    pub size: u64,
    pub state: u32,
    pub protect: u32,
    pub kind: u32,
}

/// What backs a region of that type with those rights.
pub open spec fn win_mapping(kind: u32, p: MemoryPermissions) -> MappingView {
    if kind == MEM_PRIVATE {
        if p.rwx() {
            MappingView::Jit
        } else {
            MappingView::Anonymous
        }
    } else if kind == MEM_IMAGE || kind == MEM_MAPPED {
        if p.rwx() {
            MappingView::Jit
        } else {
            MappingView::FileBacked(Seq::empty())
        }
    } else {
        MappingView::Anonymous
    }
}

/// The region that the system describes, where memory is committed to it.
pub open spec fn win_region(info: RegionInfo) -> Option<RegionView> {
    if info.state == MEM_COMMIT {
        Some(
            RegionView {
                base: info.base,
                size: info.size,
                permissions: win_rights(info.protect),
                mapping: win_mapping(info.kind, win_rights(info.protect)),
            },
        )
    } else {
        None
    }
}

/// The address after a region, at most the last.
pub open spec fn address_after(info: RegionInfo) -> int {
    if info.base + info.size > u64::MAX {
        u64::MAX as int
    } else {
        info.base + info.size
    }
}

/// A walk over the regions of a process, from the lowest address up.
#[derive(Debug)]
pub struct RegionWalk {
    address: u64,
    found: Vec<MemoryRegion>,
    done: bool,
}

impl RegionWalk {
    /// The address to ask about next.
    pub closed spec fn at(&self) -> u64 {
        self.address
    }

    /// The regions found so far.
    pub closed spec fn regions(&self) -> Seq<RegionView> {
        region_views(self.found@)
    }

    /// Whether the walk is over.
    pub closed spec fn over(&self) -> bool {
        self.done
    }

    /// A walk that is about to begin.
    pub fn begin() -> (r: RegionWalk)
        ensures
            r.at() == 0,
            r.regions() == Seq::<RegionView>::empty(),
            !r.over(),
    {
        let found: Vec<MemoryRegion> = Vec::new();
        assert(region_views(found@) =~= Seq::empty());
        RegionWalk { address: 0, found, done: false }
    }

    /// The address to ask about next, while the walk goes on.
    pub fn next_address(&self) -> (r: Option<u64>)
        ensures
            r == if self.over() {
                None
            } else {
                Some(self.at())
            },
    {
        if self.done {
            None
        } else {
            Some(self.address)
        }
    }

    /// Takes the answer for the address that was asked about. The walk ends
    /// where there is no answer, or where it would not get any further.
    pub fn step(&mut self, info: Option<RegionInfo>)
        requires
            !old(self).over(),
        ensures
            match info {
                None => final(self).over() && final(self).regions() == old(self).regions()
                    && final(self).at() == old(self).at(),
                Some(i) => {
                    &&& final(self).regions() == (match win_region(i) {
                        Some(r) => old(self).regions().push(r),
                        None => old(self).regions(),
                    })
                    &&& final(self).over() == (address_after(i) <= old(self).at())
                    &&& final(self).at() == if address_after(i) <= old(self).at() {
                        old(self).at() as int
                    } else {
                        address_after(i)
                    }
                },
            },
    {
        match info {
            None => {
                self.done = true;
            },
            Some(i) => {
                if i.state == MEM_COMMIT {
                    let permissions = permissions_from_win_protect(i.protect);
                    let mapping = if i.kind == MEM_PRIVATE {
                        if permissions.is_rwx() {
                            MappingKind::Jit
                        } else {
                            MappingKind::Anonymous
                        }
                    } else if i.kind == MEM_IMAGE || i.kind == MEM_MAPPED {
                        if permissions.is_rwx() {
                            MappingKind::Jit
                        } else {
                            MappingKind::FileBacked(String::new())
                        }
                    } else {
                        MappingKind::Anonymous
                    };
                    let r = MemoryRegion { base: i.base, size: i.size, permissions, mapping };
                    assert(r@.mapping == win_mapping(i.kind, permissions));
                    let ghost before = self.found@;
                    self.found.push(r);
                    proof {
                        lemma_regions_push(before, r);
                    }
                }
                let next: u64 = i.base.saturating_add(i.size);
                if next <= self.address {
                    self.done = true;
                } else {
                    self.address = next;
                }
            },
        }
    }

    /// The regions that were found.
    pub fn finish(self) -> (r: Vec<MemoryRegion>)
        ensures
            region_views(r@) == self.regions(),
    {
        self.found
    }
}

/// Scanner of the processes of a Windows host.
#[derive(Debug)]
pub struct WindowsMemoryScanner {
    self_pid: u32,
}

impl WindowsMemoryScanner {
    /// The agent's own process.
    pub closed spec fn own(&self) -> u32 {
        self.self_pid
    }

    /// The scanner of an agent that runs as process `self_pid`.
    pub fn new(self_pid: u32) -> (r: WindowsMemoryScanner)
        ensures
            r.own() == self_pid,
    {
        WindowsMemoryScanner { self_pid }
    }

    /// The agent's own process.
    pub fn self_pid(&self) -> (r: u32)
        ensures
            r == self.own(),
    {
        self.self_pid
    }

    /// The regions of `pid`, given the answers of the system for the
    /// addresses of a walk. The agent's own process has none.
    pub fn enumerate(&self, pid: u32, answers: &Vec<RegionInfo>) -> (r: Vec<MemoryRegion>)
        ensures
            region_views(r@) == if pid == self.own() {
                Seq::empty()
            } else {
                walked(answers@, 0, 0)
            },
    {
        let none: Vec<MemoryRegion> = Vec::new();
        assert(region_views(none@) =~= Seq::empty());
        if pid == self.self_pid {
            return none;
        }
        let mut walk = RegionWalk::begin();
        let mut i: usize = 0;
        assert(walk.regions() + walked(answers@, 0, 0) =~= walked(answers@, 0, 0));
        while i < answers.len()
            invariant
                i <= answers@.len(),
                pid != self.own(),
                !walk.over(),
                walk.regions() + walked(answers@, i as int, walk.at() as int) == walked(answers@, 0, 0),
            decreases answers@.len() - i,
        {
            let ghost before = walk.regions();
            let ghost at = walk.at();
            walk.step(Some(answers[i]));
            if walk.next_address().is_none() {
                assert(walk.regions() =~= before + walked(answers@, i as int, at as int));
                return walk.finish();
            }
            assert(walk.regions() + walked(answers@, i + 1, walk.at() as int) =~= before + walked(
                answers@,
                i as int,
                at as int,
            ));
            i += 1;
        }
        assert(walk.regions() + walked(answers@, i as int, walk.at() as int) =~= walk.regions());
        walk.finish()
    }

    /// How many octets may be read from `pid` into a buffer of `room`
    /// octets. The agent's own memory is refused.
    pub fn read_limit(&self, pid: u32, len: usize, room: usize) -> (r: Result<usize, ScanError>)
        ensures
            match r {
                Ok(n) => pid != self.own() && n == if len <= room {
                    len
                } else {
                    room
                },
                Err(e) => pid == self.own() && refuses_self(e),
            },
    {
        LinuxMemoryScanner::new(self.self_pid).read_limit(pid, len, room)
    }
}

/// The regions that a walk finds which stands at address `at` and gets the
/// answers from the `i`-th on.
pub open spec fn walked(answers: Seq<RegionInfo>, i: int, at: int) -> Seq<RegionView>
    decreases answers.len() - i,
{
    if i < 0 || i >= answers.len() {
        Seq::empty()
    } else {
        let here = match win_region(answers[i]) {
            Some(r) => seq![r],
            None => Seq::empty(),
        };
        let next = address_after(answers[i]);
        if next <= at {
            here
        } else {
            here + walked(answers, i + 1, next)
        }
    }
}

// ---------------------------------------------------------------------
// macOS and others
// ---------------------------------------------------------------------

/// Placeholder for the scanner of macOS hosts.
#[derive(Debug)]
pub struct MacosMemoryScanner {
    self_pid: u32,
}

impl MacosMemoryScanner {
    /// The agent's own process.
    pub closed spec fn own(&self) -> u32 {
        self.self_pid
    }

    /// The scanner of an agent that runs as process `self_pid`.
    pub fn new(self_pid: u32) -> (r: MacosMemoryScanner)
        ensures
            r.own() == self_pid,
    {
        MacosMemoryScanner { self_pid }
    }

    /// The agent's own process.
    pub fn self_pid(&self) -> (r: u32)
        ensures
            r == self.own(),
    {
        self.self_pid
    }

    /// The agent's own process has no regions; others cannot be listed.
    pub fn enumerate(&self, pid: u32) -> (r: Result<Vec<MemoryRegion>, ScanError>)
        ensures
            match r {
                Ok(v) => pid == self.own() && v@ == Seq::<MemoryRegion>::empty(),
                Err(e) => pid != self.own() && e.kind == ScanErrorKind::Unsupported && e.message@
                    == "macOS task_for_pid requires com.apple.security.cs.debugger; see docs/edr-parity/PRODUCTISATION-MACOS.md (Phase E6.3)"@,
            },
    {
        if pid == self.self_pid {
            return Ok(Vec::new());
        }
        Err(
            scan_error(
                ScanErrorKind::Unsupported,
                "macOS task_for_pid requires com.apple.security.cs.debugger; see docs/edr-parity/PRODUCTISATION-MACOS.md (Phase E6.3)",
            ),
        )
    }

    /// No memory can be read: the agent's own is refused, that of others is
    /// out of reach.
    pub fn read(&self, pid: u32, base: u64, len: usize, buf: &mut [u8]) -> (r: Result<usize, ScanError>)
        ensures
            final(buf)@ == old(buf)@,
            r is Err,
            if pid == self.own() {
                refuses_self(r->Err_0)
            } else {
                r->Err_0.kind == ScanErrorKind::Unsupported && r->Err_0.message@
                    == "macOS mach_vm_read_overwrite requires com.apple.security.cs.debugger"@
            },
    {
        if pid == self.self_pid {
            return Err(
                scan_error(
                    ScanErrorKind::PermissionDenied,
                    "refusing to read the agent's own memory",
                ),
            );
        }
        Err(
            scan_error(
                ScanErrorKind::Unsupported,
                "macOS mach_vm_read_overwrite requires com.apple.security.cs.debugger",
            ),
        )
    }
}

/// Scanner of hosts that no scanner exists for.
#[derive(Debug)]
pub struct UnsupportedMemoryScanner {}

impl UnsupportedMemoryScanner {
    /// No regions can be listed.
    pub fn enumerate(&self, pid: u32) -> (r: Result<Vec<MemoryRegion>, ScanError>)
        ensures
            r is Err,
            r->Err_0.kind == ScanErrorKind::Unsupported,
            r->Err_0.message@ == "memory scanning not supported on this platform"@,
    {
        Err(
            scan_error(
                ScanErrorKind::Unsupported,
                "memory scanning not supported on this platform",
            ),
        )
    }

    /// No memory can be read.
    pub fn read(&self, pid: u32, base: u64, len: usize, buf: &mut [u8]) -> (r: Result<usize, ScanError>)
        ensures
            final(buf)@ == old(buf)@,
            r is Err,
            r->Err_0.kind == ScanErrorKind::Unsupported,
            r->Err_0.message@ == "memory reads not supported on this platform"@,
    {
        Err(scan_error(ScanErrorKind::Unsupported, "memory reads not supported on this platform"))
    }
}

// ---------------------------------------------------------------------
// Canned memory
// ---------------------------------------------------------------------

/// Scanner with canned regions and canned memory.
#[derive(Debug)]
pub struct MockMemoryScanner {
    regions: BTreeMap<u32, Vec<MemoryRegion>>,
    reads: BTreeMap<(u32, u64), Vec<u8>>,
    enumerate_calls: u64,
    read_calls: u64,
    self_pid: u32,
}

impl MockMemoryScanner {
    /// The agent's own process.
    pub closed spec fn own(&self) -> u32 {
        self.self_pid
    }

    /// The canned regions of `pid`.
    pub closed spec fn canned(&self, pid: u32) -> Seq<MemoryRegion> {
        if self.regions@.contains_key(pid) {
            self.regions@[pid]@
        } else {
            Seq::empty()
        }
    }

    /// The canned memory of `pid` at `base`, if there is any.
    pub closed spec fn memory(&self, pid: u32, base: u64) -> Option<Seq<u8>> {
        if self.reads@.contains_key((pid, base)) {
            Some(self.reads@[(pid, base)]@)
        } else {
            None
        }
    }

    /// How often regions were asked for.
    pub closed spec fn listings(&self) -> u64 {
        self.enumerate_calls
    }

    /// How often memory was asked for.
    pub closed spec fn readings(&self) -> u64 {
        self.read_calls
    }

    /// The canned contents are the same.
    pub open spec fn same_contents(&self, other: &MockMemoryScanner) -> bool {
        &&& self.own() == other.own()
        &&& forall|p: u32| #[trigger] self.canned(p) == other.canned(p)
        &&& forall|p: u32, b: u64| #[trigger] self.memory(p, b) == other.memory(p, b)
    }

    /// An empty scanner of an agent that runs as process `self_pid`.
    pub fn with_self_pid(self_pid: u32) -> (r: MockMemoryScanner)
        ensures
            r.own() == self_pid,
            forall|p: u32| #[trigger] r.canned(p) == Seq::<MemoryRegion>::empty(),
            forall|p: u32, b: u64| #[trigger] r.memory(p, b) is None,
            r.listings() == 0,
            r.readings() == 0,
    {
        MockMemoryScanner {
            regions: BTreeMap::new(),
            reads: BTreeMap::new(),
            enumerate_calls: 0,
            read_calls: 0,
            self_pid,
        }
    }

    /// Sets the regions of `pid`.
    pub fn set_regions(&mut self, pid: u32, regions: Vec<MemoryRegion>)
        ensures
            final(self).own() == old(self).own(),
            forall|p: u32| #[trigger]
                final(self).canned(p) == if p == pid {
                    regions@
                } else {
                    old(self).canned(p)
                },
            forall|p: u32, b: u64| #[trigger] final(self).memory(p, b) == old(self).memory(p, b),
            final(self).listings() == old(self).listings(),
            final(self).readings() == old(self).readings(),
    {
        self.regions.insert(pid, regions);
    }

    /// Sets the memory of `pid` at `base`.
    pub fn set_read(&mut self, pid: u32, base: u64, bytes: Vec<u8>)
        ensures
            final(self).own() == old(self).own(),
            forall|p: u32| #[trigger] final(self).canned(p) == old(self).canned(p),
            forall|p: u32, b: u64| #[trigger]
                final(self).memory(p, b) == if p == pid && b == base {
                    Some(bytes@)
                } else {
                    old(self).memory(p, b)
                },
            final(self).listings() == old(self).listings(),
            final(self).readings() == old(self).readings(),
    {
        self.reads.insert((pid, base), bytes);
    }

    /// How often regions were asked for.
    pub fn enumerate_calls(&self) -> (r: u64)
        ensures
            r == self.listings(),
    {
        self.enumerate_calls
    }

    /// How often memory was asked for.
    pub fn read_calls(&self) -> (r: u64)
        ensures
            r == self.readings(),
    {
        self.read_calls
    }

    /// The agent's own process.
    pub fn self_pid(&self) -> (r: u32)
        ensures
            r == self.own(),
    {
        self.self_pid
    }

    /// The regions of `pid`; none for the agent's own process.
    pub fn enumerate(&mut self, pid: u32) -> (r: Result<Vec<MemoryRegion>, ScanError>)
        ensures
            r is Ok,
            r->Ok_0@ == if pid == old(self).own() {
                Seq::empty()
            } else {
                old(self).canned(pid)
            },
            final(self).same_contents(old(self)),
            final(self).listings() == wrapping_succ(old(self).listings()),
            final(self).readings() == old(self).readings(),
    {
        self.enumerate_calls = count_up(self.enumerate_calls);
        if pid == self.self_pid {
            return Ok(Vec::new());
        }
        match self.regions.get(&pid) {
            Some(regions) => {
                let v = regions.clone();
                assert(v@ =~= regions@);
                Ok(v)
            },
            None => Ok(Vec::new()),
        }
    }

    /// Copies the memory of `pid` at `base` to `buf`, as far as there is
    /// any, it was asked for and there is room. The agent's own memory is
    /// refused.
    pub fn read(&mut self, pid: u32, base: u64, len: usize, buf: &mut [u8]) -> (r: Result<
        usize,
        ScanError,
    >)
        ensures
            final(self).same_contents(old(self)),
            final(self).listings() == old(self).listings(),
            final(self).readings() == wrapping_succ(old(self).readings()),
            final(buf)@.len() == old(buf)@.len(),
            match r {
                Err(e) => pid == old(self).own() && e.kind == ScanErrorKind::PermissionDenied
                    && e.message@ == "mock: refusing to read the agent's own memory"@ && final(buf)@
                    == old(buf)@,
                Ok(n) => pid != old(self).own() && match old(self).memory(pid, base) {
                    Some(m) => {
                        &&& n <= len && n <= old(buf)@.len() && n <= m.len()
                        &&& n == len || n == old(buf)@.len() || n == m.len()
                        &&& forall|i: int| 0 <= i < n ==> #[trigger] final(buf)@[i] == m[i]
                        &&& forall|i: int|
                            n <= i < old(buf)@.len() ==> #[trigger] final(buf)@[i] == old(buf)@[i]
                    },
                    None => n == 0 && final(buf)@ == old(buf)@,
                },
            },
    {
        self.read_calls = count_up(self.read_calls);
        if pid == self.self_pid {
            return Err(
                scan_error(
                    ScanErrorKind::PermissionDenied,
                    "mock: refusing to read the agent's own memory",
                ),
            );
        }
        match self.reads.get(&(pid, base)) {
            Some(m) => {
                let room: usize = buf.len();
                let mut cap: usize = len;
                if room < cap {
                    cap = room;
                }
                if m.len() < cap {
                    cap = m.len();
                }
                let mut i: usize = 0;
                while i < cap
                    invariant
                        i <= cap,
                        cap <= m@.len(),
                        cap <= buf@.len(),
                        buf@.len() == old(buf)@.len(),
                        forall|k: int| 0 <= k < i ==> #[trigger] buf@[k] == m@[k],
                        forall|k: int| i <= k < buf@.len() ==> #[trigger] buf@[k] == old(buf)@[k],
                    decreases cap - i,
                {
                    buf[i] = m[i];
                    i += 1;
                }
                Ok(cap)
            },
            None => Ok(0),
        }
    }
}

} // verus!
