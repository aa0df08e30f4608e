//! The host as a memory scan sees it: its processes, their memory, what finds
//! something in it and what takes the alerts. Everything that a scan asks of
//! these is kept on record together with the reply, so that a scan can be
//! judged by what it asked.

use vstd::prelude::*;

use crate::memory_module::{
    AlertDraft, AlertSink, MemoryMatch, MemoryMatcher, MemoryScanner, ProcessHandle, ProcessLister,
};
use crate::memory_scanner::{MemoryRegion, ScanError};

verus! {

/// One question of a scan and its reply; `None` stands for an error.
pub enum Asked {
    /// The running processes.
    List { processes: Option<Seq<ProcessHandle>> },
    /// The regions of a process.
    Enumerate { pid: u32, regions: Option<Seq<MemoryRegion>> },
    /// At most `len` octets of a process from `base` on.
    Read { pid: u32, base: u64, len: usize, got: Option<Seq<u8>> },
    /// What the octets read of a region hold.
    Match { pid: u32, region: MemoryRegion, bytes: Seq<u8>, hits: Seq<MemoryMatch> },
    /// That an alert be published.
    Raise { draft: AlertDraft, published: bool },
}

impl Asked {
    /// The process that is asked about.
    pub open spec fn about(self) -> Option<u32> {
        match self {
            Asked::List { .. } => None,
            Asked::Enumerate { pid, .. } => Some(pid),
            Asked::Read { pid, .. } => Some(pid),
            Asked::Match { pid, .. } => Some(pid),
            Asked::Raise { draft, .. } => Some(draft.pid),
        }
    }
}

/// What a reply has shown.
pub open spec fn shown<T>(r: Result<Vec<T>, ScanError>) -> Option<Seq<T>> {
    match r {
        Ok(v) => Some(v@),
        Err(_) => None,
    }
}

/// How many stretches of memory went to the matcher.
pub open spec fn matched(asked: Seq<Asked>) -> nat
    decreases asked.len(),
{
    if asked.len() == 0 {
        0
    } else if asked.last() is Match {
        matched(asked.drop_last()) + 1
    } else {
        matched(asked.drop_last())
    }
}

/// How many alerts were published, or could not be.
pub open spec fn raised(asked: Seq<Asked>, published: bool) -> nat
    decreases asked.len(),
{
    if asked.len() == 0 {
        0
    } else if asked.last() is Raise && asked.last()->published == published {
        raised(asked.drop_last(), published) + 1
    } else {
        raised(asked.drop_last(), published)
    }
}

/// What two records hold is what both hold together.
pub proof fn lemma_records_add(a: Seq<Asked>, b: Seq<Asked>)
    ensures
        matched(a + b) == matched(a) + matched(b),
        raised(a + b, true) == raised(a, true) + raised(b, true),
        raised(a + b, false) == raised(a, false) + raised(b, false),
    decreases b.len(),
{
    if b.len() == 0 {
        assert(a + b =~= a);
    } else {
        lemma_records_add(a, b.drop_last());
        assert((a + b).drop_last() =~= a + b.drop_last());
        assert((a + b).last() == b.last());
    }
}

/// The parts of a host that a scan works with. They can be reached only
/// through the questions below, each of which goes on record.
pub struct ScanHost<S, L, M, A> {
    scanner: S,
    lister: L,
    matcher: M,
    sink: A,
    record: Ghost<Seq<Asked>>,
}

impl<S: MemoryScanner, L: ProcessLister, M: MemoryMatcher, A: AlertSink> ScanHost<S, L, M, A> {
    /// The scanner as it stands.
    pub closed spec fn scanner_now(&self) -> S {
        self.scanner
    }

    /// The lister as it stands.
    pub closed spec fn lister_now(&self) -> L {
        self.lister
    }

    /// The matcher as it stands.
    pub closed spec fn matcher_now(&self) -> M {
        self.matcher
    }

    /// The sink as it stands.
    pub closed spec fn sink_now(&self) -> A {
        self.sink
    }

    /// All questions so far, in order.
    pub closed spec fn asked(&self) -> Seq<Asked> {
        self.record@
    }

    /// The agent's own process.
    pub open spec fn own(&self) -> u32 {
        self.scanner_now().own()
    }

    /// A host of which nothing has been asked yet.
    pub fn new(scanner: S, lister: L, matcher: M, sink: A) -> (r: ScanHost<S, L, M, A>)
        ensures
            r.scanner_now() == scanner,
            r.lister_now() == lister,
            r.matcher_now() == matcher,
            r.sink_now() == sink,
            r.asked() == Seq::<Asked>::empty(),
    {
        ScanHost { scanner, lister, matcher, sink, record: Ghost(Seq::empty()) }
    }

    /// The scanner as it stands.
    pub fn scanner(&self) -> (r: &S)
        ensures
            *r == self.scanner_now(),
    {
        &self.scanner
    }

    /// The matcher as it stands.
    pub fn matcher(&self) -> (r: &M)
        ensures
            *r == self.matcher_now(),
    {
        &self.matcher
    }

    /// The sink as it stands.
    pub fn sink(&self) -> (r: &A)
        ensures
            *r == self.sink_now(),
    {
        &self.sink
    }

    /// Gives the parts back.
    pub fn into_parts(self) -> (r: (S, L, M, A))
        ensures
            r.0 == self.scanner_now(),
            r.1 == self.lister_now(),
            r.2 == self.matcher_now(),
            r.3 == self.sink_now(),
    {
        (self.scanner, self.lister, self.matcher, self.sink)
    }

    /// The agent's own process.
    pub fn self_pid(&self) -> (r: u32)
        ensures
            r == self.own(),
    {
        self.scanner.self_pid()
    }

    /// Asks the lister for the running processes.
    pub fn list(&mut self) -> (r: Result<Vec<ProcessHandle>, ScanError>)
        ensures
            final(self).asked() == old(self).asked().push(Asked::List { processes: shown(r) }),
            final(self).scanner_now() == old(self).scanner_now(),
            final(self).lister_now() == old(self).lister_now(),
            final(self).matcher_now() == old(self).matcher_now(),
            final(self).sink_now() == old(self).sink_now(),
            call_ensures(L::list, (&old(self).lister_now(),), r),
    {
        let r = self.lister.list();
        proof {
            self.record@ = self.record@.push(Asked::List { processes: shown(r) });
        }
        r
    }

    /// Asks the scanner for the regions of `pid`.
    pub fn enumerate(&mut self, pid: u32) -> (r: Result<Vec<MemoryRegion>, ScanError>)
        ensures
            final(self).asked() == old(self).asked().push(Asked::Enumerate { pid, regions: shown(r) }),
            final(self).own() == old(self).own(),
            final(self).lister_now() == old(self).lister_now(),
            final(self).matcher_now() == old(self).matcher_now(),
            final(self).sink_now() == old(self).sink_now(),
            exists|s: &mut S| #![trigger call_ensures(S::enumerate, (s, pid), r)]
                {
                    &&& *s == old(self).scanner_now()
                    &&& *final(s) == final(self).scanner_now()
                    &&& call_ensures(S::enumerate, (s, pid), r)
                },
    {
        let r = self.scanner.enumerate(pid);
        proof {
            self.record@ = self.record@.push(Asked::Enumerate { pid, regions: shown(r) });
        }
        r
    }

    /// Asks the scanner for `len` octets of `pid` at `base`. It is handed a
    /// buffer of `len` zeros; what it says to have filled comes back.
    pub fn read(&mut self, pid: u32, base: u64, len: usize) -> (r: Result<Vec<u8>, ScanError>)
        ensures
            final(self).asked() == old(self).asked().push(
                Asked::Read { pid, base, len, got: shown(r) },
            ),
            final(self).own() == old(self).own(),
            final(self).lister_now() == old(self).lister_now(),
            final(self).matcher_now() == old(self).matcher_now(),
            final(self).sink_now() == old(self).sink_now(),
            r is Ok ==> r->Ok_0@.len() <= len,
            exists|s: &mut S, b: &mut [u8], told: Result<usize, ScanError>|
                #![trigger call_ensures(S::read, (s, pid, base, len, b), told)]
                {
                    &&& *s == old(self).scanner_now()
                    &&& *final(s) == final(self).scanner_now()
                    &&& (*b)@ == Seq::new(len as nat, |i: int| 0u8)
                    &&& call_ensures(S::read, (s, pid, base, len, b), told)
                    &&& match told {
                        Ok(n) => r is Ok && r->Ok_0@ == (if n < len {
                            (*final(b))@.take(n as int)
                        } else {
                            (*final(b))@
                        }),
                        Err(e) => r == Err::<Vec<u8>, ScanError>(e),
                    }
                },
    {
        let mut buf: Vec<u8> = vec![0u8; len];
        assert(buf@ =~= Seq::new(len as nat, |i: int| 0u8));
        let told = self.scanner.read(pid, base, len, buf.as_mut_slice());
        let r = match told {
            Ok(n) => {
                buf.truncate(n);
                Ok(buf)
            },
            Err(e) => Err(e),
        };
        proof {
            self.record@ = self.record@.push(Asked::Read { pid, base, len, got: shown(r) });
        }
        r
    }

    /// Asks the matcher what `bytes`, read of a region of `pid`, hold.
    pub fn match_bytes(&mut self, pid: u32, region: &MemoryRegion, bytes: &[u8]) -> (r: Vec<MemoryMatch>)
        ensures
            final(self).asked() == old(self).asked().push(
                Asked::Match { pid, region: *region, bytes: bytes@, hits: r@ },
            ),
            final(self).scanner_now() == old(self).scanner_now(),
            final(self).lister_now() == old(self).lister_now(),
            final(self).sink_now() == old(self).sink_now(),
            exists|m: &mut M| #![trigger call_ensures(M::match_bytes, (m, pid, region, bytes), r)]
                {
                    &&& *m == old(self).matcher_now()
                    &&& *final(m) == final(self).matcher_now()
                    &&& call_ensures(M::match_bytes, (m, pid, region, bytes), r)
                },
    {
        let r = self.matcher.match_bytes(pid, region, bytes);
        proof {
            self.record@ = self.record@.push(
                Asked::Match { pid, region: *region, bytes: bytes@, hits: r@ },
            );
        }
        r
    }

    /// Has the sink publish an alert, and tells whether that went well.
    pub fn raise(&mut self, draft: AlertDraft) -> (r: bool)
        ensures
            final(self).asked() == old(self).asked().push(Asked::Raise { draft, published: r }),
            final(self).scanner_now() == old(self).scanner_now(),
            final(self).lister_now() == old(self).lister_now(),
            final(self).matcher_now() == old(self).matcher_now(),
            exists|a: &mut A| #![trigger call_ensures(A::raise, (a, draft), r)]
                {
                    &&& *a == old(self).sink_now()
                    &&& *final(a) == final(self).sink_now()
                    &&& call_ensures(A::raise, (a, draft), r)
                },
    {
        let ghost raised = draft;
        let r = self.sink.raise(draft);
        proof {
            self.record@ = self.record@.push(Asked::Raise { draft: raised, published: r });
        }
        r
    }
}

} // verus!
