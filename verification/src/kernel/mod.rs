//! Kernel backends: the events that a kernel component reports, and the
//! channel that brings them.

pub mod linux_ebpf;
pub mod macos;
pub mod windows;

use crate::text::{
    chars_of, gather, lemma_gather_step, lemma_views_push, octet_pieces, octet_pieces_of,
    octet_views, string_of, trim, trimmed, utf8_text, views,
};
use std::collections::VecDeque;
use vstd::prelude::*;
use vstd::string::*;

verus! {

/// Transport protocol of a connection.
#[derive(Debug, Clone, Copy, PartialEq, Eq, Structural)]
pub enum NetworkProtocol {
    Tcp,
    Udp,
}

/// What a kernel component reports.
#[derive(Debug, Clone, PartialEq, Eq)]
pub enum KernelEvent {
    /// A process was started. The path of its image may be missing.
    ProcessCreated { pid: u32, ppid: u32, uid: u32, image_path: Option<String> },
    /// A process has ended.
    ProcessExited { pid: u32, exit_code: i32 },
    /// A connection outward was begun.
    NetworkConnect {
        pid: u32,
        protocol: NetworkProtocol,
        local_addr: String,
        local_port: u16,
        remote_addr: String,
        remote_port: u16,
    },
}

/// The channel between a kernel component and the agent.
pub trait KernelChannel {
    /// Whether the kernel component is loaded.
    fn is_attached(&self) -> bool;

    /// The next event, if there is one.
    fn try_recv(&mut self) -> Option<KernelEvent>;
}

/// Why a kernel component could not be reached.
#[derive(Debug, PartialEq, Eq)]
pub enum AttachError {
    NotPresent(String),
    Privilege(String),
    Io(String),
}

/// Outcome of an attempt to reach a kernel component.
pub type AttachResult<T> = Result<T, AttachError>;

impl AttachError {
    /// The text that describes the error.
    pub open spec fn text(self) -> Seq<char> {
        match self {
            AttachError::NotPresent(e) => "kernel publisher not present: "@ + e@,
            AttachError::Privilege(e) => "insufficient privilege: "@ + e@,
            AttachError::Io(e) => "kernel channel io error: "@ + e@,
        }
    }

    /// Describes the error.
    pub fn message(&self) -> (r: String)
        ensures
            r@ == self.text(),
    {
        match self {
            AttachError::NotPresent(e) => "kernel publisher not present: ".to_owned().concat(
                e.as_str(),
            ),
            AttachError::Privilege(e) => "insufficient privilege: ".to_owned().concat(e.as_str()),
            AttachError::Io(e) => "kernel channel io error: ".to_owned().concat(e.as_str()),
        }
    }
}

// ---------------------------------------------------------------------
// Records
// ---------------------------------------------------------------------

/// The record on a line: the line without blanks around it. A line that is
/// blank or not UTF-8 holds none.
pub open spec fn record_on(line: Seq<u8>) -> Option<Seq<char>> {
    if vstd::utf8::valid_utf8(line) {
        let t = trimmed(vstd::utf8::decode_utf8(line));
        if t.len() > 0 {
            Some(t)
        } else {
            None
        }
    } else {
        None
    }
}

/// Reads a line, for use with `gather`.
pub open spec fn record_reader() -> spec_fn(Seq<u8>) -> Option<Seq<char>> {
    |line: Seq<u8>| record_on(line)
}

/// The records of a stream that has one on each line.
pub open spec fn records_of(input: Seq<u8>) -> Seq<Seq<char>> {
    gather(octet_pieces_of(input, 0x0a), record_reader())
}

/// Splits a stream into its records.
pub fn record_lines(input: &[u8]) -> (r: Vec<String>)
    ensures
        views(r@) == records_of(input@),
{
    let all = octet_pieces(input, 0x0a);
    let ghost want = octet_views(all@);
    let ghost reader = record_reader();
    let mut out: Vec<String> = Vec::new();
    let mut i: usize = 0;
    assert(want.take(0) =~= Seq::empty());
    assert(views(out@) =~= gather(want.take(0), reader));
    while i < all.len()
        invariant
            i <= all@.len(),
            want == octet_views(all@),
            reader == record_reader(),
            views(out@) == gather(want.take(i as int), reader),
        decreases all@.len() - i,
    {
        let ghost before = out@;
        proof {
            lemma_gather_step(want, reader, i as int);
            assert(want[i as int] == all@[i as int]@);
        }
        match utf8_text(all[i]) {
            Some(line) => {
                let chars = chars_of(line);
                let t = trim(chars.as_slice());
                if t.len() > 0 {
                    let s = string_of(t);
                    out.push(s);
                    proof {
                        lemma_views_push(before, s);
                    }
                }
            },
            None => {},
        }
        i += 1;
    }
    assert(want.take(i as int) =~= want);
    out
}

// ---------------------------------------------------------------------
// Channel for tests
// ---------------------------------------------------------------------

/// What a channel for tests holds.
#[derive(Debug)]
pub struct MockState {
    pub attached: bool,
    pub queue: VecDeque<KernelEvent>,
}

impl MockState {
    /// A channel without a kernel component and without events.
    pub fn new() -> (r: MockState)
        ensures
            !r.attached,
            r.queue@ == Seq::<KernelEvent>::empty(),
    {
        MockState { attached: false, queue: VecDeque::new() }
    }

    /// Takes the oldest event.
    pub fn take(&mut self) -> (r: Option<KernelEvent>)
        ensures
            final(self).attached == old(self).attached,
            match r {
                Some(e) => {
                    &&& old(self).queue@.len() > 0
                    &&& e == old(self).queue@[0]
                    &&& final(self).queue@ == old(self).queue@.drop_first()
                },
                None => old(self).queue@.len() == 0 && final(self).queue@ == old(self).queue@,
            },
    {
        self.queue.pop_front()
    }
}

/// A queue after an event was put in.
pub open spec fn queue_put(q: Seq<KernelEvent>, e: KernelEvent) -> Seq<KernelEvent> {
    q.push(e)
}

/// A queue from which all events were taken gives back what was put in, in
/// that order: the event put in after `q` comes after all of `q`.
pub proof fn law_events_come_in_order(q: Seq<KernelEvent>, e: KernelEvent)
    ensures
        q.len() > 0 ==> queue_put(q, e)[0] == q[0] && queue_put(q, e).drop_first() == queue_put(
            q.drop_first(),
            e,
        ),
        q.len() == 0 ==> queue_put(q, e)[0] == e && queue_put(q, e).drop_first() == q,
{
    if q.len() > 0 {
        assert(queue_put(q, e).drop_first() =~= queue_put(q.drop_first(), e));
    } else {
        assert(queue_put(q, e).drop_first() =~= q);
    }
}

} // verus!
