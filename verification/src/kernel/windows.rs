//! Kernel backend of Windows hosts.

use crate::kernel::{
    queue_put, record_on, AttachError, AttachResult, KernelChannel, KernelEvent, MockState,
};
use crate::text::{
    chars_of, gather, lemma_gather_step, octet_pieces, octet_pieces_of, octet_views, opt_view,
    string_of, trim, utf8_text,
};
use vstd::prelude::*;
use vstd::string::*;

verus! {

/// The record on a line of the pipe, if the line is not blank; `None` stands
/// for a record that is not UTF-8.
pub open spec fn pipe_record_on(line: Seq<u8>) -> Option<Option<Seq<char>>> {
    if !vstd::utf8::valid_utf8(line) {
        Some(None)
    } else {
        match record_on(line) {
            Some(t) => Some(Some(t)),
            None => None,
        }
    }
}

/// Reads a line of the pipe, for use with `gather`.
pub open spec fn pipe_reader() -> spec_fn(Seq<u8>) -> Option<Option<Seq<char>>> {
    |line: Seq<u8>| pipe_record_on(line)
}

/// The contents of a list of records.
pub open spec fn record_views(v: Seq<Option<String>>) -> Seq<Option<Seq<char>>> {
    v.map_values(|r: Option<String>| opt_view(r))
}

/// The records that came over the named pipe, each the text of one JSON
/// object, or `None` where a record is not UTF-8. Blank lines hold none.
pub fn parse_pipe_records(input: &[u8]) -> (r: Vec<Option<String>>)
    ensures
        record_views(r@) == gather(octet_pieces_of(input@, 0x0a), pipe_reader()),
{
    let all = octet_pieces(input, 0x0a);
    let ghost want = octet_views(all@);
    let ghost reader = pipe_reader();
    let mut out: Vec<Option<String>> = Vec::new();
    let mut i: usize = 0;
    assert(want.take(0) =~= Seq::empty());
    assert(record_views(out@) =~= gather(want.take(0), reader));
    while i < all.len()
        invariant
            i <= all@.len(),
            want == octet_views(all@),
            reader == pipe_reader(),
            record_views(out@) == gather(want.take(i as int), reader),
        decreases all@.len() - i,
    {
        let ghost before = out@;
        proof {
            lemma_gather_step(want, reader, i as int);
            assert(want[i as int] == all@[i as int]@);
        }
        match utf8_text(all[i]) {
            Some(line) => {
                let chars = chars_of(line);
                let t = trim(chars.as_slice());
                if t.len() > 0 {
                    out.push(Some(string_of(t)));
                    assert(record_views(out@) =~= record_views(before).push(Some(t@)));
                }
            },
            None => {
                out.push(None);
                assert(record_views(out@) =~= record_views(before).push(None));
            },
        }
        i += 1;
    }
    assert(want.take(i as int) =~= want);
    out
}

/// Stands for the named pipe in tests.
#[derive(Debug)]
pub struct MockWindowsKernelChannel {
    inner: MockState,
}

impl MockWindowsKernelChannel {
    /// Whether the kernel component counts as loaded.
    pub closed spec fn attached(&self) -> bool {
        self.inner.attached
    }

    /// The events that wait, the oldest first.
    pub closed spec fn queue(&self) -> Seq<KernelEvent> {
        self.inner.queue@
    }

    /// A channel without a kernel component and without events.
    pub fn new() -> (r: MockWindowsKernelChannel)
        ensures
            !r.attached(),
            r.queue() == Seq::<KernelEvent>::empty(),
    {
        MockWindowsKernelChannel { inner: MockState::new() }
    }

    /// Says whether the kernel component counts as loaded.
    pub fn set_attached(&mut self, attached: bool)
        ensures
            final(self).attached() == attached,
            final(self).queue() == old(self).queue(),
    {
        self.inner.attached = attached;
    }

    /// Puts an event in.
    pub fn push(&mut self, ev: KernelEvent)
        ensures
            final(self).attached() == old(self).attached(),
            final(self).queue() == queue_put(old(self).queue(), ev),
    {
        self.inner.queue.push_back(ev);
    }

    /// Number of events that wait.
    pub fn pending(&self) -> (r: usize)
        ensures
            r == self.queue().len(),
    {
        self.inner.queue.len()
    }
}

impl KernelChannel for MockWindowsKernelChannel {
    fn is_attached(&self) -> (r: bool)
        ensures
            r == self.attached(),
    {
        self.inner.attached
    }

    fn try_recv(&mut self) -> (r: Option<KernelEvent>)
        ensures
            final(self).attached() == old(self).attached(),
            match r {
                Some(e) => {
                    &&& old(self).queue().len() > 0
                    &&& e == old(self).queue()[0]
                    &&& final(self).queue() == old(self).queue().drop_first()
                },
                None => old(self).queue().len() == 0 && final(self).queue() == old(self).queue(),
            },
    {
        self.inner.take()
    }
}

impl Default for MockWindowsKernelChannel {
    fn default() -> (r: Self)
        ensures
            !r.attached(),
            r.queue() == Seq::<KernelEvent>::empty(),
    {
        MockWindowsKernelChannel::new()
    }
}

/// Reaches the driver, which this build lacks.
pub fn attach_to_named_pipe() -> (r: AttachResult<()>)
    ensures
        r is Err,
        r->Err_0 is NotPresent,
        r->Err_0->NotPresent_0@ == "kernel-windows feature not enabled"@,
{
    Err(AttachError::NotPresent("kernel-windows feature not enabled".to_owned()))
}

} // verus!
