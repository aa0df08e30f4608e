//! Kernel backend of macOS hosts.

use crate::kernel::{
    queue_put, record_lines, records_of, AttachError, AttachResult, KernelChannel, KernelEvent,
    MockState,
};
use crate::text::views;
use vstd::prelude::*;
use vstd::string::*;

verus! {

/// The records that the system extension sent, each the text of one JSON
/// object.
pub fn parse_xpc_records(input: &[u8]) -> (r: Vec<String>)
    ensures
        views(r@) == records_of(input@),
{
    record_lines(input)
}

/// Stands for the port of the system extension in tests.
#[derive(Debug)]
pub struct MockMacosKernelChannel {
    inner: MockState,
}

impl MockMacosKernelChannel {
    /// Whether the kernel component counts as loaded.
    pub closed spec fn attached(&self) -> bool {
        self.inner.attached
    }

    /// The events that wait, the oldest first.
    pub closed spec fn queue(&self) -> Seq<KernelEvent> {
        self.inner.queue@
    }

    /// A channel without a kernel component and without events.
    pub fn new() -> (r: MockMacosKernelChannel)
        ensures
            !r.attached(),
            r.queue() == Seq::<KernelEvent>::empty(),
    {
        MockMacosKernelChannel { inner: MockState::new() }
    }

    /// Says whether the kernel component counts as loaded.
    pub fn set_attached(&mut self, attached: bool)
        ensures
            final(self).attached() == attached,
            final(self).queue() == old(self).queue(),
    {
        self.inner.attached = attached;
    }

    /// Puts an event in.
    pub fn push(&mut self, ev: KernelEvent)
        ensures
            final(self).attached() == old(self).attached(),
            final(self).queue() == queue_put(old(self).queue(), ev),
    {
        self.inner.queue.push_back(ev);
    }

    /// Number of events that wait.
    pub fn pending(&self) -> (r: usize)
        ensures
            r == self.queue().len(),
    {
        self.inner.queue.len()
    }
}

impl KernelChannel for MockMacosKernelChannel {
    fn is_attached(&self) -> (r: bool)
        ensures
            r == self.attached(),
    {
        self.inner.attached
    }

    fn try_recv(&mut self) -> (r: Option<KernelEvent>)
        ensures
            final(self).attached() == old(self).attached(),
            match r {
                Some(e) => {
                    &&& old(self).queue().len() > 0
                    &&& e == old(self).queue()[0]
                    &&& final(self).queue() == old(self).queue().drop_first()
                },
                None => old(self).queue().len() == 0 && final(self).queue() == old(self).queue(),
            },
    {
        self.inner.take()
    }
}

impl Default for MockMacosKernelChannel {
    fn default() -> (r: Self)
        ensures
            !r.attached(),
            r.queue() == Seq::<KernelEvent>::empty(),
    {
        MockMacosKernelChannel::new()
    }
}

/// Reaches the system extension, which this build lacks.
pub fn attach_to_system_extension() -> (r: AttachResult<()>)
    ensures
        r is Err,
        r->Err_0 is NotPresent,
        r->Err_0->NotPresent_0@ == "kernel-macos feature not enabled"@,
{
    Err(AttachError::NotPresent("kernel-macos feature not enabled".to_owned()))
}

} // verus!
