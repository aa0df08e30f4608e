//! Bounded queue between the producer of events and their consumer.

use std::collections::VecDeque;
use vstd::prelude::*;

verus! {

/// Events that wait to be received, oldest first, and how many were lost
/// because there was no room.
#[derive(Debug)]
pub struct EventStream<T> {
    waiting: VecDeque<T>,
    capacity: usize,
    dropped: u64,
}

impl<T> View for EventStream<T> {
    type V = Seq<T>;

    closed spec fn view(&self) -> Seq<T> {
        self.waiting@
    }
}

/// `waiting` after `ev` has come in: the oldest event makes room.
pub open spec fn enqueued<T>(waiting: Seq<T>, room: nat, ev: T) -> Seq<T> {
    if waiting.len() >= room {
        waiting.drop_first().push(ev)
    } else {
        waiting.push(ev)
    }
}

/// How many events are lost once another has come in while `waiting` of them
/// wait.
pub open spec fn lost_after(lost: u64, waiting: nat, room: nat) -> u64 {
    if waiting < room {
        lost
    } else {
        wrapping_succ(lost)
    }
}

impl<T> EventStream<T> {
    /// How many events can wait.
    pub closed spec fn room(&self) -> nat {
        self.capacity as nat
    }

    /// How many events were lost.
    pub closed spec fn lost(&self) -> u64 {
        self.dropped
    }

    /// No more events wait than there is room for.
    pub open spec fn wf(&self) -> bool {
        &&& self.room() >= 1
        &&& self@.len() <= self.room()
    }

    /// An empty stream with room for `capacity` events.
    pub fn from_parts(capacity: usize, dropped: u64) -> (r: EventStream<T>)
        requires
            capacity >= 1,
        ensures
            r.wf(),
            r@ == Seq::<T>::empty(),
            r.room() == capacity,
            r.lost() == dropped,
    {
        EventStream { waiting: VecDeque::new(), capacity, dropped }
    }

    /// Adds an event. Where there is no room, the oldest event is lost and
    /// counted.
    pub fn send(&mut self, ev: T)
        requires
            old(self).wf(),
        ensures
            final(self).wf(),
            final(self).room() == old(self).room(),
            final(self)@ == enqueued(old(self)@, old(self).room(), ev),
            final(self).lost() == lost_after(old(self).lost(), old(self)@.len(), old(self).room()),
    {
        if self.waiting.len() >= self.capacity {
            let gone = self.waiting.pop_front();
            self.dropped = self.dropped.wrapping_add(1);
        }
        self.waiting.push_back(ev);
    }

    /// Takes the oldest event, if any waits.
    pub fn recv(&mut self) -> (r: Option<T>)
        requires
            old(self).wf(),
        ensures
            final(self).wf(),
            final(self).room() == old(self).room(),
            final(self).lost() == old(self).lost(),
            match r {
                Some(ev) => old(self)@.len() > 0 && ev == old(self)@[0] && final(self)@
                    == old(self)@.drop_first(),
                None => old(self)@.len() == 0 && final(self)@ == old(self)@,
            },
    {
        let r = self.waiting.pop_front();
        assert(r is Some ==> self.waiting@ =~= old(self).waiting@.drop_first());
        r
    }

    /// How many events were lost because there was no room.
    pub fn dropped_count(&self) -> (r: u64)
        ensures
            r == self.lost(),
    {
        self.dropped
    }
}

/// The next value of a counter that wraps around.
pub open spec fn wrapping_succ(n: u64) -> u64 {
    if n == u64::MAX {
        0
    } else {
        (n + 1) as u64
    }
}

/// Adds one to a counter that wraps around.
pub fn count_up(n: u64) -> (r: u64)
    ensures
        r == wrapping_succ(n),
{
    n.wrapping_add(1)
}

/// `waiting` after a run of events.
pub open spec fn enqueued_all<T>(waiting: Seq<T>, room: nat, evs: Seq<T>) -> Seq<T>
    decreases evs.len(),
{
    if evs.len() == 0 {
        waiting
    } else {
        enqueued(enqueued_all(waiting, room, evs.drop_last()), room, evs.last())
    }
}

/// How many events are lost after a run of events.
pub open spec fn lost_after_all<T>(lost: u64, waiting: Seq<T>, room: nat, evs: Seq<T>) -> u64
    decreases evs.len(),
{
    if evs.len() == 0 {
        lost
    } else {
        let front = evs.drop_last();
        lost_after(
            lost_after_all(lost, waiting, room, front),
            enqueued_all(waiting, room, front).len(),
            room,
        )
    }
}

/// Events that fit are received in the order in which they were sent.
pub proof fn law_events_keep_their_order<T>(waiting: Seq<T>, room: nat, evs: Seq<T>)
    requires
        waiting.len() + evs.len() <= room,
    ensures
        enqueued_all(waiting, room, evs) == waiting + evs,
    decreases evs.len(),
{
    if evs.len() > 0 {
        law_events_keep_their_order(waiting, room, evs.drop_last());
        assert(enqueued_all(waiting, room, evs) =~= waiting + evs);
    } else {
        assert(waiting + evs =~= waiting);
    }
}

/// When events overrun the stream, the latest ones are those that wait.
pub proof fn law_latest_events_survive<T>(waiting: Seq<T>, room: nat, evs: Seq<T>)
    requires
        1 <= room,
        waiting.len() <= room,
        waiting.len() + evs.len() >= room,
    ensures
        enqueued_all(waiting, room, evs) == (waiting + evs).skip(waiting.len() + evs.len() - room),
    decreases evs.len(),
{
    if waiting.len() + evs.len() == room {
        law_events_keep_their_order(waiting, room, evs);
        assert((waiting + evs).skip(0) =~= waiting + evs);
    } else {
        let front = evs.drop_last();
        law_latest_events_survive(waiting, room, front);
        assert(enqueued_all(waiting, room, evs) =~= (waiting + evs).skip(
            waiting.len() + evs.len() - room,
        ));
    }
}

/// A run of events loses as many as it overruns the free room by, and the
/// count tells so until it wraps around.
pub proof fn law_overrun_is_counted<T>(lost: u64, waiting: Seq<T>, room: nat, evs: Seq<T>)
    requires
        1 <= room,
        waiting.len() <= room,
    ensures
        lost_after_all(lost, waiting, room, evs) as int == if waiting.len() + evs.len() <= room {
            lost as int
        } else {
            (lost + (evs.len() - (room - waiting.len()))) % 0x1_0000_0000_0000_0000
        },
    decreases evs.len(),
{
    if evs.len() > 0 {
        let front = evs.drop_last();
        law_overrun_is_counted(lost, waiting, room, front);
        if waiting.len() + front.len() <= room {
            law_events_keep_their_order(waiting, room, front);
        } else {
            law_latest_events_survive(waiting, room, front);
        }
    }
}

} // verus!
