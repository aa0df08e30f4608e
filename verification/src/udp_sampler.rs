//! Rate limit on the events of high-rate UDP flows.

use crate::network_monitor::{ConnKey, NetworkEvent, TransportProtocol};
use std::collections::HashSet;
use vstd::prelude::*;

verus! {

/// How many events of one UDP flow are let through in one second.
pub const UDP_SAMPLE_PER_SECOND: u32 = 4;

/// The events of one flow in one second.
#[derive(Debug, Clone, Copy, PartialEq, Eq, Structural)]
struct UdpBucket {
    flow: ConnKey,
    second: i64,
    count: u32,
}

/// Counts the events of each UDP flow second by second.
#[derive(Debug)]
pub struct UdpSampler {
    buckets: Vec<UdpBucket>,
    seen: HashSet<i64>,
}

spec fn count_in(b: Seq<UdpBucket>, flow: ConnKey, second: i64) -> nat
    decreases b.len(),
{
    if b.len() == 0 {
        0
    } else {
        let front = count_in(b.drop_last(), flow, second);
        if b.last().flow == flow && b.last().second == second {
            front + b.last().count as nat
        } else {
            front
        }
    }
}

spec fn unique(b: Seq<UdpBucket>) -> bool {
    forall|i: int, j: int|
        0 <= i < j < b.len() ==> !(#[trigger] b[i].flow == #[trigger] b[j].flow && b[i].second
            == b[j].second)
}

proof fn lemma_count_absent(b: Seq<UdpBucket>, flow: ConnKey, second: i64)
    requires
        forall|i: int| 0 <= i < b.len() ==> !(#[trigger] b[i].flow == flow && b[i].second == second),
    ensures
        count_in(b, flow, second) == 0,
    decreases b.len(),
{
    if b.len() > 0 {
        lemma_count_absent(b.drop_last(), flow, second);
        assert(b.last() == b[b.len() - 1]);
    }
}

proof fn lemma_count_present(b: Seq<UdpBucket>, i: int)
    requires
        unique(b),
        0 <= i < b.len(),
    ensures
        count_in(b, b[i].flow, b[i].second) == b[i].count,
    decreases b.len(),
{
    if i == b.len() - 1 {
        lemma_count_absent(b.drop_last(), b[i].flow, b[i].second);
    } else {
        lemma_count_present(b.drop_last(), i);
        assert(b.last() == b[b.len() - 1]);
    }
}

proof fn lemma_count_update(b: Seq<UdpBucket>, i: int, n: u32)
    requires
        unique(b),
        0 <= i < b.len(),
    ensures
        ({
            let c = b.update(i, UdpBucket { flow: b[i].flow, second: b[i].second, count: n });
            &&& unique(c)
            &&& forall|f: ConnKey, s: i64| #[trigger]
                count_in(c, f, s) == if f == b[i].flow && s == b[i].second {
                    n as nat
                } else {
                    count_in(b, f, s)
                }
        }),
{
    let c = b.update(i, UdpBucket { flow: b[i].flow, second: b[i].second, count: n });
    assert(unique(c));
    assert forall|f: ConnKey, s: i64| #[trigger]
        count_in(c, f, s) == if f == b[i].flow && s == b[i].second {
            n as nat
        } else {
            count_in(b, f, s)
        } by {
        if f == b[i].flow && s == b[i].second {
            lemma_count_present(c, i);
        } else {
            lemma_count_elsewhere(b, c, i, f, s);
        }
    }
}

proof fn lemma_count_elsewhere(b: Seq<UdpBucket>, c: Seq<UdpBucket>, i: int, f: ConnKey, s: i64)
    requires
        b.len() == c.len(),
        0 <= i < b.len(),
        forall|k: int| 0 <= k < b.len() && k != i ==> b[k] == #[trigger] c[k],
        !(b[i].flow == f && b[i].second == s),
        !(c[i].flow == f && c[i].second == s),
    ensures
        count_in(c, f, s) == count_in(b, f, s),
    decreases b.len(),
{
    if i == b.len() - 1 {
        assert(b.drop_last() =~= c.drop_last());
    } else {
        assert(c[b.len() - 1] == b[b.len() - 1]);
        lemma_count_elsewhere(b.drop_last(), c.drop_last(), i, f, s);
    }
}

impl UdpSampler {
    /// Events of `flow` counted in `second`.
    pub closed spec fn count(&self, flow: ConnKey, second: i64) -> nat {
        count_in(self.buckets@, flow, second)
    }

    /// Whether an event of `second` has come in.
    pub closed spec fn saw(&self, second: i64) -> bool {
        self.seen@.contains(second)
    }

    /// Every flow has one counter for each second.
    pub closed spec fn wf(&self) -> bool {
        unique(self.buckets@)
    }

    /// Events of `flow` in `second` that are still counted when an event of
    /// second `now` comes in: the first event of a second drops the counters
    /// that are more than five seconds older.
    pub open spec fn kept(&self, flow: ConnKey, second: i64, now: i64) -> nat {
        if !self.saw(now) && second < now - 5 {
            0
        } else {
            self.count(flow, second)
        }
    }

    /// A sampler that has seen nothing.
    pub fn new() -> (r: UdpSampler)
        ensures
            r.wf(),
            forall|f: ConnKey, s: i64| #[trigger] r.count(f, s) == 0,
            forall|s: i64| !#[trigger] r.saw(s),
    {
        UdpSampler { buckets: Vec::new(), seen: HashSet::new() }
    }

    fn forget_before(&mut self, cutoff: i64)
        requires
            old(self).wf(),
        ensures
            final(self).wf(),
            forall|f: ConnKey, s: i64| #[trigger]
                final(self).count(f, s) == if s < cutoff {
                    0
                } else {
                    old(self).count(f, s)
                },
            forall|s: i64| #[trigger] final(self).saw(s) <==> s >= cutoff && old(self).saw(s),
    {
        let mut keep: Vec<UdpBucket> = Vec::new();
        let mut i: usize = 0;
        let ghost b = self.buckets@;
        assert(b.take(0) =~= Seq::empty());
        while i < self.buckets.len()
            invariant
                i <= self.buckets@.len(),
                *self == *old(self),
                b == self.buckets@,
                unique(b),
                unique(keep@),
                forall|a: int, j: int|
                    0 <= a < keep@.len() && i <= j < b.len() ==> !(#[trigger] keep@[a].flow
                        == #[trigger] b[j].flow && keep@[a].second == b[j].second),
                forall|f: ConnKey, s: i64| #[trigger]
                    count_in(keep@, f, s) == if s < cutoff {
                        0
                    } else {
                        count_in(b.take(i as int), f, s)
                    },
            decreases self.buckets@.len() - i,
        {
            let x = self.buckets[i];
            let ghost prev = keep@;
            assert(b.take(i + 1).drop_last() =~= b.take(i as int));
            if x.second >= cutoff {
                keep.push(x);
                assert(keep@.drop_last() =~= prev);
            }
            assert forall|f: ConnKey, s: i64| #[trigger]
                count_in(keep@, f, s) == if s < cutoff {
                    0
                } else {
                    count_in(b.take(i + 1), f, s)
                } by {
                assert(count_in(prev, f, s) == if s < cutoff {
                    0
                } else {
                    count_in(b.take(i as int), f, s)
                });
            }
            i += 1;
        }
        assert(b.take(i as int) =~= b);
        let mut seconds: HashSet<i64> = HashSet::new();
        let ghost old_seen = self.seen@;
        let ghost mut met: Seq<i64> = Seq::empty();
        for x in it: self.seen.iter()
            invariant
                it.seq().unref().to_set() == old_seen,
                met == it.seq().take(it.index() as int).unref(),
                it.index() == it.seq().len() ==> met == it.seq().unref(),
                forall|s: i64| #[trigger]
                    seconds@.contains(s) <==> s >= cutoff && met.contains(s),
        {
            let ghost before = met;
            if *x >= cutoff {
                seconds.insert(*x);
            }
            proof {
                met = before.push(*x);
                assert(met =~= it.seq().take(it.index() + 1).unref());
                assert forall|s: i64| #[trigger] seconds@.contains(s) <==> s >= cutoff && met.contains(
                    s,
                ) by {
                    lemma_push_contains(before, *x, s);
                }
            }
        }
        assert(met.to_set() =~= old_seen);
        self.buckets = keep;
        self.seen = seconds;
    }

    /// Counts one event of `flow` in `second` and returns the new count.
    fn bump(&mut self, flow: ConnKey, second: i64) -> (n: u32)
        requires
            old(self).wf(),
            old(self).count(flow, second) < u32::MAX,
        ensures
            final(self).wf(),
            n == old(self).count(flow, second) + 1,
            forall|f: ConnKey, s: i64| #[trigger]
                final(self).count(f, s) == if f == flow && s == second {
                    n as nat
                } else {
                    old(self).count(f, s)
                },
            forall|s: i64| #[trigger] final(self).saw(s) == old(self).saw(s),
    {
        let mut i: usize = 0;
        while i < self.buckets.len()
            invariant
                i <= self.buckets@.len(),
                *self == *old(self),
                self.wf(),
                self.count(flow, second) < u32::MAX,
                forall|j: int|
                    0 <= j < i ==> !(#[trigger] self.buckets@[j].flow == flow && self.buckets@[j].second
                        == second),
            decreases self.buckets@.len() - i,
        {
            let x = self.buckets[i];
            if x.flow == flow && x.second == second {
                proof {
                    lemma_count_present(self.buckets@, i as int);
                    lemma_count_update(self.buckets@, i as int, (x.count + 1) as u32);
                }
                let n: u32 = x.count + 1;
                self.buckets.set(i, UdpBucket { flow, second, count: n });
                return n;
            }
            i += 1;
        }
        proof {
            lemma_count_absent(self.buckets@, flow, second);
        }
        self.buckets.push(UdpBucket { flow, second, count: 1 });
        assert(self.buckets@.drop_last() =~= old(self).buckets@);
        1
    }

    /// Events of `flow` counted in `second`.
    pub fn counted(&self, flow: &ConnKey, second: i64) -> (n: u32)
        requires
            self.wf(),
        ensures
            n == self.count(*flow, second),
    {
        let mut i: usize = 0;
        while i < self.buckets.len()
            invariant
                i <= self.buckets@.len(),
                self.wf(),
                forall|j: int|
                    0 <= j < i ==> !(#[trigger] self.buckets@[j].flow == *flow && self.buckets@[j].second
                        == second),
            decreases self.buckets@.len() - i,
        {
            let x = self.buckets[i];
            if x.flow == *flow && x.second == second {
                proof {
                    lemma_count_present(self.buckets@, i as int);
                }
                return x.count;
            }
            i += 1;
        }
        proof {
            lemma_count_absent(self.buckets@, *flow, second);
        }
        0
    }

    /// Counts an event in and tells whether it is let through. Only new UDP
    /// connections are counted; everything else is let through.
    pub fn should_sample(&mut self, ev: &NetworkEvent) -> (r: bool)
        requires
            old(self).wf(),
            ev.at().valid(),
            old(self).count(ev.key(), ev.at().secs) < u32::MAX,
        ensures
            final(self).wf(),
            sample_step(*old(self), *ev, *final(self), r),
    {
        let (flow, now) = match ev {
            NetworkEvent::Connect {
                protocol,
                local_addr,
                local_port,
                remote_addr,
                remote_port,
                observed_at,
                ..
            } => (
                ConnKey {
                    protocol: *protocol,
                    local_addr: *local_addr,
                    local_port: *local_port,
                    remote_addr: *remote_addr,
                    remote_port: *remote_port,
                },
                observed_at.secs,
            ),
            NetworkEvent::Disconnect { .. } => {
                return true;
            },
        };
        if flow.protocol != TransportProtocol::Udp {
            return true;
        }
        if self.seen.insert(now) {
            let ghost mid = *self;
            assert(forall|f: ConnKey, s: i64| #[trigger] mid.count(f, s) == old(self).count(f, s));
            self.forget_before(now - 5);
        }
        assert forall|f: ConnKey, s: i64| #[trigger] self.count(f, s) == old(self).kept(f, s, now) by {
        }
        let n = self.bump(flow, now);
        n <= UDP_SAMPLE_PER_SECOND
    }
}

impl Default for UdpSampler {
    fn default() -> (r: Self)
        ensures
            r.wf(),
            forall|f: ConnKey, s: i64| #[trigger] r.count(f, s) == 0,
            forall|s: i64| !#[trigger] r.saw(s),
    {
        UdpSampler::new()
    }
}

proof fn lemma_push_contains(s: Seq<i64>, x: i64, y: i64)
    ensures
        s.push(x).contains(y) <==> s.contains(y) || x == y,
{
    if s.contains(y) {
        let i = choose|i: int| 0 <= i < s.len() && s[i] == y;
        assert(s.push(x)[i] == y);
    }
    if x == y {
        assert(s.push(x)[s.len() as int] == y);
    }
    if s.push(x).contains(y) {
        let i = choose|i: int| 0 <= i < s.push(x).len() && s.push(x)[i] == y;
        if i < s.len() {
            assert(s[i] == y);
        }
    }
}

/// What one event does to a sampler, and whether it is let through: the
/// first four events of a UDP flow in a second are, later ones are not.
pub open spec fn sample_step(
    pre: UdpSampler,
    ev: NetworkEvent,
    post: UdpSampler,
    passed: bool,
) -> bool {
    if counts_toward_limit(ev) {
        let now = ev.at().secs;
        let n = pre.kept(ev.key(), now, now) + 1;
        &&& passed == (n <= UDP_SAMPLE_PER_SECOND)
        &&& forall|f: ConnKey, s: i64| #[trigger]
            post.count(f, s) == if f == ev.key() && s == now {
                n
            } else {
                pre.kept(f, s, now)
            }
        &&& forall|s: i64| #[trigger]
            post.saw(s) <==> if pre.saw(now) {
                pre.saw(s)
            } else {
                s == now || (s >= now - 5 && pre.saw(s))
            }
    } else {
        passed && post == pre
    }
}

/// How many of the events were of `flow` in `second` and let through.
pub open spec fn passed_of(
    evs: Seq<NetworkEvent>,
    passed: Seq<bool>,
    flow: ConnKey,
    second: i64,
) -> nat
    decreases evs.len(),
{
    if evs.len() == 0 || passed.len() != evs.len() {
        0
    } else {
        let front = passed_of(evs.drop_last(), passed.drop_last(), flow, second);
        let ev = evs.last();
        if counts_toward_limit(ev) && ev.key() == flow && ev.at().secs == second && passed.last() {
            front + 1
        } else {
            front
        }
    }
}

/// Whatever events come in, no UDP flow gets more than four of them through
/// in one second, as long as none of the events is more than five seconds
/// later than that second.
pub proof fn law_udp_flow_is_capped(
    states: Seq<UdpSampler>,
    evs: Seq<NetworkEvent>,
    passed: Seq<bool>,
    flow: ConnKey,
    second: i64,
)
    requires
        states.len() == evs.len() + 1,
        passed.len() == evs.len(),
        forall|i: int|
            0 <= i < evs.len() ==> sample_step(
                states[i],
                #[trigger] evs[i],
                states[i + 1],
                passed[i],
            ),
        forall|i: int| 0 <= i < evs.len() ==> (#[trigger] evs[i]).at().secs <= second + 5,
    ensures
        passed_of(evs, passed, flow, second) <= UDP_SAMPLE_PER_SECOND,
{
    lemma_passed_bound(states, evs, passed, flow, second);
}

proof fn lemma_passed_bound(
    states: Seq<UdpSampler>,
    evs: Seq<NetworkEvent>,
    passed: Seq<bool>,
    flow: ConnKey,
    second: i64,
)
    requires
        states.len() == evs.len() + 1,
        passed.len() == evs.len(),
        forall|i: int|
            0 <= i < evs.len() ==> sample_step(
                states[i],
                #[trigger] evs[i],
                states[i + 1],
                passed[i],
            ),
        forall|i: int| 0 <= i < evs.len() ==> (#[trigger] evs[i]).at().secs <= second + 5,
    ensures
        passed_of(evs, passed, flow, second) <= states.last().count(flow, second),
        passed_of(evs, passed, flow, second) <= UDP_SAMPLE_PER_SECOND,
    decreases evs.len(),
{
    if evs.len() > 0 {
        let n = evs.len() - 1;
        let e = evs.drop_last();
        assert forall|i: int| 0 <= i < e.len() implies sample_step(
            states.drop_last()[i],
            #[trigger] e[i],
            states.drop_last()[i + 1],
            passed.drop_last()[i],
        ) by {
            assert(e[i] == evs[i]);
        }
        assert forall|i: int| 0 <= i < e.len() implies (#[trigger] e[i]).at().secs <= second + 5 by {
            assert(e[i] == evs[i]);
        }
        lemma_passed_bound(states.drop_last(), e, passed.drop_last(), flow, second);
        let ev = evs[n];
        assert(sample_step(states[n], ev, states[n + 1], passed[n]));
        let now = ev.at().secs;
        assert(states.last() == states[n + 1]);
        assert(states[n].kept(flow, second, now) == states[n].count(flow, second));
    }
}

/// Whether an event counts toward the limit of its flow.
pub open spec fn counts_toward_limit(ev: NetworkEvent) -> bool {
    ev is Connect && ev.key().protocol == TransportProtocol::Udp
}

} // verus!
