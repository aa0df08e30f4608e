//! Bounded window of recently seen event keys.

use std::collections::VecDeque;
use vstd::prelude::*;

verus! {

/// The last keys that were let through, oldest first.
#[derive(Debug)]
pub struct DedupRing {
    seen: VecDeque<u64>,
    capacity: usize,
}

impl View for DedupRing {
    type V = Seq<u64>;

    closed spec fn view(&self) -> Seq<u64> {
        self.seen@
    }
}

impl DedupRing {
    /// How many keys the window holds at most.
    pub closed spec fn cap(&self) -> nat {
        self.capacity as nat
    }

    /// The window holds at most its capacity, and no key twice.
    pub open spec fn wf(&self) -> bool {
        &&& 1 <= self.cap()
        &&& self@.len() <= self.cap()
        &&& self@.no_duplicates()
    }

    /// An empty window for `capacity` keys, at least one.
    pub fn new(capacity: usize) -> (r: DedupRing)
        ensures
            r.wf(),
            r@ == Seq::<u64>::empty(),
            r.cap() == if capacity == 0 {
                1
            } else {
                capacity as nat
            },
    {
        let cap: usize = if capacity == 0 {
            1
        } else {
            capacity
        };
        DedupRing { seen: VecDeque::with_capacity(cap), capacity: cap }
    }

    /// Lets `key` through unless the window holds it; the oldest key makes
    /// room when the window is full.
    pub fn insert(&mut self, key: u64) -> (fresh: bool)
        requires
            old(self).wf(),
        ensures
            final(self).wf(),
            final(self).cap() == old(self).cap(),
            fresh == !old(self)@.contains(key),
            final(self)@ == window_after(old(self)@, old(self).cap(), key),
    {
        let mut i: usize = 0;
        while i < self.seen.len()
            invariant
                i <= self.seen@.len(),
                forall|k: int| 0 <= k < i ==> self.seen@[k] != key,
                *self == *old(self),
                old(self).wf(),
            decreases self.seen@.len() - i,
        {
            if self.seen[i] == key {
                return false;
            }
            i += 1;
        }
        if self.seen.len() == self.capacity {
            self.seen.pop_front();
        }
        self.seen.push_back(key);
        true
    }
}

/// The window after `key` has come in.
pub open spec fn window_after(seen: Seq<u64>, cap: nat, key: u64) -> Seq<u64> {
    if seen.contains(key) {
        seen
    } else if seen.len() == cap {
        seen.drop_first().push(key)
    } else {
        seen.push(key)
    }
}

/// The window after a run of keys.
pub open spec fn window_after_all(seen: Seq<u64>, cap: nat, keys: Seq<u64>) -> Seq<u64>
    decreases keys.len(),
{
    if keys.len() == 0 {
        seen
    } else {
        window_after(window_after_all(seen, cap, keys.drop_last()), cap, keys.last())
    }
}

/// Those of a run of keys that are let through, in order.
pub open spec fn let_through(seen: Seq<u64>, cap: nat, keys: Seq<u64>) -> Seq<u64>
    decreases keys.len(),
{
    if keys.len() == 0 {
        Seq::empty()
    } else {
        let front = let_through(seen, cap, keys.drop_last());
        if window_after_all(seen, cap, keys.drop_last()).contains(keys.last()) {
            front
        } else {
            front.push(keys.last())
        }
    }
}

/// The last `n` items of a sequence, or all where there are fewer.
pub open spec fn last_of(s: Seq<u64>, n: nat) -> Seq<u64> {
    if s.len() <= n {
        s
    } else {
        s.skip(s.len() - n)
    }
}

/// After any run of keys the window holds the last ones that were let
/// through, as many as it has room for.
pub proof fn law_window_is_the_last_let_through(seen: Seq<u64>, cap: nat, keys: Seq<u64>)
    requires
        1 <= cap,
        seen.len() <= cap,
    ensures
        window_after_all(seen, cap, keys) == last_of(seen + let_through(seen, cap, keys), cap),
    decreases keys.len(),
{
    if keys.len() == 0 {
        assert(seen + let_through(seen, cap, keys) =~= seen);
    } else {
        let front = keys.drop_last();
        law_window_is_the_last_let_through(seen, cap, front);
        let before = seen + let_through(seen, cap, front);
        let all = seen + let_through(seen, cap, keys);
        if !window_after_all(seen, cap, front).contains(keys.last()) {
            assert(all =~= before.push(keys.last()));
            assert(window_after_all(seen, cap, keys) =~= last_of(all, cap));
        }
    }
}

/// A key that was just let through is held back if it comes again at once.
pub proof fn law_repeat_is_dropped(seen: Seq<u64>, cap: nat, key: u64)
    requires
        1 <= cap,
    ensures
        window_after(seen, cap, key).contains(key),
        window_after(window_after(seen, cap, key), cap, key) == window_after(seen, cap, key),
{
    if !seen.contains(key) {
        let after = window_after(seen, cap, key);
        assert(after.last() == key);
    }
}

/// A key stays in the window until `cap` further keys have been let
/// through: after fewer keys than that it is still held back.
pub proof fn law_window_remembers(seen: Seq<u64>, cap: nat, key: u64, keys: Seq<u64>)
    requires
        1 <= cap,
        seen.len() <= cap,
        seen.len() > 0,
        seen.last() == key,
        keys.len() < cap,
    ensures
        window_after_all(seen, cap, keys).contains(key),
{
    lemma_window_position(seen, cap, keys);
    let w = window_after_all(seen, cap, keys);
    let p = choose|p: int|
        0 <= p < w.len() && w[p] == seen.last() && p >= w.len() - 1 - keys.len();
    assert(w[p] == key);
}

proof fn lemma_window_position(seen: Seq<u64>, cap: nat, keys: Seq<u64>)
    requires
        1 <= cap,
        0 < seen.len() <= cap,
        keys.len() < cap,
    ensures
        ({
            let w = window_after_all(seen, cap, keys);
            &&& w.len() <= cap
            &&& exists|p: int|
                0 <= p < w.len() && w[p] == seen.last() && p >= w.len() - 1 - keys.len()
        }),
    decreases keys.len(),
{
    if keys.len() == 0 {
        assert(window_after_all(seen, cap, keys)[seen.len() - 1] == seen.last());
    } else {
        lemma_window_position(seen, cap, keys.drop_last());
        let before = window_after_all(seen, cap, keys.drop_last());
        let n = keys.len() - 1;
        let p = choose|p: int|
            0 <= p < before.len() && before[p] == seen.last() && p >= before.len() - 1 - n;
        let w = window_after_all(seen, cap, keys);
        if before.contains(keys.last()) {
            assert(w[p] == seen.last());
        } else if before.len() == cap {
            assert(p >= 1);
            assert(w[p - 1] == seen.last());
        } else {
            assert(w[p] == seen.last());
        }
    }
}

} // verus!
