//! Posture module: which snapshots it publishes, and when it takes them.

use crate::clock::Timestamp;
use crate::posture::{PostureError, PostureSnapshot, PostureView};
use crate::power::PowerProfile;
use crate::text::{opt_view, same_str};
use vstd::prelude::*;

verus! {

/// What is published of a snapshot.
#[derive(Debug, Clone, PartialEq, Eq)]
pub struct PosturePayload {
    pub captured_at: Timestamp,
    pub snapshot: PostureSnapshot,
}

/// Whether a snapshot is published.
#[derive(Debug, Clone, Copy, PartialEq, Eq, Structural)]
pub enum DeltaDecision {
    /// The first snapshot, or one that differs from the last.
    Emit,
    /// The same as the last.
    Skip,
}

/// Keeps the last snapshot that differed from the one before it.
#[derive(Debug)]
pub struct DeltaTracker {
    last: Option<PostureSnapshot>,
}

fn same_opt(a: &Option<String>, b: &Option<String>) -> (r: bool)
    ensures
        r == (opt_view(*a) == opt_view(*b)),
{
    match (a, b) {
        (Some(x), Some(y)) => same_str(x.as_str(), y.as_str()),
        (None, None) => true,
        _ => false,
    }
}

fn same_snapshot(a: &PostureSnapshot, b: &PostureSnapshot) -> (r: bool)
    ensures
        r == (a@ == b@),
{
    a.disk_encryption == b.disk_encryption && a.firewall_enabled == b.firewall_enabled
        && a.screen_lock_enabled == b.screen_lock_enabled && same_opt(
        &a.os_patch_level,
        &b.os_patch_level,
    ) && same_opt(&a.os_version, &b.os_version)
}

/// What becomes of a snapshot after another.
pub open spec fn decided(last: Option<PostureView>, next: PostureView) -> DeltaDecision {
    if last == Some(next) {
        DeltaDecision::Skip
    } else {
        DeltaDecision::Emit
    }
}

impl DeltaTracker {
    /// The last snapshot.
    pub closed spec fn seen(&self) -> Option<PostureView> {
        match self.last {
            Some(s) => Some(s@),
            None => None,
        }
    }

    /// A tracker that has seen nothing.
    pub fn new() -> (r: DeltaTracker)
        ensures
            r.seen() is None,
    {
        DeltaTracker { last: None }
    }

    /// The last snapshot.
    pub fn last(&self) -> (r: Option<&PostureSnapshot>)
        ensures
            match r {
                Some(s) => self.seen() == Some(s@),
                None => self.seen() is None,
            },
    {
        match &self.last {
            Some(s) => Some(s),
            None => None,
        }
    }

    /// Takes a snapshot and tells whether it is to be published.
    pub fn observe(&mut self, next: PostureSnapshot) -> (r: DeltaDecision)
        ensures
            r == decided(old(self).seen(), next@),
            final(self).seen() == Some(next@),
    {
        let same = match &self.last {
            Some(prev) => same_snapshot(prev, &next),
            None => false,
        };
        if same {
            DeltaDecision::Skip
        } else {
            self.last = Some(next);
            DeltaDecision::Emit
        }
    }
}

impl Default for DeltaTracker {
    fn default() -> (r: Self)
        ensures
            r.seen() is None,
    {
        DeltaTracker::new()
    }
}

/// A snapshot is published exactly where it differs from the one before.
pub proof fn law_only_changes_are_published(a: PostureView, b: PostureView)
    ensures
        decided(None, a) == DeltaDecision::Emit,
        decided(Some(a), b) == DeltaDecision::Emit <==> a != b,
{
}

/// Whether snapshots are taken under a profile: not on battery.
pub open spec fn snapshots_under(profile: PowerProfile) -> bool {
    profile == PowerProfile::Normal || profile == PowerProfile::IdleAC
}

/// Whether snapshots are taken under a profile: not on battery.
pub fn should_snapshot(profile: PowerProfile) -> (r: bool)
    ensures
        r == snapshots_under(profile),
{
    match profile {
        PowerProfile::Normal => true,
        PowerProfile::IdleAC => true,
        _ => false,
    }
}

/// The posture module.
#[derive(Debug)]
pub struct PostureModule {
    interval_secs: u64,
    defer_on_battery: bool,
    tracker: DeltaTracker,
}

impl PostureModule {
    /// Time between two snapshots, in seconds.
    pub closed spec fn every(&self) -> u64 {
        self.interval_secs
    }

    /// Whether snapshots wait for mains power.
    pub closed spec fn defers(&self) -> bool {
        self.defer_on_battery
    }

    /// The last snapshot.
    pub closed spec fn seen(&self) -> Option<PostureView> {
        self.tracker.seen()
    }

    /// Begins with the configured interval, which is never below 10
    /// seconds.
    pub fn new(interval_secs: u64, defer_on_battery: bool) -> (r: PostureModule)
        ensures
            r.every() == if interval_secs < 10 {
                10
            } else {
                interval_secs
            },
            r.defers() == defer_on_battery,
            r.seen() is None,
    {
        PostureModule {
            interval_secs: if interval_secs < 10 {
                10
            } else {
                interval_secs
            },
            defer_on_battery,
            tracker: DeltaTracker::new(),
        }
    }

    /// Name under which the module is known.
    pub fn name(&self) -> (r: &'static str)
        ensures
            r@ == "posture"@,
    {
        "posture"
    }

    /// Time between two snapshots, in seconds.
    pub fn interval_secs(&self) -> (r: u64)
        ensures
            r == self.every(),
    {
        self.interval_secs
    }

    /// Whether a snapshot is taken now.
    pub fn on_tick(&self, profile: PowerProfile) -> (r: bool)
        ensures
            r == (!self.defers() || snapshots_under(profile)),
    {
        !self.defer_on_battery || should_snapshot(profile)
    }

    /// Takes a snapshot, or the error in its place, and gives what is to be
    /// published.
    pub fn on_snapshot(
        &mut self,
        snapshot: Result<PostureSnapshot, PostureError>,
        captured_at: Timestamp,
    ) -> (r: Option<PosturePayload>)
        ensures
            final(self).every() == old(self).every(),
            final(self).defers() == old(self).defers(),
            match snapshot {
                Ok(s) => {
                    &&& final(self).seen() == Some(s@)
                    &&& r is Some <==> decided(old(self).seen(), s@) == DeltaDecision::Emit
                    &&& r matches Some(p) ==> p.captured_at == captured_at && p.snapshot@ == s@
                },
                Err(_) => r is None && final(self).seen() == old(self).seen(),
            },
    {
        match snapshot {
            Ok(s) => {
                let decision = self.tracker.observe(s.clone());
                if decision == DeltaDecision::Emit {
                    Some(PosturePayload { captured_at, snapshot: s })
                } else {
                    None
                }
            },
            Err(_) => None,
        }
    }
}

} // verus!
