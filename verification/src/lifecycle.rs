//! Life cycle that the event-driven modules share: their status, their
//! health and the phases of their run loops.

use vstd::prelude::*;

verus! {

/// What a module reports of itself.
#[derive(Debug, Clone, Copy, PartialEq, Eq, Structural)]
pub enum ModuleStatus {
    Initialized,
    Running,
    Stopped,
    Failed,
}

/// Whether a module works.
#[derive(Debug, Clone, Copy, PartialEq, Eq, Structural)]
pub enum ModuleHealth {
    Healthy,
    Unhealthy,
}

pub const STATUS_INITIALIZED: u8 = 0;

pub const STATUS_RUNNING: u8 = 1;

pub const STATUS_STOPPED: u8 = 2;

pub const STATUS_FAILED: u8 = 3;

/// The status that a stored code stands for.
pub open spec fn status_spec(code: u8) -> ModuleStatus {
    if code == STATUS_RUNNING {
        ModuleStatus::Running
    } else if code == STATUS_STOPPED {
        ModuleStatus::Stopped
    } else if code == STATUS_FAILED {
        ModuleStatus::Failed
    } else {
        ModuleStatus::Initialized
    }
}

/// The status that a stored code stands for; unknown codes read as
/// initialized.
pub fn status_of(code: u8) -> (r: ModuleStatus)
    ensures
        r == status_spec(code),
{
    if code == STATUS_RUNNING {
        ModuleStatus::Running
    } else if code == STATUS_STOPPED {
        ModuleStatus::Stopped
    } else if code == STATUS_FAILED {
        ModuleStatus::Failed
    } else {
        ModuleStatus::Initialized
    }
}

/// A module is unhealthy exactly when it has failed.
pub fn health_of(code: u8) -> (r: ModuleHealth)
    ensures
        r == if code == STATUS_FAILED {
            ModuleHealth::Unhealthy
        } else {
            ModuleHealth::Healthy
        },
{
    if code == STATUS_FAILED {
        ModuleHealth::Unhealthy
    } else {
        ModuleHealth::Healthy
    }
}

/// Where a run loop stands.
#[derive(Debug, Clone, Copy, PartialEq, Eq, Structural)]
pub enum RunPhase {
    /// Switched off; nothing is subscribed.
    Idle,
    /// Enabled; the subscription is being made.
    Subscribing,
    /// Events are being received.
    Receiving,
    /// The stream ended; only the shutdown signal is awaited.
    Drained,
    /// The subscription failed; only the shutdown signal is awaited.
    Unsubscribed,
    /// The loop has returned.
    Ended,
}

/// What happens to a run loop.
#[derive(Debug, Clone, Copy, PartialEq, Eq, Structural)]
pub enum RunSignal {
    Subscribed,
    SubscribeFailed,
    StreamClosed,
    Shutdown,
}

/// A run loop: its phase and the status code that others read.
#[derive(Debug, Clone, Copy, PartialEq, Eq, Structural)]
pub struct RunLoop {
    pub phase: RunPhase,
    pub status: u8,
}

impl RunLoop {
    /// The status code that goes with each phase. A failed subscription
    /// keeps its status through shutdown.
    pub open spec fn consistent(self) -> bool {
        match self.phase {
            RunPhase::Idle => self.status == STATUS_RUNNING,
            RunPhase::Subscribing => self.status == STATUS_INITIALIZED,
            RunPhase::Receiving => self.status == STATUS_RUNNING,
            RunPhase::Drained => self.status == STATUS_RUNNING,
            RunPhase::Unsubscribed => self.status == STATUS_FAILED,
            RunPhase::Ended => self.status == STATUS_STOPPED || self.status == STATUS_FAILED,
        }
    }

    /// A disabled module reports itself running and waits for shutdown; an
    /// enabled one goes on to subscribe.
    pub fn begin(enabled: bool) -> (r: RunLoop)
        ensures
            r.consistent(),
            r.phase == if enabled {
                RunPhase::Subscribing
            } else {
                RunPhase::Idle
            },
    {
        if enabled {
            RunLoop { phase: RunPhase::Subscribing, status: STATUS_INITIALIZED }
        } else {
            RunLoop { phase: RunPhase::Idle, status: STATUS_RUNNING }
        }
    }

    /// The loop after `signal`.
    pub open spec fn after(self, signal: RunSignal) -> RunLoop {
        match (self.phase, signal) {
            (RunPhase::Subscribing, RunSignal::Subscribed) => RunLoop {
                phase: RunPhase::Receiving,
                status: STATUS_RUNNING,
            },
            (RunPhase::Subscribing, RunSignal::SubscribeFailed) => RunLoop {
                phase: RunPhase::Unsubscribed,
                status: STATUS_FAILED,
            },
            (RunPhase::Receiving, RunSignal::StreamClosed) => RunLoop {
                phase: RunPhase::Drained,
                status: self.status,
            },
            (RunPhase::Idle, RunSignal::Shutdown) => RunLoop {
                phase: RunPhase::Ended,
                status: STATUS_STOPPED,
            },
            (RunPhase::Receiving, RunSignal::Shutdown) => RunLoop {
                phase: RunPhase::Ended,
                status: STATUS_STOPPED,
            },
            (RunPhase::Drained, RunSignal::Shutdown) => RunLoop {
                phase: RunPhase::Ended,
                status: STATUS_STOPPED,
            },
            (RunPhase::Unsubscribed, RunSignal::Shutdown) => RunLoop {
                phase: RunPhase::Ended,
                status: self.status,
            },
            _ => self,
        }
    }

    /// Takes a signal; one that the phase does not await changes nothing.
    pub fn signal(&mut self, signal: RunSignal)
        requires
            old(self).consistent(),
        ensures
            *final(self) == old(self).after(signal),
            final(self).consistent(),
    {
        match (self.phase, signal) {
            (RunPhase::Subscribing, RunSignal::Subscribed) => {
                *self = RunLoop { phase: RunPhase::Receiving, status: STATUS_RUNNING };
            },
            (RunPhase::Subscribing, RunSignal::SubscribeFailed) => {
                *self = RunLoop { phase: RunPhase::Unsubscribed, status: STATUS_FAILED };
            },
            (RunPhase::Receiving, RunSignal::StreamClosed) => {
                self.phase = RunPhase::Drained;
            },
            (RunPhase::Idle, RunSignal::Shutdown) => {
                *self = RunLoop { phase: RunPhase::Ended, status: STATUS_STOPPED };
            },
            (RunPhase::Receiving, RunSignal::Shutdown) => {
                *self = RunLoop { phase: RunPhase::Ended, status: STATUS_STOPPED };
            },
            (RunPhase::Drained, RunSignal::Shutdown) => {
                *self = RunLoop { phase: RunPhase::Ended, status: STATUS_STOPPED };
            },
            (RunPhase::Unsubscribed, RunSignal::Shutdown) => {
                self.phase = RunPhase::Ended;
            },
            _ => {},
        }
    }
}

/// The loop after a run of signals.
pub open spec fn after_all(start: RunLoop, signals: Seq<RunSignal>) -> RunLoop
    decreases signals.len(),
{
    if signals.len() == 0 {
        start
    } else {
        after_all(start, signals.drop_last()).after(signals.last())
    }
}

/// A module that is switched off never receives an event: whatever signals
/// come, it stays idle or has ended, and it is never reported as failed.
pub proof fn law_disabled_module_stays_idle(signals: Seq<RunSignal>)
    ensures
        ({
            let start = RunLoop { phase: RunPhase::Idle, status: STATUS_RUNNING };
            let end = after_all(start, signals);
            &&& end.phase == RunPhase::Idle || end.phase == RunPhase::Ended
            &&& end.status != STATUS_FAILED
        }),
    decreases signals.len(),
{
    if signals.len() > 0 {
        law_disabled_module_stays_idle(signals.drop_last());
        let start = RunLoop { phase: RunPhase::Idle, status: STATUS_RUNNING };
        let mid = after_all(start, signals.drop_last());
        assert(mid.status != STATUS_FAILED);
    }
}

/// A failed subscription does not bring the loop down: it waits for the
/// shutdown signal, and its failed status outlives the shutdown.
pub proof fn law_failed_subscription_keeps_its_status(signals: Seq<RunSignal>)
    ensures
        ({
            let start = RunLoop { phase: RunPhase::Unsubscribed, status: STATUS_FAILED };
            let end = after_all(start, signals);
            &&& end.status == STATUS_FAILED
            &&& end.phase == if signals.contains(RunSignal::Shutdown) {
                RunPhase::Ended
            } else {
                RunPhase::Unsubscribed
            }
        }),
    decreases signals.len(),
{
    if signals.len() > 0 {
        law_failed_subscription_keeps_its_status(signals.drop_last());
        let front = signals.drop_last();
        if signals.contains(RunSignal::Shutdown) {
            let i = choose|i: int| 0 <= i < signals.len() && signals[i] == RunSignal::Shutdown;
            if i < front.len() {
                assert(front[i] == RunSignal::Shutdown);
            }
        }
        assert(forall|i: int| 0 <= i < front.len() ==> front[i] == signals[i]);
        assert(signals.last() == signals[signals.len() - 1]);
    }
}

} // verus!
