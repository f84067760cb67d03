//! The idle scheduler: waits out the idle interval, announces a break, has
//! the overlay run, and starts over when the overlay is gone.
//!
//! The scheduler is a value. The caller sleeps, notifies and runs the
//! overlay, and tells the scheduler what happened and what the clock reads.

use vstd::prelude::*;
use crate::fault::Fault;
use crate::settings::Settings;

verus! {

/// Where in its cycle the scheduler is.
#[derive(Clone, Copy, Debug, PartialEq, Eq, Structural)]
pub enum CyclePhase {
    /// The idle interval runs since the clock read `since_ms`.
    Waiting { since_ms: u64 },
    /// The notification is on its way.
    Notifying,
    /// The overlay is up.
    OverlayActive,
    /// A fatal failure ended the cycle.
    Halted,
}

/// What the scheduler is told.
#[derive(Clone, Copy, Debug, PartialEq, Eq)]
pub enum Signal {
    /// The caller woke up.
    Tick { now_ms: u64 },
    /// The notification was sent, or could not be.
    Notified { delivered: bool },
    /// The overlay is gone.
    OverlayDone { outcome: Result<(), Fault>, now_ms: u64 },
}

/// What the caller does next.
#[derive(Clone, Copy, Debug, PartialEq, Eq, Structural)]
pub enum Directive {
    /// Nothing: go on with what is under way.
    Idle,
    /// Sleep for `secs` seconds and `millis` milliseconds, then tick.
    Sleep { secs: u64, millis: u32 },
    /// Send the notification and report whether it was delivered.
    Notify,
    /// Run an overlay for `duration_secs` seconds and report how it ended.
    RunOverlay { duration_secs: u64 },
    /// Give up with this failure.
    Abort(Fault),
}

/// The scheduler's state: the settings and the phase. Nothing else is
/// remembered from one cycle to the next.
#[derive(Clone, Copy, Debug, PartialEq, Eq, Structural)]
pub struct IdleScheduler {
    pub settings: Settings,
    pub phase: CyclePhase,
}

/// Milliseconds from `since_ms` to `now_ms`. A clock that reads less than
/// before counts as no time passed.
pub open spec fn waited(since_ms: u64, now_ms: u64) -> int {
    if now_ms >= since_ms {
        now_ms - since_ms
    } else {
        0
    }
}

/// Whether an overlay's outcome ends the whole process.
pub open spec fn outcome_fatal(outcome: Result<(), Fault>) -> bool {
    match outcome {
        Ok(_) => false,
        Err(fault) => fault.fatal(),
    }
}

impl IdleScheduler {
    /// A scheduler whose idle interval starts at `now_ms`.
    pub open spec fn armed(settings: Settings, now_ms: u64) -> IdleScheduler {
        IdleScheduler { settings, phase: CyclePhase::Waiting { since_ms: now_ms } }
    }

    /// Whether a break is due at `now_ms`.
    pub open spec fn due(self, now_ms: u64) -> bool {
        match self.phase {
            CyclePhase::Waiting { since_ms } => waited(since_ms, now_ms)
                >= self.settings.idle_interval_ms(),
            _ => false,
        }
    }

    /// The phase after a signal. A signal that does not belong to the
    /// phase changes nothing.
    pub open spec fn next_phase(self, signal: Signal) -> CyclePhase {
        match (self.phase, signal) {
            (CyclePhase::Waiting { .. }, Signal::Tick { now_ms }) => if self.due(now_ms) {
                CyclePhase::Notifying
            } else {
                self.phase
            },
            (CyclePhase::Notifying, Signal::Notified { .. }) => CyclePhase::OverlayActive,
            (CyclePhase::OverlayActive, Signal::OverlayDone { outcome, now_ms }) => {
                if outcome_fatal(outcome) {
                    CyclePhase::Halted
                } else {
                    CyclePhase::Waiting { since_ms: now_ms }
                }
            },
            _ => self.phase,
        }
    }

    /// The scheduler after a signal.
    pub open spec fn next(self, signal: Signal) -> IdleScheduler {
        IdleScheduler { settings: self.settings, phase: self.next_phase(signal) }
    }

    /// What the caller is asked to do after a signal.
    ///
    /// A tick before the interval is over asks for the rest of it; a tick
    /// after it asks for the notification. Whether the notification was
    /// delivered or not, the overlay is asked for. After the overlay the
    /// whole interval is asked for again, unless the overlay's failure is
    /// fatal.
    pub open spec fn directive(self, signal: Signal) -> Directive {
        match (self.phase, signal) {
            (CyclePhase::Waiting { since_ms }, Signal::Tick { now_ms }) => if self.due(now_ms) {
                Directive::Notify
            } else {
                let rest = self.settings.idle_interval_ms() - waited(since_ms, now_ms);
                Directive::Sleep { secs: (rest / 1000) as u64, millis: (rest % 1000) as u32 }
            },
            (CyclePhase::Notifying, Signal::Notified { .. }) => Directive::RunOverlay {
                duration_secs: self.settings.overlay_duration,
            },
            (CyclePhase::OverlayActive, Signal::OverlayDone { outcome, .. }) => match outcome {
                Err(fault) if fault.fatal() => Directive::Abort(fault),
                _ => Directive::Sleep { secs: self.settings.idle_interval, millis: 0 },
            },
            _ => Directive::Idle,
        }
    }

    /// Starts the scheduler: the first idle interval begins at `now_ms`.
    pub fn new(settings: Settings, now_ms: u64) -> (scheduler: IdleScheduler)
        ensures
            scheduler == IdleScheduler::armed(settings, now_ms),
    {
        IdleScheduler { settings, phase: CyclePhase::Waiting { since_ms: now_ms } }
    }

    /// Takes one signal; returns the scheduler for the rest of the cycle
    /// and what the caller has to do.
    pub fn advance(self, signal: Signal) -> (result: (IdleScheduler, Directive))
        ensures
            result.0 == self.next(signal),
            result.1 == self.directive(signal),
    {
        match (self.phase, signal) {
            (CyclePhase::Waiting { since_ms }, Signal::Tick { now_ms }) => {
                let passed: u64 = if now_ms >= since_ms {
                    now_ms - since_ms
                } else {
                    0
                };
                let whole: u64 = passed / 1000;
                let part: u64 = passed % 1000;
                if whole >= self.settings.idle_interval {
                    (
                        IdleScheduler { settings: self.settings, phase: CyclePhase::Notifying },
                        Directive::Notify,
                    )
                } else if part == 0 {
                    (
                        self,
                        Directive::Sleep { secs: self.settings.idle_interval - whole, millis: 0 },
                    )
                } else {
                    (
                        self,
                        Directive::Sleep {
                            secs: self.settings.idle_interval - whole - 1,
                            millis: (1000 - part) as u32,
                        },
                    )
                }
            },
            (CyclePhase::Notifying, Signal::Notified { .. }) => (
                IdleScheduler { settings: self.settings, phase: CyclePhase::OverlayActive },
                Directive::RunOverlay { duration_secs: self.settings.overlay_duration },
            ),
            (CyclePhase::OverlayActive, Signal::OverlayDone { outcome, now_ms }) => {
                let fatal = match outcome {
                    Ok(_) => None,
                    Err(fault) => if fault.is_fatal() {
                        Some(fault)
                    } else {
                        None
                    },
                };
                match fatal {
                    Some(fault) => (
                        IdleScheduler { settings: self.settings, phase: CyclePhase::Halted },
                        Directive::Abort(fault),
                    ),
                    None => (
                        IdleScheduler {
                            settings: self.settings,
                            phase: CyclePhase::Waiting { since_ms: now_ms },
                        },
                        Directive::Sleep { secs: self.settings.idle_interval, millis: 0 },
                    ),
                }
            },
            _ => (self, Directive::Idle),
        }
    }
}

/// The notification is asked for only on a tick in the waiting phase, when
/// a whole idle interval has passed since the scheduler was armed.
pub proof fn lemma_notify_only_when_due(s: IdleScheduler, signal: Signal)
    requires
        s.directive(signal) == Directive::Notify,
    ensures
        s.phase is Waiting,
        signal is Tick,
        waited(s.phase->since_ms, signal->Tick_now_ms) >= s.settings.idle_interval * 1000,
{
}

/// After an overlay that did not fail fatally the scheduler waits the
/// whole idle interval again, counted from the overlay's end: until then a
/// tick asks for the rest of the interval, and from then on for the
/// notification.
pub proof fn lemma_rearm_after_overlay(
    s: IdleScheduler,
    outcome: Result<(), Fault>,
    end_ms: u64,
    now_ms: u64,
)
    requires
        s.phase == CyclePhase::OverlayActive,
        !outcome_fatal(outcome),
        end_ms <= now_ms,
    ensures
        ({
            let done = Signal::OverlayDone { outcome, now_ms: end_ms };
            let rearmed = s.next(done);
            let tick = Signal::Tick { now_ms };
            let rest = s.settings.idle_interval * 1000 - (now_ms - end_ms);
            &&& rearmed == IdleScheduler::armed(s.settings, end_ms)
            &&& s.directive(done) == (Directive::Sleep { secs: s.settings.idle_interval, millis: 0 })
            &&& rest > 0 ==> rearmed.next(tick) == rearmed && rearmed.directive(tick) == (
            Directive::Sleep { secs: (rest / 1000) as u64, millis: (rest % 1000) as u32 })
            &&& rest <= 0 ==> rearmed.next(tick).phase == CyclePhase::Notifying
                && rearmed.directive(tick) == Directive::Notify
        }),
{
}

/// A notification that could not be delivered changes nothing: the
/// overlay runs all the same.
pub proof fn lemma_notification_failure_ignored(s: IdleScheduler)
    ensures
        s.next(Signal::Notified { delivered: false }) == s.next(
            Signal::Notified { delivered: true },
        ),
        s.directive(Signal::Notified { delivered: false }) == s.directive(
            Signal::Notified { delivered: true },
        ),
{
}

} // verus!
