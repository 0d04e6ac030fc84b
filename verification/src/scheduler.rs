//! The scheduler: when a check runs, which stage it is in, and what follows each stage.
//! A check is fetch, compare, notify, persist, in that order, one check at a time.

use vstd::prelude::*;

verus! {

/// Minutes between two periodic checks.
pub const CHECK_INTERVAL_MINUTES: u64 = 30;

/// First hour of the nightly pause.
pub const DOWNTIME_START_HOUR: u8 = 2;

/// First hour after the nightly pause.
pub const DOWNTIME_END_HOUR: u8 = 7;

/// A daily pause: the hours from `start_hour` up to, but not including, `end_hour`.
#[derive(Clone, Copy, Debug, PartialEq, Eq, Structural)]
pub struct BlackoutWindow {
    pub start_hour: u8,
    pub end_hour: u8,
}

/// Whether `hour` falls into `window`.
pub open spec fn in_blackout(window: BlackoutWindow, hour: u8) -> bool {
    window.start_hour <= hour && hour < window.end_hour
}

/// The nightly pause from two to seven.
pub open spec fn standard_window() -> BlackoutWindow {
    BlackoutWindow { start_hour: DOWNTIME_START_HOUR, end_hour: DOWNTIME_END_HOUR }
}

impl BlackoutWindow {
    /// The nightly pause from two to seven.
    pub fn standard() -> (window: BlackoutWindow)
        ensures
            window == standard_window(),
    {
        BlackoutWindow { start_hour: DOWNTIME_START_HOUR, end_hour: DOWNTIME_END_HOUR }
    }

    /// Whether `hour` falls into the pause.
    pub fn covers(&self, hour: u8) -> (inside: bool)
        ensures
            inside == in_blackout(*self, hour),
    {
        hour >= self.start_hour && hour < self.end_hour
    }
}

/// Whether `hour` falls into the nightly pause.
pub fn is_downtime(hour: u8) -> (paused: bool)
    ensures
        paused == in_blackout(standard_window(), hour),
{
    BlackoutWindow::standard().covers(hour)
}

/// The stage a check is in.
#[derive(Clone, Copy, Debug, PartialEq, Eq, Structural)]
pub enum Phase {
    /// No check is running.
    Idle,
    /// The listing is being fetched.
    Fetching,
    /// The listing is being compared with the baseline.
    Diffing,
    /// The subscribers are being told. `changed` says whether the baseline is to be
    /// written afterwards.
    Notifying { changed: bool },
    /// The new baseline is being written.
    Persisting,
}

/// What the scheduler is told.
#[derive(Clone, Copy, Debug, PartialEq, Eq, Structural)]
pub enum Event {
    /// The periodic timer has fired; `hour` is the hour of the day, local time.
    Tick { hour: u8 },
    /// Somebody has asked for a check now.
    ManualTrigger,
    /// The fetch has ended well; `empty` says that the listing holds no site.
    Fetched { empty: bool },
    /// The comparison has ended; `changed` says that the listing differs from the
    /// baseline.
    Compared { changed: bool },
    /// The subscribers have been told, as far as they could be reached.
    Notified,
    /// The baseline has been written.
    Persisted,
    /// The stage that was running has failed.
    Failed,
}

/// What the scheduler asks for.
#[derive(Clone, Copy, Debug, PartialEq, Eq, Structural)]
pub enum Action {
    /// Fetch the listing.
    Fetch,
    /// Compare the listing with the baseline.
    Compare,
    /// Tell the subscribers.
    Notify,
    /// Write the listing as the new baseline.
    Persist,
    /// The timer fired during the pause: do nothing until it fires again.
    Skip,
    /// A check is running already: the trigger has to wait.
    Busy,
    /// The check has failed before anything was told or written: give it up.
    Abort,
    /// The check is over.
    Finish,
    /// The event does not belong to the stage the check is in: disregard it.
    Ignore,
}

/// The stage that follows, and what is to be done, when `event` arrives in `phase`.
///
/// A check starts from `Idle` only, by the timer outside the pause or by a manual
/// trigger at any hour. A fetch that fails or brings an empty listing ends the check
/// with nothing compared, told or written, and so does a comparison that fails. The
/// subscribers are told before anything is written; writing comes last, is due only
/// where the listing differs from the baseline, and is due then even if telling failed.
pub open spec fn step(window: BlackoutWindow, phase: Phase, event: Event) -> (Phase, Action) {
    match (phase, event) {
        (Phase::Idle, Event::Tick { hour }) => if in_blackout(window, hour) {
            (Phase::Idle, Action::Skip)
        } else {
            (Phase::Fetching, Action::Fetch)
        },
        (Phase::Idle, Event::ManualTrigger) => (Phase::Fetching, Action::Fetch),
        (_, Event::Tick { .. }) => (phase, Action::Busy),
        (_, Event::ManualTrigger) => (phase, Action::Busy),
        (Phase::Fetching, Event::Fetched { empty }) => if empty {
            (Phase::Idle, Action::Abort)
        } else {
            (Phase::Diffing, Action::Compare)
        },
        (Phase::Fetching, Event::Failed) => (Phase::Idle, Action::Abort),
        (Phase::Diffing, Event::Compared { changed }) => (
            Phase::Notifying { changed },
            Action::Notify,
        ),
        (Phase::Diffing, Event::Failed) => (Phase::Idle, Action::Abort),
        (Phase::Notifying { changed }, Event::Notified) => if changed {
            (Phase::Persisting, Action::Persist)
        } else {
            (Phase::Idle, Action::Finish)
        },
        (Phase::Notifying { changed }, Event::Failed) => if changed {
            (Phase::Persisting, Action::Persist)
        } else {
            (Phase::Idle, Action::Finish)
        },
        (Phase::Persisting, Event::Persisted) => (Phase::Idle, Action::Finish),
        (Phase::Persisting, Event::Failed) => (Phase::Idle, Action::Finish),
        _ => (phase, Action::Ignore),
    }
}

/// The timer does nothing during the pause, and a manual trigger starts a check at any
/// hour.
pub proof fn lemma_blackout_guard(window: BlackoutWindow, hour: u8)
    ensures
        in_blackout(window, hour) ==> step(window, Phase::Idle, Event::Tick { hour }) == (
            Phase::Idle,
            Action::Skip,
        ),
        !in_blackout(window, hour) ==> step(window, Phase::Idle, Event::Tick { hour }) == (
            Phase::Fetching,
            Action::Fetch,
        ),
        step(window, Phase::Idle, Event::ManualTrigger) == (Phase::Fetching, Action::Fetch),
{
}

/// Nothing is written unless the subscribers were told first, and nothing is told unless
/// the listing was fetched and compared first.
pub proof fn lemma_stage_order(window: BlackoutWindow, phase: Phase, event: Event)
    ensures
        step(window, phase, event).1 == Action::Persist ==> phase == (Phase::Notifying {
            changed: true,
        }),
        step(window, phase, event).1 == Action::Notify ==> phase == Phase::Diffing,
        step(window, phase, event).1 == Action::Compare ==> phase == Phase::Fetching,
        step(window, phase, event).1 == Action::Fetch ==> phase == Phase::Idle,
        event == Event::Failed && (phase == Phase::Fetching || phase == Phase::Diffing) ==> step(
            window,
            phase,
            event,
        ) == (Phase::Idle, Action::Abort),
{
}

/// Runs checks one at a time.
#[derive(Clone, Copy, Debug)]
pub struct Scheduler {
    window: BlackoutWindow,
    phase: Phase,
}

impl Scheduler {
    /// The pause that the scheduler keeps.
    pub closed spec fn window_spec(&self) -> BlackoutWindow {
        self.window
    }

    /// The stage the scheduler is in.
    pub closed spec fn phase_spec(&self) -> Phase {
        self.phase
    }

    /// A scheduler at rest that keeps `window`.
    pub fn new(window: BlackoutWindow) -> (scheduler: Scheduler)
        ensures
            scheduler.window_spec() == window,
            scheduler.phase_spec() == Phase::Idle,
    {
        Scheduler { window, phase: Phase::Idle }
    }

    /// The pause that the scheduler keeps.
    pub fn window(&self) -> (window: BlackoutWindow)
        ensures
            window == self.window_spec(),
    {
        self.window
    }

    /// The stage the scheduler is in.
    pub fn phase(&self) -> (phase: Phase)
        ensures
            phase == self.phase_spec(),
    {
        self.phase
    }

    /// Whether a check is running.
    pub fn is_running(&self) -> (running: bool)
        ensures
            running == (self.phase_spec() != Phase::Idle),
    {
        match self.phase {
            Phase::Idle => false,
            _ => true,
        }
    }

    /// Takes `event` in and says what is to be done: see [`step`].
    pub fn handle(&mut self, event: Event) -> (action: Action)
        ensures
            final(self).window_spec() == old(self).window_spec(),
            (final(self).phase_spec(), action) == step(
                old(self).window_spec(),
                old(self).phase_spec(),
                event,
            ),
    {
        let (phase, action) = next_step(self.window, self.phase, event);
        self.phase = phase;
        action
    }
}

/// Computes [`step`].
pub fn next_step(window: BlackoutWindow, phase: Phase, event: Event) -> (next: (Phase, Action))
    ensures
        next == step(window, phase, event),
{
    match event {
        Event::Tick { hour } => match phase {
            Phase::Idle => {
                if window.covers(hour) {
                    (Phase::Idle, Action::Skip)
                } else {
                    (Phase::Fetching, Action::Fetch)
                }
            },
            _ => (phase, Action::Busy),
        },
        Event::ManualTrigger => match phase {
            Phase::Idle => (Phase::Fetching, Action::Fetch),
            _ => (phase, Action::Busy),
        },
        Event::Fetched { empty } => match phase {
            Phase::Fetching => {
                if empty {
                    (Phase::Idle, Action::Abort)
                } else {
                    (Phase::Diffing, Action::Compare)
                }
            },
            _ => (phase, Action::Ignore),
        },
        Event::Compared { changed } => match phase {
            Phase::Diffing => (Phase::Notifying { changed }, Action::Notify),
            _ => (phase, Action::Ignore),
        },
        Event::Notified => match phase {
            Phase::Notifying { changed } => {
                if changed {
                    (Phase::Persisting, Action::Persist)
                } else {
                    (Phase::Idle, Action::Finish)
                }
            },
            _ => (phase, Action::Ignore),
        },
        Event::Persisted => match phase {
            Phase::Persisting => (Phase::Idle, Action::Finish),
            _ => (phase, Action::Ignore),
        },
        Event::Failed => match phase {
            Phase::Fetching => (Phase::Idle, Action::Abort),
            Phase::Diffing => (Phase::Idle, Action::Abort),
            Phase::Notifying { changed } => {
                if changed {
                    (Phase::Persisting, Action::Persist)
                } else {
                    (Phase::Idle, Action::Finish)
                }
            },
            Phase::Persisting => (Phase::Idle, Action::Finish),
            Phase::Idle => (phase, Action::Ignore),
        },
    }
}

} // verus!
