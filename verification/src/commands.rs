//! The command surface: what each request does to the registry and the scheduler, and
//! what the one who sent it is told.

use vstd::prelude::*;
use crate::entity::{ascending, EntitySet, EntityView};
use crate::registry::{
    default_preferences, field_of, preferences_of, toggled, PreferenceField, Preferences, Registry,
};
use crate::scheduler::{in_blackout, step, Action, BlackoutWindow, Event, Phase, Scheduler};

verus! {

/// A request.
#[derive(Clone, Copy, Debug, PartialEq, Eq, Structural)]
pub enum Command {
    /// Subscribe the sender.
    Subscribe { id: i64 },
    /// Take the sender out.
    Unsubscribe { id: i64 },
    /// Flip one preference of the sender.
    TogglePreference { id: i64, field: PreferenceField },
    /// Run a check now.
    ManualTrigger,
    /// Show the known sites.
    ListKnown,
    /// Show how things stand.
    Status,
}

/// How things stand.
#[derive(Clone, Copy, Debug, PartialEq, Eq, Structural)]
pub struct StatusReport {
    /// How many subscribers there are.
    pub subscribers: usize,
    /// How many sites the baseline holds.
    pub known_entities: usize,
    /// The daily pause.
    pub window: BlackoutWindow,
    /// Whether a check is running.
    pub running: bool,
    /// Whether the hour of the request falls into the pause.
    pub paused: bool,
}

/// What the sender of a request is told.
#[derive(Debug, PartialEq, Eq)]
pub enum Reply {
    /// The sender is subscribed now.
    Subscribed,
    /// The sender was subscribed already.
    AlreadySubscribed,
    /// The sender is no longer subscribed.
    Unsubscribed,
    /// The sender was not subscribed.
    NotSubscribed,
    /// The preference `field` of the sender is `value` now.
    PreferenceSet { field: PreferenceField, value: bool },
    /// A check has been started for the sender.
    CheckStarted,
    /// A check is running already.
    CheckRunning,
    /// The names of the known sites, in ascending order.
    KnownSites { names: Vec<String> },
    /// How things stand.
    Status { report: StatusReport },
}

/// What a [`Reply`] is to the specifications.
pub enum ReplyView {
    Subscribed,
    AlreadySubscribed,
    Unsubscribed,
    NotSubscribed,
    PreferenceSet { field: PreferenceField, value: bool },
    CheckStarted,
    CheckRunning,
    KnownSites { names: Seq<Seq<char>> },
    Status { report: StatusReport },
}

impl View for Reply {
    type V = ReplyView;

    open spec fn view(&self) -> ReplyView {
        match self {
            Reply::Subscribed => ReplyView::Subscribed,
            Reply::AlreadySubscribed => ReplyView::AlreadySubscribed,
            Reply::Unsubscribed => ReplyView::Unsubscribed,
            Reply::NotSubscribed => ReplyView::NotSubscribed,
            Reply::PreferenceSet { field, value } => ReplyView::PreferenceSet {
                field: *field,
                value: *value,
            },
            Reply::CheckStarted => ReplyView::CheckStarted,
            Reply::CheckRunning => ReplyView::CheckRunning,
            Reply::KnownSites { names } => ReplyView::KnownSites { names: names.deep_view() },
            Reply::Status { report } => ReplyView::Status { report: *report },
        }
    }
}

/// The answer to a request, and what is to be done besides answering.
#[derive(Debug, PartialEq, Eq)]
pub struct Outcome {
    pub reply: Reply,
    /// Whether the registry has changed and is to be written.
    pub persist_registry: bool,
    /// Whether a check is to be run now.
    pub start_check: bool,
}

/// The registry after `command`. Only the three requests that speak of a subscriber
/// touch it: subscribing adds who was not there, with the default preferences, and
/// leaves alone who was; unsubscribing takes out; toggling flips one preference, of the
/// defaults where the sender was not subscribed.
pub open spec fn registry_after(m: Map<i64, Preferences>, command: Command) -> Map<
    i64,
    Preferences,
> {
    match command {
        Command::Subscribe { id } => if m.contains_key(id) {
            m
        } else {
            m.insert(id, default_preferences())
        },
        Command::Unsubscribe { id } => m.remove(id),
        Command::TogglePreference { id, field } => m.insert(
            id,
            toggled(preferences_of(m, id), field),
        ),
        _ => m,
    }
}

/// Whether the registry is to be written after `command`: whenever the command changed
/// it, and after every toggle.
pub open spec fn registry_written(m: Map<i64, Preferences>, command: Command) -> bool {
    match command {
        Command::Subscribe { id } => !m.contains_key(id),
        Command::Unsubscribe { id } => m.contains_key(id),
        Command::TogglePreference { .. } => true,
        _ => false,
    }
}

/// The names along `sites`.
pub open spec fn names_along(sites: Seq<EntityView>) -> Seq<Seq<char>> {
    sites.map_values(|e: EntityView| e.name)
}

/// What the sender of `command` is told.
pub open spec fn reply_to(
    m: Map<i64, Preferences>,
    window: BlackoutWindow,
    phase: Phase,
    known: Seq<EntityView>,
    hour: u8,
    command: Command,
) -> ReplyView {
    match command {
        Command::Subscribe { id } => if m.contains_key(id) {
            ReplyView::AlreadySubscribed
        } else {
            ReplyView::Subscribed
        },
        Command::Unsubscribe { id } => if m.contains_key(id) {
            ReplyView::Unsubscribed
        } else {
            ReplyView::NotSubscribed
        },
        Command::TogglePreference { id, field } => ReplyView::PreferenceSet {
            field,
            value: !field_of(preferences_of(m, id), field),
        },
        Command::ManualTrigger => if phase == Phase::Idle {
            ReplyView::CheckStarted
        } else {
            ReplyView::CheckRunning
        },
        Command::ListKnown => ReplyView::KnownSites { names: names_along(known) },
        Command::Status => ReplyView::Status {
            report: StatusReport {
                subscribers: m.dom().len() as usize,
                known_entities: known.len() as usize,
                window,
                running: phase != Phase::Idle,
                paused: in_blackout(window, hour),
            },
        },
    }
}

/// The names of the sites of `baseline`, in ascending order.
pub fn known_names(baseline: &EntitySet) -> (names: Vec<String>)
    ensures
        names.deep_view() == names_along(baseline.sequence()),
        ascending(baseline.sequence()),
{
    let entries = baseline.entities();
    let mut names: Vec<String> = Vec::new();
    let mut i: usize = 0;
    proof {
        assert(names.deep_view() =~= names_along(baseline.sequence().take(0)));
    }
    while i < entries.len()
        invariant
            i <= entries.len(),
            entries.deep_view() == baseline.sequence(),
            names.deep_view() == names_along(baseline.sequence().take(i as int)),
        decreases entries.len() - i,
    {
        let ghost so_far = names.deep_view();
        let name = entries[i].name.clone();
        proof {
            assert(entries.deep_view()[i as int] == entries@[i as int]@);
            assert(name@ == baseline.sequence()[i as int].name);
        }
        names.push(name);
        proof {
            assert(names.deep_view() =~= so_far.push(name@));
            assert(names.deep_view() =~= names_along(baseline.sequence().take(i + 1)));
        }
        i += 1;
    }
    proof {
        assert(baseline.sequence().take(i as int) =~= baseline.sequence());
    }
    names
}

/// Serves one request. `hour` is the hour of the day, local time, at which it came.
///
/// Each request is one operation: on the registry, on the scheduler, or a reading of
/// what is known. A manual trigger starts a check at any hour, unless one is running.
pub fn handle_command(
    command: Command,
    registry: &mut Registry,
    scheduler: &mut Scheduler,
    baseline: &EntitySet,
    hour: u8,
) -> (outcome: Outcome)
    ensures
        final(registry)@ == registry_after(old(registry)@, command),
        final(scheduler).window_spec() == old(scheduler).window_spec(),
        final(scheduler).phase_spec() == (if command == Command::ManualTrigger {
            step(old(scheduler).window_spec(), old(scheduler).phase_spec(), Event::ManualTrigger).0
        } else {
            old(scheduler).phase_spec()
        }),
        outcome.reply@ == reply_to(
            old(registry)@,
            old(scheduler).window_spec(),
            old(scheduler).phase_spec(),
            baseline.sequence(),
            hour,
            command,
        ),
        outcome.persist_registry == registry_written(old(registry)@, command),
        outcome.start_check == (command == Command::ManualTrigger && old(scheduler).phase_spec()
            == Phase::Idle),
{
    match command {
        Command::Subscribe { id } => {
            let is_new = registry.add(id);
            Outcome {
                reply: if is_new {
                    Reply::Subscribed
                } else {
                    Reply::AlreadySubscribed
                },
                persist_registry: is_new,
                start_check: false,
            }
        },
        Command::Unsubscribe { id } => {
            let was_present = registry.remove(id);
            Outcome {
                reply: if was_present {
                    Reply::Unsubscribed
                } else {
                    Reply::NotSubscribed
                },
                persist_registry: was_present,
                start_check: false,
            }
        },
        Command::TogglePreference { id, field } => {
            let value = registry.toggle(id, field);
            Outcome {
                reply: Reply::PreferenceSet { field, value },
                persist_registry: true,
                start_check: false,
            }
        },
        Command::ManualTrigger => {
            let action = scheduler.handle(Event::ManualTrigger);
            match action {
                Action::Fetch => Outcome {
                    reply: Reply::CheckStarted,
                    persist_registry: false,
                    start_check: true,
                },
                _ => Outcome {
                    reply: Reply::CheckRunning,
                    persist_registry: false,
                    start_check: false,
                },
            }
        },
        Command::ListKnown => Outcome {
            reply: Reply::KnownSites { names: known_names(baseline) },
            persist_registry: false,
            start_check: false,
        },
        Command::Status => Outcome {
            reply: Reply::Status {
                report: StatusReport {
                    subscribers: registry.len(),
                    known_entities: baseline.len(),
                    window: scheduler.window(),
                    running: scheduler.is_running(),
                    paused: scheduler.window().covers(hour),
                },
            },
            persist_registry: false,
            start_check: false,
        },
    }
}

} // verus!
