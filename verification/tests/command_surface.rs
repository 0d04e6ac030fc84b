use camera_watch::commands::{handle_command, known_names, Command, Outcome, Reply, StatusReport};
use camera_watch::entity::{Entity, EntitySet};
use camera_watch::registry::{PreferenceField, Preferences, Registry};
use camera_watch::scheduler::{BlackoutWindow, Event, Phase, Scheduler};

fn site(name: &str) -> Entity {
    Entity::new(name.to_string(), 47.05f64.to_string(), 8.3f64.to_string())
}

fn setup() -> (Registry, Scheduler, EntitySet) {
    let baseline = EntitySet::from_entities(vec![site("Zug"), site("Aarau")]);
    (Registry::new(), Scheduler::new(BlackoutWindow::standard()), baseline)
}

fn registry_reply(reply: Reply, persist_registry: bool) -> Outcome {
    Outcome { reply, persist_registry, start_check: false }
}

#[test]
fn subscribe_adds_once() {
    let (mut registry, mut scheduler, baseline) = setup();
    let first = handle_command(Command::Subscribe { id: 1 }, &mut registry, &mut scheduler, &baseline, 12);
    assert_eq!(first, registry_reply(Reply::Subscribed, true));
    let second = handle_command(Command::Subscribe { id: 1 }, &mut registry, &mut scheduler, &baseline, 12);
    assert_eq!(second, registry_reply(Reply::AlreadySubscribed, false));
    assert_eq!(registry.get(1), Some(Preferences { notify_on_no_change: false, include_images: true }));
}

#[test]
fn unsubscribe_removes_once() {
    let (mut registry, mut scheduler, baseline) = setup();
    registry.add(1);
    let first = handle_command(Command::Unsubscribe { id: 1 }, &mut registry, &mut scheduler, &baseline, 12);
    assert_eq!(first, registry_reply(Reply::Unsubscribed, true));
    let second = handle_command(Command::Unsubscribe { id: 1 }, &mut registry, &mut scheduler, &baseline, 12);
    assert_eq!(second, registry_reply(Reply::NotSubscribed, false));
    assert_eq!(registry.len(), 0);
}

#[test]
fn toggle_answers_with_the_new_value_and_is_always_written() {
    let (mut registry, mut scheduler, baseline) = setup();
    let command = Command::TogglePreference { id: 4, field: PreferenceField::IncludeImages };
    let first = handle_command(command, &mut registry, &mut scheduler, &baseline, 12);
    assert_eq!(
        first,
        registry_reply(Reply::PreferenceSet { field: PreferenceField::IncludeImages, value: false }, true)
    );
    let second = handle_command(command, &mut registry, &mut scheduler, &baseline, 12);
    assert_eq!(
        second,
        registry_reply(Reply::PreferenceSet { field: PreferenceField::IncludeImages, value: true }, true)
    );
    let other = Command::TogglePreference { id: 4, field: PreferenceField::NotifyOnNoChange };
    let third = handle_command(other, &mut registry, &mut scheduler, &baseline, 12);
    assert_eq!(
        third,
        registry_reply(Reply::PreferenceSet { field: PreferenceField::NotifyOnNoChange, value: true }, true)
    );
}

#[test]
fn manual_trigger_starts_a_check_even_during_the_pause() {
    let (mut registry, mut scheduler, baseline) = setup();
    let first = handle_command(Command::ManualTrigger, &mut registry, &mut scheduler, &baseline, 3);
    assert_eq!(first, Outcome { reply: Reply::CheckStarted, persist_registry: false, start_check: true });
    assert_eq!(scheduler.phase(), Phase::Fetching);
    let second = handle_command(Command::ManualTrigger, &mut registry, &mut scheduler, &baseline, 3);
    assert_eq!(second, Outcome { reply: Reply::CheckRunning, persist_registry: false, start_check: false });
    assert_eq!(scheduler.phase(), Phase::Fetching);
}

#[test]
fn list_known_names_the_baseline_in_ascending_order() {
    let (mut registry, mut scheduler, baseline) = setup();
    let outcome = handle_command(Command::ListKnown, &mut registry, &mut scheduler, &baseline, 12);
    assert_eq!(
        outcome,
        Outcome {
            reply: Reply::KnownSites { names: vec!["Aarau".to_string(), "Zug".to_string()] },
            persist_registry: false,
            start_check: false,
        }
    );
    assert_eq!(known_names(&EntitySet::new()), Vec::<String>::new());
}

#[test]
fn status_counts_subscribers_and_sites() {
    let (mut registry, mut scheduler, baseline) = setup();
    registry.add(1);
    registry.add(2);
    registry.add(3);
    let idle = handle_command(Command::Status, &mut registry, &mut scheduler, &baseline, 3);
    assert_eq!(
        idle.reply,
        Reply::Status {
            report: StatusReport {
                subscribers: 3,
                known_entities: 2,
                window: BlackoutWindow { start_hour: 2, end_hour: 7 },
                running: false,
                paused: true,
            }
        }
    );
    assert!(!idle.persist_registry);
    assert!(!idle.start_check);
    scheduler.handle(Event::ManualTrigger);
    let running = handle_command(Command::Status, &mut registry, &mut scheduler, &baseline, 12);
    assert_eq!(
        running.reply,
        Reply::Status {
            report: StatusReport {
                subscribers: 3,
                known_entities: 2,
                window: BlackoutWindow { start_hour: 2, end_hour: 7 },
                running: true,
                paused: false,
            }
        }
    );
    assert_eq!(registry.len(), 3);
}
