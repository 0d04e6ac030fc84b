use camera_watch::registry::{PreferenceField, Preferences, Registry, Subscriber};

fn prefs(notify_on_no_change: bool, include_images: bool) -> Preferences {
    Preferences { notify_on_no_change, include_images }
}

#[test]
fn default_preferences_are_quiet_with_images() {
    assert_eq!(Preferences::default(), prefs(false, true));
}

#[test]
fn add_subscribes_with_defaults_and_says_whether_new() {
    let mut registry = Registry::new();
    assert_eq!(registry.len(), 0);
    assert!(registry.add(42));
    assert!(!registry.add(42));
    assert_eq!(registry.len(), 1);
    assert!(registry.contains(42));
    assert_eq!(registry.get(42), Some(prefs(false, true)));
    assert_eq!(registry.get(7), None);
}

#[test]
fn add_leaves_a_known_subscriber_as_it_was() {
    let mut registry = Registry::new();
    registry.add(42);
    registry.toggle(42, PreferenceField::IncludeImages);
    assert!(!registry.add(42));
    assert_eq!(registry.get(42), Some(prefs(false, false)));
}

#[test]
fn remove_takes_out_and_says_whether_present() {
    let mut registry = Registry::new();
    registry.add(1);
    registry.add(2);
    assert!(registry.remove(1));
    assert!(!registry.remove(1));
    assert!(!registry.contains(1));
    assert!(registry.contains(2));
    assert_eq!(registry.len(), 1);
}

#[test]
fn toggle_flips_one_field_and_returns_the_new_value() {
    let mut registry = Registry::new();
    registry.add(5);
    assert!(registry.toggle(5, PreferenceField::NotifyOnNoChange));
    assert_eq!(registry.get(5), Some(prefs(true, true)));
    assert!(!registry.toggle(5, PreferenceField::IncludeImages));
    assert_eq!(registry.get(5), Some(prefs(true, false)));
    assert!(!registry.toggle(5, PreferenceField::NotifyOnNoChange));
    assert_eq!(registry.get(5), Some(prefs(false, false)));
}

#[test]
fn toggle_subscribes_an_unknown_sender_with_defaults_first() {
    let mut registry = Registry::new();
    assert!(!registry.toggle(9, PreferenceField::IncludeImages));
    assert_eq!(registry.get(9), Some(prefs(false, false)));
    assert!(registry.toggle(10, PreferenceField::NotifyOnNoChange));
    assert_eq!(registry.get(10), Some(prefs(true, true)));
}

#[test]
fn preferences_or_default_answers_for_strangers() {
    let mut registry = Registry::new();
    registry.set(3, prefs(true, false));
    assert_eq!(registry.preferences_or_default(3), prefs(true, false));
    assert_eq!(registry.preferences_or_default(4), prefs(false, true));
}

#[test]
fn snapshot_lists_subscribers_in_ascending_order_of_identity() {
    let mut registry = Registry::new();
    for id in [30i64, -5, 12, 7, i64::MAX, i64::MIN, 0] {
        registry.add(id);
    }
    registry.toggle(12, PreferenceField::NotifyOnNoChange);
    let ids: Vec<i64> = registry.snapshot().iter().map(|s| s.id).collect();
    assert_eq!(ids, vec![i64::MIN, -5, 0, 7, 12, 30, i64::MAX]);
    assert_eq!(registry.snapshot()[4], Subscriber { id: 12, preferences: prefs(true, true) });
    assert_eq!(Registry::new().snapshot(), vec![]);
}

#[test]
fn snapshot_is_a_copy_that_later_changes_do_not_touch() {
    let mut registry = Registry::new();
    registry.add(1);
    let before = registry.snapshot();
    registry.add(2);
    registry.toggle(1, PreferenceField::IncludeImages);
    assert_eq!(before, vec![Subscriber { id: 1, preferences: prefs(false, true) }]);
}

#[test]
fn from_records_keeps_the_later_of_two_records_with_one_identity() {
    let records = vec![
        Subscriber { id: 2, preferences: prefs(true, true) },
        Subscriber { id: 1, preferences: prefs(false, false) },
        Subscriber { id: 2, preferences: prefs(false, false) },
    ];
    let registry = Registry::from_records(&records);
    assert_eq!(
        registry.snapshot(),
        vec![
            Subscriber { id: 1, preferences: prefs(false, false) },
            Subscriber { id: 2, preferences: prefs(false, false) },
        ]
    );
}

#[test]
fn saving_and_loading_gives_back_the_same_records() {
    let mut registry = Registry::new();
    registry.add(8);
    registry.toggle(3, PreferenceField::NotifyOnNoChange);
    registry.toggle(5, PreferenceField::IncludeImages);
    let saved = registry.snapshot();
    let loaded = Registry::from_records(&saved);
    assert_eq!(loaded.snapshot(), saved);
}
