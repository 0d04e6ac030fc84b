use camera_watch::entity::Entity;
use camera_watch::registry::{Preferences, Subscriber};
use camera_watch::store::{
    baseline_from_probes, load_known_cameras, load_subscribers, migrate_flags, migrate_ids,
    migrate_names, registry_from_probes, LoadError,
};

fn sub(id: i64, notify_on_no_change: bool, include_images: bool) -> Subscriber {
    Subscriber { id, preferences: Preferences { notify_on_no_change, include_images } }
}

fn site(name: &str, latitude: &str, longitude: &str) -> Entity {
    Entity::new(name.to_string(), latitude.to_string(), longitude.to_string())
}

#[test]
fn oldest_registry_shape_gets_default_preferences() {
    let registry = load_subscribers(Some("[30, 10, 20, 10]"), None, None).unwrap();
    assert_eq!(
        registry.snapshot(),
        vec![sub(10, false, true), sub(20, false, true), sub(30, false, true)]
    );
}

#[test]
fn oldest_registry_shape_may_be_an_empty_list() {
    let registry = load_subscribers(Some(" [ ] "), None, None).unwrap();
    assert_eq!(registry.snapshot(), vec![]);
}

#[test]
fn registry_with_one_flag_per_identity_keeps_the_flag_and_includes_images() {
    let flags = vec![(5i64, true), (6, false)];
    let registry = load_subscribers(Some("{\"5\":{\"notify_no_updates\":true}}"), None, Some(flags))
        .unwrap();
    assert_eq!(registry.snapshot(), vec![sub(5, true, true), sub(6, false, true)]);
}

#[test]
fn current_registry_shape_is_taken_as_it_is() {
    let current = vec![sub(2, true, false), sub(1, false, true)];
    let registry = load_subscribers(Some("{}"), Some(current), Some(vec![(9, true)])).unwrap();
    assert_eq!(registry.snapshot(), vec![sub(1, false, true), sub(2, true, false)]);
}

#[test]
fn absent_or_empty_registry_document_is_an_empty_registry() {
    assert_eq!(load_subscribers(None, None, None).unwrap().snapshot(), vec![]);
    assert_eq!(load_subscribers(Some(""), None, None).unwrap().snapshot(), vec![]);
    assert_eq!(
        load_subscribers(Some(""), Some(vec![sub(1, true, true)]), None).unwrap().snapshot(),
        vec![]
    );
}

#[test]
fn registry_document_of_no_known_shape_is_malformed() {
    for text in ["not json", "[1, \"two\"]", "{\"a\": 1}", "[1, 2", "12", "[1.5]", "null", "[1] x"] {
        let loaded = load_subscribers(Some(text), None, None);
        assert_eq!(loaded.err(), Some(LoadError::Malformed), "{:?}", text);
    }
}

#[test]
fn registry_list_takes_the_whole_range_of_identities() {
    let registry =
        load_subscribers(Some("[-9223372036854775808, 9223372036854775807]"), None, None).unwrap();
    assert_eq!(
        registry.snapshot(),
        vec![sub(i64::MIN, false, true), sub(i64::MAX, false, true)]
    );
    assert_eq!(
        load_subscribers(Some("[9223372036854775808]"), None, None).err(),
        Some(LoadError::Malformed)
    );
}

#[test]
fn registry_probes_are_tried_from_the_newest_shape_down() {
    let current = Some(vec![sub(1, true, true)]);
    let flags = Some(vec![(2i64, true)]);
    let ids = Some(vec![3i64]);
    let all = registry_from_probes(false, current.clone(), flags.clone(), ids.clone()).unwrap();
    assert_eq!(all.snapshot(), vec![sub(1, true, true)]);
    let two = registry_from_probes(false, None, flags.clone(), ids.clone()).unwrap();
    assert_eq!(two.snapshot(), vec![sub(2, true, true)]);
    let one = registry_from_probes(false, None, None, ids.clone()).unwrap();
    assert_eq!(one.snapshot(), vec![sub(3, false, true)]);
    assert_eq!(registry_from_probes(false, None, None, None).err(), Some(LoadError::Malformed));
    let none = registry_from_probes(true, current, flags, ids).unwrap();
    assert_eq!(none.snapshot(), vec![]);
}

#[test]
fn migrations_fill_in_the_defaults() {
    assert_eq!(migrate_ids(&vec![4, 4, 1]), vec![sub(4, false, true), sub(4, false, true), sub(1, false, true)]);
    assert_eq!(migrate_flags(&vec![(4, true), (1, false)]), vec![sub(4, true, true), sub(1, false, true)]);
    assert_eq!(
        migrate_names(&vec!["B".to_string(), "A".to_string()]),
        vec![site("B", "0", "0"), site("A", "0", "0")]
    );
    assert_eq!(site("B", "0", "0").latitude, 0.0f64.to_string());
}

#[test]
fn legacy_baseline_is_a_list_of_names_at_unknown_positions() {
    let baseline = load_known_cameras(Some("[\"Zug\", \"Aarau\", \"Zug\"]"), None).unwrap();
    assert_eq!(baseline.entities(), &vec![site("Aarau", "0", "0"), site("Zug", "0", "0")]);
}

#[test]
fn legacy_baseline_reads_json_escapes() {
    let baseline = load_known_cameras(Some("[\"Z\\u00fcrich \\\"Nord\\\"\"]"), None).unwrap();
    assert_eq!(baseline.entities(), &vec![site("Z\u{fc}rich \"Nord\"", "0", "0")]);
}

#[test]
fn current_baseline_shape_is_taken_as_it_is() {
    let current = vec![site("B", "2.5", "3"), site("A", "47.05", "8.3"), site("B", "9", "9")];
    let baseline = load_known_cameras(Some("[{}]"), Some(current)).unwrap();
    assert_eq!(baseline.entities(), &vec![site("A", "47.05", "8.3"), site("B", "9", "9")]);
}

#[test]
fn absent_or_empty_baseline_document_is_an_empty_baseline() {
    assert!(load_known_cameras(None, None).unwrap().is_empty());
    assert!(load_known_cameras(Some(""), None).unwrap().is_empty());
    assert!(load_known_cameras(Some("[]"), None).unwrap().is_empty());
}

#[test]
fn baseline_document_of_no_known_shape_is_malformed() {
    for text in ["{", "[1, 2]", "{\"name\": \"A\"}", "\"A\"", "[\"A\"", " "] {
        let loaded = load_known_cameras(Some(text), None);
        assert_eq!(loaded.err(), Some(LoadError::Malformed), "{:?}", text);
    }
}

#[test]
fn baseline_probes_are_tried_from_the_newest_shape_down() {
    let current = Some(vec![site("A", "1", "2")]);
    let names = Some(vec!["B".to_string()]);
    let both = baseline_from_probes(false, current.clone(), names.clone()).unwrap();
    assert_eq!(both.entities(), &vec![site("A", "1", "2")]);
    let legacy = baseline_from_probes(false, None, names.clone()).unwrap();
    assert_eq!(legacy.entities(), &vec![site("B", "0", "0")]);
    assert_eq!(baseline_from_probes(false, None, None).err(), Some(LoadError::Malformed));
    assert!(baseline_from_probes(true, current, names).unwrap().is_empty());
}
