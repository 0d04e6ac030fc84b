use camera_watch::detect::{diff, Diff};
use camera_watch::entity::{Entity, EntitySet};
use camera_watch::fanout::{Delivery, Message};
use camera_watch::pipeline::{run_cycle, CycleError};
use camera_watch::registry::{Preferences, Subscriber};

fn site(name: &str, latitude: f64, longitude: f64) -> Entity {
    Entity::new(name.to_string(), latitude.to_string(), longitude.to_string())
}

fn set_of(sites: &[Entity]) -> EntitySet {
    EntitySet::from_entities(sites.to_vec())
}

fn names(list: &Vec<Entity>) -> Vec<String> {
    list.iter().map(|e| e.name.clone()).collect()
}

#[test]
fn diff_reports_what_is_new_in_ascending_order() {
    let baseline = set_of(&[site("B", 1.0, 1.0), site("D", 2.0, 2.0)]);
    let current = set_of(&[
        site("E", 5.0, 5.0),
        site("A", 0.5, 0.5),
        site("D", 2.0, 2.0),
        site("C", 3.0, 3.0),
        site("B", 1.0, 1.0),
    ]);
    let d = diff(&current, &baseline);
    assert_eq!(names(&d.added), vec!["A", "C", "E"]);
    assert_eq!(d.added[0], site("A", 0.5, 0.5));
    assert!(d.changed);
}

#[test]
fn diff_of_a_set_with_itself_is_empty_and_unchanged() {
    let listing = set_of(&[site("A", 1.0, 2.0), site("B", 3.0, 4.0)]);
    let again = set_of(&[site("B", 3.0, 4.0), site("A", 1.0, 2.0)]);
    assert_eq!(diff(&listing, &again), Diff { added: vec![], changed: false });
}

#[test]
fn diff_sees_a_removal_as_a_change_without_additions() {
    let baseline = set_of(&[site("A", 1.0, 2.0), site("B", 3.0, 4.0)]);
    let current = set_of(&[site("A", 1.0, 2.0)]);
    assert_eq!(diff(&current, &baseline), Diff { added: vec![], changed: true });
}

#[test]
fn diff_sees_moved_coordinates_as_a_change_without_additions() {
    let baseline = set_of(&[site("A", 0.0, 0.0)]);
    let current = set_of(&[site("A", 47.05, 8.3)]);
    assert_eq!(diff(&current, &baseline), Diff { added: vec![], changed: true });
}

#[test]
fn diff_against_an_empty_baseline_adds_everything() {
    let current = set_of(&[site("b", 1.0, 1.0), site("a", 2.0, 2.0)]);
    let d = diff(&current, &EntitySet::new());
    assert_eq!(names(&d.added), vec!["a", "b"]);
    assert!(d.changed);
}

#[test]
fn diff_of_two_empty_sets_finds_nothing() {
    assert_eq!(diff(&EntitySet::new(), &EntitySet::new()), Diff { added: vec![], changed: false });
}

#[test]
fn entity_set_keeps_the_later_of_two_sites_with_one_name() {
    let set = set_of(&[site("A", 1.0, 1.0), site("B", 2.0, 2.0), site("A", 9.0, 9.0)]);
    assert_eq!(set.len(), 2);
    assert_eq!(set.entities(), &vec![site("A", 9.0, 9.0), site("B", 2.0, 2.0)]);
    assert!(set.contains(&site("A", 9.0, 9.0)));
    assert!(!set.contains(&site("A", 1.0, 1.0)));
    assert!(set.contains_name("A"));
    assert!(!set.contains_name("C"));
}

#[test]
fn entity_set_insert_says_whether_a_site_gave_way() {
    let mut set = EntitySet::new();
    assert!(set.is_empty());
    assert!(!set.insert(site("M", 1.0, 1.0)));
    assert!(!set.insert(site("A", 1.0, 1.0)));
    assert!(!set.insert(site("Z", 1.0, 1.0)));
    assert!(set.insert(site("M", 2.0, 2.0)));
    assert!(!set.is_empty());
    assert_eq!(names(set.entities()), vec!["A", "M", "Z"]);
}

#[test]
fn entity_sets_compare_by_name_and_position() {
    let a = set_of(&[site("A", 1.0, 1.0), site("B", 2.0, 2.0)]);
    let b = set_of(&[site("B", 2.0, 2.0), site("A", 1.0, 1.0)]);
    let c = set_of(&[site("A", 1.0, 1.0)]);
    assert!(a.same_as(&b));
    assert!(!a.same_as(&c));
    assert!(c.is_subset_of(&a));
    assert!(!a.is_subset_of(&c));
    assert!(EntitySet::new().is_subset_of(&c));
}

#[test]
fn new_site_is_announced_as_text_to_a_subscriber_without_images() {
    let baseline = set_of(&[site("A", 1.0, 1.0)]);
    let fetched = set_of(&[site("A", 1.0, 1.0), site("B", 2.0, 2.0)]);
    let s1 = Subscriber {
        id: 1,
        preferences: Preferences { notify_on_no_change: false, include_images: false },
    };
    let cycle = run_cycle(&fetched, &baseline, &vec![s1], true).unwrap();
    assert_eq!(cycle.added, vec![site("B", 2.0, 2.0)]);
    assert!(cycle.changed);
    assert_eq!(
        cycle.plan,
        vec![
            Delivery { recipient: 1, message: Message::Header { count: 1 } },
            Delivery {
                recipient: 1,
                message: Message::NewEntity { entity: site("B", 2.0, 2.0), with_image: false },
            },
        ]
    );
    let about_b: Vec<&Delivery> = cycle
        .plan
        .iter()
        .filter(|d| matches!(d.message, Message::NewEntity { .. }))
        .collect();
    assert_eq!(about_b.len(), 1);
    assert_eq!(fetched.entities(), &vec![site("A", 1.0, 1.0), site("B", 2.0, 2.0)]);
}

#[test]
fn empty_listing_is_refused_and_leaves_the_baseline_alone() {
    let baseline = set_of(&[site("A", 1.0, 1.0), site("B", 2.0, 2.0)]);
    let s1 = Subscriber {
        id: 1,
        preferences: Preferences { notify_on_no_change: true, include_images: true },
    };
    let outcome = run_cycle(&EntitySet::new(), &baseline, &vec![s1], true);
    assert_eq!(outcome, Err(CycleError::EmptyListing));
    assert_eq!(baseline.entities(), &vec![site("A", 1.0, 1.0), site("B", 2.0, 2.0)]);
}

#[test]
fn second_run_on_the_same_listing_is_quiet() {
    let before = set_of(&[site("A", 1.0, 1.0)]);
    let fetched = set_of(&[site("A", 1.0, 1.0), site("B", 2.0, 2.0)]);
    let quiet = Subscriber {
        id: 1,
        preferences: Preferences { notify_on_no_change: false, include_images: true },
    };
    let subscribers = vec![quiet];
    let first = run_cycle(&fetched, &before, &subscribers, true).unwrap();
    assert!(first.changed);
    assert_eq!(first.plan.len(), 2);
    let then = set_of(fetched.entities());
    let second = run_cycle(&fetched, &then, &subscribers, true).unwrap();
    assert_eq!(second.added, vec![]);
    assert!(!second.changed);
    assert_eq!(second.plan, vec![]);
}
