//! Reading the two persisted documents, the baseline and the registry, in their current
//! shape and in the shapes that earlier versions wrote.
//!
//! The caller reads the file and tries the shapes that hold records; the shapes that are
//! plain lists are tried here. The shapes are tried from the newest to the oldest, and
//! the first that fits decides.

use vstd::prelude::*;
use crate::entity::{entity_set_of, Entity, EntitySet, EntityView};
use crate::registry::{
    default_preferences, lemma_registry_of_members, lemma_registry_of_source, lists, registry_of,
    Preferences, Registry, Subscriber,
};

verus! {

/// The error type of `serde_json`.
#[verifier::external_type_specification]
#[verifier::external_body]
pub struct ExJsonError(serde_json::Error);

/// What `serde_json::from_str` makes of `text` when a list of 64-bit integers is asked
/// for: the list, or nothing where it reports an error.
pub uninterp spec fn json_integers(text: Seq<char>) -> Option<Seq<i64>>;

/// What `serde_json::from_str` makes of `text` when a list of strings is asked for: the
/// list, or nothing where it reports an error.
pub uninterp spec fn json_strings(text: Seq<char>) -> Option<Seq<Seq<char>>>;

/// Calls `serde_json::from_str` for a `Vec<i64>`. The result depends on `text` alone and
/// is what [`json_integers`] names.
#[verifier::external_body]
fn parse_integers(text: &str) -> (parsed: Result<Vec<i64>, serde_json::Error>)
    ensures
        parsed matches Ok(list) ==> json_integers(text@) == Some(list@),
        parsed is Err ==> json_integers(text@) is None,
{
    serde_json::from_str::<Vec<i64>>(text)
}

/// Calls `serde_json::from_str` for a `Vec<String>`. The result depends on `text` alone
/// and is what [`json_strings`] names.
#[verifier::external_body]
fn parse_strings(text: &str) -> (parsed: Result<Vec<String>, serde_json::Error>)
    ensures
        parsed matches Ok(list) ==> json_strings(text@) == Some(list.deep_view()),
        parsed is Err ==> json_strings(text@) is None,
{
    serde_json::from_str::<Vec<String>>(text)
}

/// Why a document could not be loaded.
#[derive(Clone, Copy, Debug, PartialEq, Eq, Structural)]
pub enum LoadError {
    /// The document fits none of the known shapes.
    Malformed,
}

/// The coordinate given to a site whose position is not known.
pub open spec fn unknown_coordinate() -> Seq<char> {
    "0"@
}

/// The subscribers of a bare list of identities: each with the default preferences.
pub open spec fn subscribers_from_ids(ids: Seq<i64>) -> Seq<Subscriber> {
    ids.map_values(|id: i64| Subscriber { id, preferences: default_preferences() })
}

/// The subscribers of a list that gives each identity one flag, whether to announce
/// checks that found nothing: the flag is kept, and images are included as by default.
pub open spec fn subscribers_from_flags(flags: Seq<(i64, bool)>) -> Seq<Subscriber> {
    flags.map_values(
        |entry: (i64, bool)|
            Subscriber {
                id: entry.0,
                preferences: Preferences {
                    notify_on_no_change: entry.1,
                    include_images: default_preferences().include_images,
                },
            },
    )
}

/// The sites of a bare list of names: each at an unknown position.
pub open spec fn entities_from_names(names: Seq<Seq<char>>) -> Seq<EntityView> {
    names.map_values(
        |name: Seq<char>|
            EntityView { name, latitude: unknown_coordinate(), longitude: unknown_coordinate() },
    )
}

/// The registry that a document stands for.
///
/// `absent_or_empty` says that there is no document or that it holds nothing: the
/// registry is then empty. Otherwise `current` is what the document holds in the
/// current shape, `flags` in the shape of one flag per identity, `ids` in the shape of a
/// bare list of identities, each of them nothing where the document does not have that
/// shape. The first shape that fits decides; a document that fits none is malformed.
pub open spec fn loaded_registry(
    absent_or_empty: bool,
    current: Option<Seq<Subscriber>>,
    flags: Option<Seq<(i64, bool)>>,
    ids: Option<Seq<i64>>,
) -> Result<Map<i64, Preferences>, LoadError> {
    if absent_or_empty {
        Ok(Map::empty())
    } else if let Some(records) = current {
        Ok(registry_of(records))
    } else if let Some(entries) = flags {
        Ok(registry_of(subscribers_from_flags(entries)))
    } else if let Some(list) = ids {
        Ok(registry_of(subscribers_from_ids(list)))
    } else {
        Err(LoadError::Malformed)
    }
}

/// The baseline that a document stands for.
///
/// `absent_or_empty` says that there is no document or that it holds nothing: the
/// baseline is then empty. Otherwise `current` is what the document holds in the current
/// shape and `names` in the shape of a bare list of names, each of them nothing where
/// the document does not have that shape. The first shape that fits decides; a document
/// that fits none is malformed.
pub open spec fn loaded_baseline(
    absent_or_empty: bool,
    current: Option<Seq<EntityView>>,
    names: Option<Seq<Seq<char>>>,
) -> Result<Set<EntityView>, LoadError> {
    if absent_or_empty {
        Ok(Set::empty())
    } else if let Some(records) = current {
        Ok(entity_set_of(records))
    } else if let Some(list) = names {
        Ok(entity_set_of(entities_from_names(list)))
    } else {
        Err(LoadError::Malformed)
    }
}

/// Whether a load ended as `expected` says: with the same error, or with a value whose
/// view is the expected one.
pub open spec fn loaded_as<T: View>(got: Result<T, LoadError>, expected: Result<T::V, LoadError>) -> bool {
    match (got, expected) {
        (Ok(value), Ok(view)) => value@ == view,
        (Err(e), Err(f)) => e == f,
        _ => false,
    }
}

/// The members of a list that may be there or not.
pub open spec fn members<T>(list: Option<Vec<T>>) -> Option<Seq<T>> {
    match list {
        Some(present) => Some(present@),
        None => None,
    }
}

/// Subscribes a bare list of identities with the default preferences.
pub fn migrate_ids(ids: &Vec<i64>) -> (records: Vec<Subscriber>)
    ensures
        records@ == subscribers_from_ids(ids@),
{
    let mut records: Vec<Subscriber> = Vec::new();
    let mut i: usize = 0;
    while i < ids.len()
        invariant
            i <= ids.len(),
            records@ == subscribers_from_ids(ids@.take(i as int)),
        decreases ids.len() - i,
    {
        records.push(Subscriber { id: ids[i], preferences: Preferences::default() });
        proof {
            assert(records@ =~= subscribers_from_ids(ids@.take(i + 1)));
        }
        i += 1;
    }
    proof {
        assert(ids@.take(i as int) =~= ids@);
    }
    records
}

/// Subscribes a list of identities that come with one flag each.
pub fn migrate_flags(flags: &Vec<(i64, bool)>) -> (records: Vec<Subscriber>)
    ensures
        records@ == subscribers_from_flags(flags@),
{
    let mut records: Vec<Subscriber> = Vec::new();
    let mut i: usize = 0;
    while i < flags.len()
        invariant
            i <= flags.len(),
            records@ == subscribers_from_flags(flags@.take(i as int)),
        decreases flags.len() - i,
    {
        let entry = flags[i];
        records.push(
            Subscriber {
                id: entry.0,
                preferences: Preferences {
                    notify_on_no_change: entry.1,
                    include_images: Preferences::default().include_images,
                },
            },
        );
        proof {
            assert(records@ =~= subscribers_from_flags(flags@.take(i + 1)));
        }
        i += 1;
    }
    proof {
        assert(flags@.take(i as int) =~= flags@);
    }
    records
}

/// Turns a bare list of names into sites at unknown positions.
pub fn migrate_names(names: &Vec<String>) -> (records: Vec<Entity>)
    ensures
        records.deep_view() == entities_from_names(names.deep_view()),
{
    let mut records: Vec<Entity> = Vec::new();
    let mut i: usize = 0;
    proof {
        assert(records.deep_view() =~= entities_from_names(names.deep_view().take(0)));
    }
    while i < names.len()
        invariant
            i <= names.len(),
            records.deep_view() == entities_from_names(names.deep_view().take(i as int)),
        decreases names.len() - i,
    {
        let ghost so_far = records.deep_view();
        let entity = Entity {
            name: names[i].clone(),
            latitude: "0".to_owned(),
            longitude: "0".to_owned(),
        };
        proof {
            assert(entity@ == entities_from_names(names.deep_view())[i as int]);
        }
        records.push(entity);
        proof {
            assert(records.deep_view() =~= so_far.push(entity@));
            assert(records.deep_view() =~= entities_from_names(names.deep_view().take(i + 1)));
        }
        i += 1;
    }
    proof {
        assert(names.deep_view().take(i as int) =~= names.deep_view());
    }
    records
}

/// Builds the registry from what the shapes made of a document: see
/// [`loaded_registry`].
pub fn registry_from_probes(
    absent_or_empty: bool,
    current: Option<Vec<Subscriber>>,
    flags: Option<Vec<(i64, bool)>>,
    ids: Option<Vec<i64>>,
) -> (loaded: Result<Registry, LoadError>)
    ensures
        loaded_as(
            loaded,
            loaded_registry(absent_or_empty, members(current), members(flags), members(ids)),
        ),
{
    if absent_or_empty {
        return Ok(Registry::new());
    }
    if let Some(records) = current {
        return Ok(Registry::from_records(&records));
    }
    if let Some(entries) = flags {
        return Ok(Registry::from_records(&migrate_flags(&entries)));
    }
    if let Some(list) = ids {
        return Ok(Registry::from_records(&migrate_ids(&list)));
    }
    Err(LoadError::Malformed)
}

/// Builds the baseline from what the shapes made of a document: see
/// [`loaded_baseline`].
pub fn baseline_from_probes(
    absent_or_empty: bool,
    current: Option<Vec<Entity>>,
    names: Option<Vec<String>>,
) -> (loaded: Result<EntitySet, LoadError>)
    ensures
        loaded_as(
            loaded,
            loaded_baseline(absent_or_empty, current.deep_view(), names.deep_view()),
        ),
{
    if absent_or_empty {
        return Ok(EntitySet::new());
    }
    if let Some(records) = current {
        return Ok(EntitySet::from_entities(records));
    }
    if let Some(list) = names {
        return Ok(EntitySet::from_entities(migrate_names(&list)));
    }
    Err(LoadError::Malformed)
}

/// Whether there is no document, or one that holds nothing.
pub open spec fn holds_nothing(content: Option<&str>) -> bool {
    match content {
        Some(text) => text@.len() == 0,
        None => true,
    }
}

/// The text of a document; no text where there is no document.
pub open spec fn text_of(content: Option<&str>) -> Seq<char> {
    match content {
        Some(text) => text@,
        None => Seq::empty(),
    }
}

/// Loads the registry.
///
/// `content` is the text of the document, or nothing where there is no document.
/// `current` is what the document holds in the current shape, `flags` in the shape of
/// one flag per identity; each is nothing where the document does not have that shape.
/// The shape of a bare list of identities is tried here, by `serde_json`, when neither
/// of the other two fits.
pub fn load_subscribers(
    content: Option<&str>,
    current: Option<Vec<Subscriber>>,
    flags: Option<Vec<(i64, bool)>>,
) -> (loaded: Result<Registry, LoadError>)
    ensures
        loaded_as(
            loaded,
            loaded_registry(
                holds_nothing(content),
                members(current),
                members(flags),
                json_integers(text_of(content)),
            ),
        ),
{
    let text = match content {
        Some(text) => text,
        None => {
            return registry_from_probes(true, current, flags, None);
        },
    };
    if text.is_empty() {
        return registry_from_probes(true, current, flags, None);
    }
    if current.is_some() || flags.is_some() {
        return registry_from_probes(false, current, flags, None);
    }
    match parse_integers(text) {
        Ok(list) => registry_from_probes(false, None, None, Some(list)),
        Err(_) => Err(LoadError::Malformed),
    }
}

/// Loads the baseline.
///
/// `content` is the text of the document, or nothing where there is no document.
/// `current` is what the document holds in the current shape, or nothing where it does
/// not have that shape. The shape of a bare list of names is tried here, by
/// `serde_json`, when the current one does not fit.
pub fn load_known_cameras(content: Option<&str>, current: Option<Vec<Entity>>) -> (loaded: Result<
    EntitySet,
    LoadError,
>)
    ensures
        loaded_as(
            loaded,
            loaded_baseline(
                holds_nothing(content),
                current.deep_view(),
                json_strings(text_of(content)),
            ),
        ),
{
    let text = match content {
        Some(text) => text,
        None => {
            return baseline_from_probes(true, current, None);
        },
    };
    if text.is_empty() {
        return baseline_from_probes(true, current, None);
    }
    if current.is_some() {
        return baseline_from_probes(false, current, None);
    }
    match parse_strings(text) {
        Ok(list) => baseline_from_probes(false, None, Some(list)),
        Err(_) => Err(LoadError::Malformed),
    }
}

/// A document in the oldest shape, the bare list of identities, subscribes exactly the
/// identities on the list, each with the default preferences.
pub proof fn lemma_bare_ids_get_defaults(ids: Seq<i64>, id: i64)
    ensures
        registry_of(subscribers_from_ids(ids)).contains_key(id) <==> ids.contains(id),
        ids.contains(id) ==> registry_of(subscribers_from_ids(ids))[id] == default_preferences(),
{
    let records = subscribers_from_ids(ids);
    lemma_registry_of_members(records, id);
    if lists(records, id) {
        let i = choose|i: int| 0 <= i < records.len() && (#[trigger] records[i]).id == id;
        assert(ids[i] == id);
    }
    if ids.contains(id) {
        let i = choose|i: int| 0 <= i < ids.len() && ids[i] == id;
        assert(records[i].id == id);
        lemma_registry_of_source(records, id);
    }
}

/// A document in the shape of one flag per identity subscribes exactly the identities
/// it names; each of them has images included, as by default, and announces checks that
/// found nothing as one of its flags says.
pub proof fn lemma_flags_keep_what_was_chosen(flags: Seq<(i64, bool)>, id: i64)
    ensures
        registry_of(subscribers_from_flags(flags)).contains_key(id) <==> exists|i: int|
            0 <= i < flags.len() && (#[trigger] flags[i]).0 == id,
        registry_of(subscribers_from_flags(flags)).contains_key(id) ==> {
            let chosen = registry_of(subscribers_from_flags(flags))[id];
            &&& chosen.include_images == default_preferences().include_images
            &&& exists|i: int|
                0 <= i < flags.len() && (#[trigger] flags[i]).0 == id && flags[i].1
                    == chosen.notify_on_no_change
        },
{
    let records = subscribers_from_flags(flags);
    lemma_registry_of_members(records, id);
    if lists(records, id) {
        let i = choose|i: int| 0 <= i < records.len() && (#[trigger] records[i]).id == id;
        assert(flags[i].0 == id);
    }
    if exists|i: int| 0 <= i < flags.len() && (#[trigger] flags[i]).0 == id {
        let i = choose|i: int| 0 <= i < flags.len() && (#[trigger] flags[i]).0 == id;
        assert(records[i].id == id);
    }
    if registry_of(records).contains_key(id) {
        lemma_registry_of_source(records, id);
        let i = choose|i: int|
            0 <= i < records.len() && (#[trigger] records[i]).id == id && records[i].preferences
                == registry_of(records)[id];
        assert(flags[i].0 == id);
    }
}

} // verus!
