//! The subscriber registry: who receives notifications, and with which preferences.

use std::collections::HashMap;
use vstd::prelude::*;
use vstd::std_specs::hash::group_hash_axioms;

verus! {

broadcast use group_hash_axioms;

/// What one subscriber has chosen.
#[derive(Clone, Copy, Debug, PartialEq, Eq, Structural)]
pub struct Preferences {
    /// Whether a check that found nothing new is announced too.
    pub notify_on_no_change: bool,
    /// Whether a map image goes with each new site.
    pub include_images: bool,
}

/// The preferences of a subscriber who has not chosen: silence after a check that found
/// nothing new, and a map image with each new site.
pub open spec fn default_preferences() -> Preferences {
    Preferences { notify_on_no_change: false, include_images: true }
}

impl Default for Preferences {
    fn default() -> (preferences: Self)
        ensures
            preferences == default_preferences(),
    {
        Preferences { notify_on_no_change: false, include_images: true }
    }
}

/// Names one of the two preferences.
#[derive(Clone, Copy, Debug, PartialEq, Eq, Structural)]
pub enum PreferenceField {
    NotifyOnNoChange,
    IncludeImages,
}

/// `preferences` with the named field flipped and the other one as it was.
pub open spec fn toggled(preferences: Preferences, field: PreferenceField) -> Preferences {
    match field {
        PreferenceField::NotifyOnNoChange => Preferences {
            notify_on_no_change: !preferences.notify_on_no_change,
            include_images: preferences.include_images,
        },
        PreferenceField::IncludeImages => Preferences {
            notify_on_no_change: preferences.notify_on_no_change,
            include_images: !preferences.include_images,
        },
    }
}

/// The named field of `preferences`.
pub open spec fn field_of(preferences: Preferences, field: PreferenceField) -> bool {
    match field {
        PreferenceField::NotifyOnNoChange => preferences.notify_on_no_change,
        PreferenceField::IncludeImages => preferences.include_images,
    }
}

/// What `id` has chosen according to `m`; the defaults where `m` does not know `id`.
pub open spec fn preferences_of(m: Map<i64, Preferences>, id: i64) -> Preferences {
    if m.contains_key(id) {
        m[id]
    } else {
        default_preferences()
    }
}

/// One subscriber: an identity and what it has chosen.
#[derive(Clone, Copy, Debug, PartialEq, Eq, Structural)]
pub struct Subscriber {
    pub id: i64,
    pub preferences: Preferences,
}

impl View for Subscriber {
    type V = Subscriber;

    open spec fn view(&self) -> Subscriber {
        *self
    }
}

impl DeepView for Subscriber {
    type V = Subscriber;

    open spec fn deep_view(&self) -> Subscriber {
        *self
    }
}

/// Whether the identities along `s` strictly ascend.
pub open spec fn ascending_ids(s: Seq<Subscriber>) -> bool {
    forall|i: int, j: int| 0 <= i < j < s.len() ==> (#[trigger] s[i]).id < (#[trigger] s[j]).id
}

/// Whether `id` occurs along `s`.
pub open spec fn lists(s: Seq<Subscriber>, id: i64) -> bool {
    exists|i: int| 0 <= i < s.len() && (#[trigger] s[i]).id == id
}

/// Whether `s` lists the subscribers of `m`, each of them once and with what it has
/// chosen, in ascending order of identity.
pub open spec fn is_snapshot(s: Seq<Subscriber>, m: Map<i64, Preferences>) -> bool {
    &&& ascending_ids(s)
    &&& forall|i: int|
        0 <= i < s.len() ==> m.contains_key((#[trigger] s[i]).id) && m[s[i].id] == s[i].preferences
    &&& forall|id: i64| #[trigger] m.contains_key(id) ==> lists(s, id)
}

/// The registry that results from subscribing the members of `s` one after the other,
/// each with the preferences it comes with; of two members with one identity the later
/// one stays.
pub open spec fn registry_of(s: Seq<Subscriber>) -> Map<i64, Preferences>
    decreases s.len(),
{
    if s.len() == 0 {
        Map::empty()
    } else {
        registry_of(s.drop_last()).insert(s.last().id, s.last().preferences)
    }
}

/// The subscribers, each identity at most once.
pub struct Registry {
    subscribers: HashMap<i64, Preferences>,
}

impl View for Registry {
    type V = Map<i64, Preferences>;

    closed spec fn view(&self) -> Map<i64, Preferences> {
        self.subscribers@
    }
}

impl Registry {
    /// A registry without subscribers.
    pub fn new() -> (registry: Registry)
        ensures
            registry@ == Map::<i64, Preferences>::empty(),
    {
        Registry { subscribers: HashMap::new() }
    }

    /// How many subscribers there are.
    pub fn len(&self) -> (n: usize)
        ensures
            n == self@.dom().len(),
            self@.dom().finite(),
    {
        self.subscribers.len()
    }

    /// Whether `id` is subscribed.
    pub fn contains(&self, id: i64) -> (subscribed: bool)
        ensures
            subscribed == self@.contains_key(id),
    {
        self.subscribers.contains_key(&id)
    }

    /// What `id` has chosen, if it is subscribed.
    pub fn get(&self, id: i64) -> (preferences: Option<Preferences>)
        ensures
            preferences == (if self@.contains_key(id) {
                Some(self@[id])
            } else {
                None
            }),
    {
        match self.subscribers.get(&id) {
            Some(p) => Some(*p),
            None => None,
        }
    }

    /// What `id` has chosen; the defaults if it is not subscribed.
    pub fn preferences_or_default(&self, id: i64) -> (preferences: Preferences)
        ensures
            preferences == preferences_of(self@, id),
    {
        match self.subscribers.get(&id) {
            Some(p) => *p,
            None => Preferences::default(),
        }
    }

    /// Subscribes `id` with the default preferences. Says whether `id` is new; one that
    /// was subscribed already keeps what it had chosen.
    pub fn add(&mut self, id: i64) -> (is_new: bool)
        ensures
            is_new == !old(self)@.contains_key(id),
            final(self)@ == (if is_new {
                old(self)@.insert(id, default_preferences())
            } else {
                old(self)@
            }),
    {
        if self.subscribers.contains_key(&id) {
            false
        } else {
            self.subscribers.insert(id, Preferences::default());
            true
        }
    }

    /// Takes `id` out. Says whether it was subscribed.
    pub fn remove(&mut self, id: i64) -> (was_present: bool)
        ensures
            was_present == old(self)@.contains_key(id),
            final(self)@ == old(self)@.remove(id),
    {
        let removed = self.subscribers.remove(&id);
        removed.is_some()
    }

    /// Flips one preference of `id` and returns its new value. An `id` that is not
    /// subscribed is subscribed first, with the defaults.
    pub fn toggle(&mut self, id: i64, field: PreferenceField) -> (new_value: bool)
        ensures
            final(self)@ == old(self)@.insert(id, toggled(preferences_of(old(self)@, id), field)),
            new_value == field_of(final(self)@[id], field),
            new_value == !field_of(preferences_of(old(self)@, id), field),
    {
        let current = self.preferences_or_default(id);
        let next = match field {
            PreferenceField::NotifyOnNoChange => Preferences {
                notify_on_no_change: !current.notify_on_no_change,
                include_images: current.include_images,
            },
            PreferenceField::IncludeImages => Preferences {
                notify_on_no_change: current.notify_on_no_change,
                include_images: !current.include_images,
            },
        };
        self.subscribers.insert(id, next);
        match field {
            PreferenceField::NotifyOnNoChange => next.notify_on_no_change,
            PreferenceField::IncludeImages => next.include_images,
        }
    }

    /// Subscribes `id` with `preferences`, in place of what it may have chosen before.
    pub fn set(&mut self, id: i64, preferences: Preferences)
        ensures
            final(self)@ == old(self)@.insert(id, preferences),
    {
        self.subscribers.insert(id, preferences);
    }

    /// The registry that holds the members of `records`; of two members with one
    /// identity the later one stays.
    pub fn from_records(records: &Vec<Subscriber>) -> (registry: Registry)
        ensures
            registry@ == registry_of(records@),
    {
        let mut registry = Registry::new();
        let mut i: usize = 0;
        proof {
            assert(records@.take(0) =~= Seq::<Subscriber>::empty());
        }
        while i < records.len()
            invariant
                i <= records.len(),
                registry@ == registry_of(records@.take(i as int)),
            decreases records.len() - i,
        {
            proof {
                let prefix = records@.take(i + 1);
                assert(prefix.drop_last() =~= records@.take(i as int));
                assert(prefix.last() == records@[i as int]);
            }
            registry.set(records[i].id, records[i].preferences);
            i += 1;
        }
        proof {
            assert(records@.take(i as int) =~= records@);
        }
        registry
    }

    /// A copy of the subscribers as they are now, in ascending order of identity.
    pub fn snapshot(&self) -> (list: Vec<Subscriber>)
        ensures
            is_snapshot(list@, self@),
    {
        let mut list: Vec<Subscriber> = Vec::new();
        for id in it: self.subscribers.keys()
            invariant
                it.seq().unref().to_set() == self@.dom(),
                ascending_ids(list@),
                forall|i: int|
                    0 <= i < list@.len() ==> self@.contains_key((#[trigger] list@[i]).id)
                        && self@[list@[i].id] == list@[i].preferences,
                forall|j: int| 0 <= j < it.index() ==> lists(list@, *(#[trigger] it.seq()[j])),
        {
            let ghost before = list@;
            proof {
                assert(it.seq().unref()[it.index()] == *id);
                assert(it.seq().unref().to_set().contains(*id));
            }
            let subscriber = Subscriber { id: *id, preferences: self.preferences_or_default(*id) };
            let at = place_by_id(&mut list, subscriber);
            proof {
                assert forall|j: int| 0 <= j < it.index() + 1 implies lists(
                    list@,
                    *(#[trigger] it.seq()[j]),
                ) by {
                    if j < it.index() {
                        let k = choose|k: int|
                            0 <= k < before.len() && (#[trigger] before[k]).id == *it.seq()[j];
                        if list@ == before {
                            assert(list@[k].id == *it.seq()[j]);
                        } else if k < at {
                            assert(list@[k].id == *it.seq()[j]);
                        } else {
                            assert(list@[k + 1].id == *it.seq()[j]);
                        }
                    } else {
                        assert(list@[at as int].id == *it.seq()[j]);
                    }
                }
            }
        }
        list
    }
}

/// Puts `subscriber` into `list` at the place that its identity asks for, unless the
/// identity is there already. Returns the index at which the identity now stands.
fn place_by_id(list: &mut Vec<Subscriber>, subscriber: Subscriber) -> (at: usize)
    requires
        ascending_ids(old(list)@),
    ensures
        ascending_ids(final(list)@),
        at <= old(list)@.len(),
        at < final(list)@.len(),
        final(list)@[at as int].id == subscriber.id,
        final(list)@ == old(list)@ || final(list)@ == old(list)@.insert(at as int, subscriber),
{
    let mut i: usize = 0;
    while i < list.len() && list[i].id < subscriber.id
        invariant
            i <= list.len(),
            list@ == old(list)@,
            forall|j: int| 0 <= j < i ==> (#[trigger] list@[j]).id < subscriber.id,
        decreases list.len() - i,
    {
        i += 1;
    }
    if i < list.len() && list[i].id == subscriber.id {
        return i;
    }
    list.insert(i, subscriber);
    proof {
        let s = old(list)@;
        let t = list@;
        assert forall|a: int, b: int| 0 <= a < b < t.len() implies (#[trigger] t[a]).id < (
        #[trigger] t[b]).id by {
            if b < i {
                assert(t[a] == s[a] && t[b] == s[b]);
            } else if b == i {
                assert(t[a] == s[a]);
            } else if a < i {
                assert(t[a] == s[a] && t[b] == s[b - 1]);
                if i < b - 1 {
                    assert(s[i as int].id < s[b - 1].id);
                }
            } else if a == i {
                assert(t[b] == s[b - 1]);
                if i < b - 1 {
                    assert(s[i as int].id < s[b - 1].id);
                }
            } else {
                assert(t[a] == s[a - 1] && t[b] == s[b - 1]);
            }
        }
    }
    i
}

/// A front part of an ascending list is ascending.
proof fn lemma_front_ascending(s: Seq<Subscriber>)
    requires
        ascending_ids(s),
        s.len() > 0,
    ensures
        ascending_ids(s.drop_last()),
{
    let front = s.drop_last();
    assert forall|i: int, j: int| 0 <= i < j < front.len() implies (#[trigger] front[i]).id < (
    #[trigger] front[j]).id by {
        assert(front[i] == s[i] && front[j] == s[j]);
    }
}

/// The registry made from a list knows exactly the identities on the list.
pub proof fn lemma_registry_of_members(s: Seq<Subscriber>, id: i64)
    ensures
        registry_of(s).contains_key(id) <==> lists(s, id),
    decreases s.len(),
{
    if s.len() > 0 {
        let front = s.drop_last();
        lemma_registry_of_members(front, id);
        if lists(front, id) {
            let i = choose|i: int| 0 <= i < front.len() && (#[trigger] front[i]).id == id;
            assert(s[i].id == id);
        }
        if lists(s, id) {
            let i = choose|i: int| 0 <= i < s.len() && (#[trigger] s[i]).id == id;
            if i < s.len() - 1 {
                assert(front[i].id == id);
            }
        }
        assert(s.last() == s[s.len() - 1]);
    }
}

/// The registry made from an ascending list gives each member what the list says it
/// has chosen.
pub proof fn lemma_registry_of_values(s: Seq<Subscriber>, i: int)
    requires
        ascending_ids(s),
        0 <= i < s.len(),
    ensures
        registry_of(s).contains_key(s[i].id),
        registry_of(s)[s[i].id] == s[i].preferences,
    decreases s.len(),
{
    if i < s.len() - 1 {
        let front = s.drop_last();
        lemma_front_ascending(s);
        assert(front[i] == s[i]);
        lemma_registry_of_values(front, i);
        assert(s[i].id < s[s.len() - 1].id);
    }
}

/// What the registry made from a list says of an identity, some member of the list
/// with that identity says.
pub proof fn lemma_registry_of_source(s: Seq<Subscriber>, id: i64)
    requires
        registry_of(s).contains_key(id),
    ensures
        exists|i: int|
            0 <= i < s.len() && (#[trigger] s[i]).id == id && s[i].preferences == registry_of(s)[id],
    decreases s.len(),
{
    if s.len() > 0 {
        let last = s[s.len() - 1];
        if last.id == id {
            assert(s[s.len() - 1].preferences == registry_of(s)[id]);
        } else {
            lemma_registry_of_source(s.drop_last(), id);
            let i = choose|i: int|
                0 <= i < s.drop_last().len() && (#[trigger] s.drop_last()[i]).id == id
                    && s.drop_last()[i].preferences == registry_of(s.drop_last())[id];
            assert(s[i] == s.drop_last()[i]);
        }
    }
}

/// Loading what was saved gives back the registry that was saved.
pub proof fn lemma_snapshot_round_trip(s: Seq<Subscriber>, m: Map<i64, Preferences>)
    requires
        is_snapshot(s, m),
    ensures
        registry_of(s) == m,
{
    assert forall|id: i64| registry_of(s).contains_key(id) <==> m.contains_key(id) by {
        lemma_registry_of_members(s, id);
        if lists(s, id) {
            let i = choose|i: int| 0 <= i < s.len() && (#[trigger] s[i]).id == id;
            assert(m.contains_key(s[i].id));
        }
    }
    assert forall|id: i64| m.contains_key(id) implies registry_of(s)[id] == m[id] by {
        let i = choose|i: int| 0 <= i < s.len() && (#[trigger] s[i]).id == id;
        lemma_registry_of_values(s, i);
    }
    assert(registry_of(s) =~= m);
}

/// Saving what was loaded from an ascending list gives back that list.
pub proof fn lemma_records_round_trip(s: Seq<Subscriber>)
    requires
        ascending_ids(s),
    ensures
        is_snapshot(s, registry_of(s)),
{
    assert forall|i: int| 0 <= i < s.len() implies registry_of(s).contains_key(
        (#[trigger] s[i]).id,
    ) && registry_of(s)[s[i].id] == s[i].preferences by {
        lemma_registry_of_values(s, i);
    }
    assert forall|id: i64| #[trigger] registry_of(s).contains_key(id) implies lists(s, id) by {
        lemma_registry_of_members(s, id);
    }
}

/// A registry has one snapshot only.
pub proof fn lemma_snapshot_unique(a: Seq<Subscriber>, b: Seq<Subscriber>, m: Map<i64, Preferences>)
    requires
        is_snapshot(a, m),
        is_snapshot(b, m),
    ensures
        a == b,
    decreases a.len(),
{
    if a.len() == 0 {
        if b.len() > 0 {
            assert(m.contains_key(b[0].id));
            assert(lists(a, b[0].id));
        }
        assert(a =~= b);
    } else {
        let la = a[a.len() - 1];
        assert(m.contains_key(la.id));
        assert(lists(b, la.id));
        let lb = b[b.len() - 1];
        assert(m.contains_key(lb.id));
        assert(lists(a, lb.id));
        let ia = choose|i: int| 0 <= i < a.len() && (#[trigger] a[i]).id == lb.id;
        let ib = choose|i: int| 0 <= i < b.len() && (#[trigger] b[i]).id == la.id;
        assert(lb.id <= la.id) by {
            if ia < a.len() - 1 {
                assert(a[ia].id < a[a.len() - 1].id);
            }
        }
        assert(la.id <= lb.id) by {
            if ib < b.len() - 1 {
                assert(b[ib].id < b[b.len() - 1].id);
            }
        }
        assert(la == lb);
        let rest = m.remove(la.id);
        lemma_front_is_snapshot(a, m);
        lemma_front_is_snapshot(b, m);
        lemma_snapshot_unique(a.drop_last(), b.drop_last(), rest);
        assert(a =~= a.drop_last().push(la));
        assert(b =~= b.drop_last().push(lb));
    }
}

/// Without its last member a snapshot is the snapshot of the registry without that
/// member.
proof fn lemma_front_is_snapshot(s: Seq<Subscriber>, m: Map<i64, Preferences>)
    requires
        is_snapshot(s, m),
        s.len() > 0,
    ensures
        is_snapshot(s.drop_last(), m.remove(s[s.len() - 1].id)),
{
    let front = s.drop_last();
    let last = s[s.len() - 1];
    let rest = m.remove(last.id);
    lemma_front_ascending(s);
    assert forall|i: int| 0 <= i < front.len() implies rest.contains_key((#[trigger] front[i]).id)
        && rest[front[i].id] == front[i].preferences by {
        assert(front[i] == s[i]);
        assert(s[i].id < s[s.len() - 1].id);
    }
    assert forall|id: i64| #[trigger] rest.contains_key(id) implies lists(front, id) by {
        assert(m.contains_key(id));
        let i = choose|i: int| 0 <= i < s.len() && (#[trigger] s[i]).id == id;
        assert(front[i].id == id);
    }
}

} // verus!
