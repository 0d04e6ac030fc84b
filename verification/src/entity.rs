//! Watched sites and sets of them. A set holds at most one site per name and keeps its
//! sites in ascending order of name.

use vstd::prelude::*;
use vstd::std_specs::cmp::PartialEqSpecImpl;
use crate::text::{
    lemma_precedes_connected, lemma_precedes_irreflexive, lemma_precedes_transitive, name_precedes,
    precedes, same_text,
};

verus! {

/// A watched site: its name, which identifies it, and where it stands. The two
/// coordinates are kept as decimal text, exactly as they are rendered in file names and
/// links; two positions are the same when their texts are.
#[derive(Debug)]
pub struct Entity {
    pub name: String,
    pub latitude: String,
    pub longitude: String,
}

/// What an [`Entity`] is to the specifications.
pub struct EntityView {
    pub name: Seq<char>,
    pub latitude: Seq<char>,
    pub longitude: Seq<char>,
}

impl View for Entity {
    type V = EntityView;

    open spec fn view(&self) -> EntityView {
        EntityView { name: self.name@, latitude: self.latitude@, longitude: self.longitude@ }
    }
}

impl DeepView for Entity {
    type V = EntityView;

    open spec fn deep_view(&self) -> EntityView {
        self@
    }
}

impl Clone for Entity {
    fn clone(&self) -> (copy: Self)
        ensures
            copy == *self,
    {
        Entity {
            name: self.name.clone(),
            latitude: self.latitude.clone(),
            longitude: self.longitude.clone(),
        }
    }
}

impl PartialEq for Entity {
    fn eq(&self, other: &Self) -> (same: bool) {
        self.name == other.name && self.latitude == other.latitude && self.longitude
            == other.longitude
    }
}

impl PartialEqSpecImpl for Entity {
    open spec fn obeys_eq_spec() -> bool {
        true
    }

    open spec fn eq_spec(&self, other: &Self) -> bool {
        self@ == other@
    }
}

impl Eq for Entity {

}

impl Entity {
    /// The site of this name at this position.
    pub fn new(name: String, latitude: String, longitude: String) -> (entity: Entity)
        ensures
            entity.name == name,
            entity.latitude == latitude,
            entity.longitude == longitude,
    {
        Entity { name, latitude, longitude }
    }
}

/// Whether the names along `s` strictly ascend.
pub open spec fn ascending(s: Seq<EntityView>) -> bool {
    forall|i: int, j: int| 0 <= i < j < s.len() ==> precedes(#[trigger] s[i].name, #[trigger] s[j].name)
}

/// The names that occur along `s`.
pub open spec fn names_of(s: Seq<EntityView>) -> Set<Seq<char>> {
    Set::new(|n: Seq<char>| exists|i: int| 0 <= i < s.len() && (#[trigger] s[i]).name == n)
}

/// `s` after `e` has come in: `e` is there, and with it whatever was there under another
/// name. A site that was there under the name of `e` has given way to it.
pub open spec fn with_entity(s: Set<EntityView>, e: EntityView) -> Set<EntityView> {
    Set::new(|x: EntityView| x == e || (s.contains(x) && x.name != e.name))
}

/// The set that results from putting the sites of `s` in one after the other: of two
/// sites under one name the later one stays.
pub open spec fn entity_set_of(s: Seq<EntityView>) -> Set<EntityView>
    decreases s.len(),
{
    if s.len() == 0 {
        Set::empty()
    } else {
        with_entity(entity_set_of(s.drop_last()), s.last())
    }
}

/// A set of sites, no two of them under one name.
pub struct EntitySet {
    entries: Vec<Entity>,
}

impl View for EntitySet {
    type V = Set<EntityView>;

    open spec fn view(&self) -> Set<EntityView> {
        self.sequence().to_set()
    }
}

impl EntitySet {
    /// The sites of the set in ascending order of name.
    pub closed spec fn sequence(&self) -> Seq<EntityView> {
        self.entries.deep_view()
    }

    /// The names under which the set holds a site.
    pub open spec fn names(&self) -> Set<Seq<char>> {
        names_of(self.sequence())
    }

    /// What every set built by this module satisfies: its names strictly ascend.
    #[verifier::type_invariant]
    pub closed spec fn well_formed(&self) -> bool {
        ascending(self.entries.deep_view())
    }

    /// The empty set.
    pub fn new() -> (set: EntitySet)
        ensures
            set.sequence() == Seq::<EntityView>::empty(),
            set@ == Set::<EntityView>::empty(),
    {
        let set = EntitySet { entries: Vec::new() };
        proof {
            assert(set.sequence() =~= Seq::<EntityView>::empty());
            assert(set@ =~= Set::<EntityView>::empty());
        }
        set
    }

    /// The set that holds the sites of `items`; of two sites under one name the later
    /// one stays.
    pub fn from_entities(items: Vec<Entity>) -> (set: EntitySet)
        ensures
            set@ == entity_set_of(items.deep_view()),
    {
        let ghost all = items.deep_view();
        let mut set = EntitySet::new();
        let mut i: usize = 0;
        proof {
            assert(all.take(0) =~= Seq::<EntityView>::empty());
        }
        while i < items.len()
            invariant
                i <= items.len(),
                items.deep_view() == all,
                set@ == entity_set_of(all.take(i as int)),
            decreases items.len() - i,
        {
            proof {
                let prefix = all.take(i + 1);
                assert(prefix.drop_last() =~= all.take(i as int));
                assert(prefix.last() == all[i as int]);
            }
            set.insert(items[i].clone());
            i += 1;
        }
        proof {
            assert(all.take(i as int) =~= all);
        }
        set
    }

    /// How many sites the set holds.
    pub fn len(&self) -> (n: usize)
        ensures
            n == self.sequence().len(),
    {
        self.entries.len()
    }

    /// Whether the set holds no site.
    pub fn is_empty(&self) -> (empty: bool)
        ensures
            empty == (self.sequence().len() == 0),
            empty == (self@ == Set::<EntityView>::empty()),
    {
        proof {
            if self.sequence().len() == 0 {
                assert(self@ =~= Set::<EntityView>::empty());
            } else {
                assert(self@.contains(self.sequence()[0]));
            }
        }
        self.entries.len() == 0
    }

    /// The sites of the set in ascending order of name.
    pub fn entities(&self) -> (list: &Vec<Entity>)
        ensures
            list.deep_view() == self.sequence(),
            ascending(list.deep_view()),
    {
        proof {
            use_type_invariant(self);
        }
        &self.entries
    }

    /// Whether the set holds a site under `name`.
    pub fn contains_name(&self, name: &str) -> (found: bool)
        ensures
            found == self.names().contains(name@),
    {
        let mut i: usize = 0;
        while i < self.entries.len()
            invariant
                i <= self.entries.len(),
                forall|j: int| 0 <= j < i ==> (#[trigger] self.sequence()[j]).name != name@,
            decreases self.entries.len() - i,
        {
            if same_text(self.entries[i].name.as_str(), name) {
                proof {
                    assert(self.sequence()[i as int].name == name@);
                }
                return true;
            }
            i += 1;
        }
        false
    }

    /// Whether the set holds `entity`: a site of the same name at the same position.
    pub fn contains(&self, entity: &Entity) -> (found: bool)
        ensures
            found == self@.contains(entity@),
    {
        let mut i: usize = 0;
        while i < self.entries.len()
            invariant
                i <= self.entries.len(),
                forall|j: int| 0 <= j < i ==> #[trigger] self.sequence()[j] != entity@,
            decreases self.entries.len() - i,
        {
            if self.entries[i] == *entity {
                proof {
                    assert(self.sequence()[i as int] == entity@);
                }
                return true;
            }
            i += 1;
        }
        false
    }

    /// Whether every site of this set is in `other` too, under the same name and at the
    /// same position.
    pub fn is_subset_of(&self, other: &EntitySet) -> (within: bool)
        ensures
            within == self@.subset_of(other@),
    {
        let mut i: usize = 0;
        while i < self.entries.len()
            invariant
                i <= self.entries.len(),
                forall|j: int| 0 <= j < i ==> other@.contains(#[trigger] self.sequence()[j]),
            decreases self.entries.len() - i,
        {
            if !other.contains(&self.entries[i]) {
                proof {
                    assert(self@.contains(self.sequence()[i as int]));
                }
                return false;
            }
            i += 1;
        }
        true
    }

    /// Whether the two sets hold the same sites: the same names at the same positions.
    pub fn same_as(&self, other: &EntitySet) -> (same: bool)
        ensures
            same == (self@ == other@),
    {
        let same = self.is_subset_of(other) && other.is_subset_of(self);
        proof {
            if same {
                assert(self@ =~= other@);
            }
        }
        same
    }

    /// Puts `entity` into the set. A site that was there under the same name gives way to
    /// it, so the one that comes last stays.
    pub fn insert(&mut self, entity: Entity) -> (replaced: bool)
        ensures
            final(self)@ == with_entity(old(self)@, entity@),
            replaced == old(self).names().contains(entity@.name),
    {
        proof {
            use_type_invariant(&*self);
        }
        let mut entries: Vec<Entity> = Vec::new();
        std::mem::swap(&mut entries, &mut self.entries);
        let ghost before = entries.deep_view();
        let ghost e = entity@;
        let i = first_not_before(&entries, entity.name.as_str());
        let replaced = i < entries.len() && entries[i].name == entity.name;
        if replaced {
            entries.set(i, entity);
            proof {
                assert(entries.deep_view() =~= before.update(i as int, e));
                lemma_replace_in_ascending(before, i as int, e);
            }
        } else {
            entries.insert(i, entity);
            proof {
                assert(entries.deep_view() =~= before.insert(i as int, e));
                lemma_insert_in_ascending(before, i as int, e);
            }
        }
        self.entries = entries;
        replaced
    }
}

/// The first index of `entries` whose name does not come before `name`.
fn first_not_before(entries: &Vec<Entity>, name: &str) -> (at: usize)
    ensures
        at <= entries.len(),
        forall|j: int| 0 <= j < at ==> precedes((#[trigger] entries.deep_view()[j]).name, name@),
        at < entries.len() ==> !precedes(entries.deep_view()[at as int].name, name@),
{
    let mut i: usize = 0;
    while i < entries.len()
        invariant
            i <= entries.len(),
            forall|j: int| 0 <= j < i ==> precedes((#[trigger] entries.deep_view()[j]).name, name@),
        decreases entries.len() - i,
    {
        if !name_precedes(entries[i].name.as_str(), name) {
            return i;
        }
        i += 1;
    }
    i
}

/// Along an ascending sequence no name occurs twice.
pub proof fn lemma_ascending_distinct(s: Seq<EntityView>, i: int, j: int)
    requires
        ascending(s),
        0 <= i < s.len(),
        0 <= j < s.len(),
        i != j,
    ensures
        s[i].name != s[j].name,
{
    if i < j {
        lemma_precedes_irreflexive(s[i].name);
    } else {
        lemma_precedes_irreflexive(s[j].name);
    }
}

/// Putting `e` in the place of the site of its own name keeps the order, and gives the
/// set that [`with_entity`] describes.
proof fn lemma_replace_in_ascending(s: Seq<EntityView>, at: int, e: EntityView)
    requires
        ascending(s),
        0 <= at < s.len(),
        s[at].name == e.name,
    ensures
        ascending(s.update(at, e)),
        s.update(at, e).to_set() == with_entity(s.to_set(), e),
        names_of(s).contains(e.name),
{
    let t = s.update(at, e);
    assert forall|i: int, j: int| 0 <= i < j < t.len() implies precedes(
        #[trigger] t[i].name,
        #[trigger] t[j].name,
    ) by {
        assert(t[i].name == s[i].name);
        assert(t[j].name == s[j].name);
    }
    assert forall|x: EntityView| t.to_set().contains(x) <==> with_entity(s.to_set(), e).contains(
        x,
    ) by {
        if t.contains(x) {
            let k = choose|k: int| 0 <= k < t.len() && t[k] == x;
            if k != at {
                lemma_ascending_distinct(s, k, at);
                assert(s[k] == x);
            }
        }
        if x == e {
            assert(t[at] == x);
        }
        if s.contains(x) && x.name != e.name {
            let k = choose|k: int| 0 <= k < s.len() && s[k] == x;
            assert(t[k] == x);
        }
    }
    assert(t.to_set() =~= with_entity(s.to_set(), e));
}

/// Putting `e` in before the first site whose name does not come before its own keeps
/// the order when no site has its name, and gives the set that [`with_entity`] describes.
proof fn lemma_insert_in_ascending(s: Seq<EntityView>, at: int, e: EntityView)
    requires
        ascending(s),
        0 <= at <= s.len(),
        forall|j: int| 0 <= j < at ==> precedes((#[trigger] s[j]).name, e.name),
        at < s.len() ==> !precedes(s[at].name, e.name) && s[at].name != e.name,
    ensures
        ascending(s.insert(at, e)),
        s.insert(at, e).to_set() == with_entity(s.to_set(), e),
        !names_of(s).contains(e.name),
{
    let t = s.insert(at, e);
    assert forall|j: int| at <= j < s.len() implies precedes(e.name, (#[trigger] s[j]).name) by {
        lemma_precedes_connected(s[at].name, e.name);
        if at < j {
            lemma_precedes_transitive(e.name, s[at].name, s[j].name);
        }
    }
    assert forall|j: int| 0 <= j < s.len() implies (#[trigger] s[j]).name != e.name by {
        lemma_precedes_irreflexive(e.name);
    }
    assert forall|i: int, j: int| 0 <= i < j < t.len() implies precedes(
        #[trigger] t[i].name,
        #[trigger] t[j].name,
    ) by {
        if j < at {
            assert(t[i] == s[i] && t[j] == s[j]);
        } else if j == at {
            assert(t[i] == s[i]);
        } else if i < at {
            assert(t[i] == s[i] && t[j] == s[j - 1]);
        } else if i == at {
            assert(t[j] == s[j - 1]);
        } else {
            assert(t[i] == s[i - 1] && t[j] == s[j - 1]);
        }
    }
    assert forall|x: EntityView| t.to_set().contains(x) <==> with_entity(s.to_set(), e).contains(
        x,
    ) by {
        if t.contains(x) {
            let k = choose|k: int| 0 <= k < t.len() && t[k] == x;
            if k < at {
                assert(s[k] == x);
            } else if k > at {
                assert(s[k - 1] == x);
            }
        }
        if x == e {
            assert(t[at] == x);
        }
        if s.contains(x) && x.name != e.name {
            let k = choose|k: int| 0 <= k < s.len() && s[k] == x;
            if k < at {
                assert(t[k] == x);
            } else {
                assert(t[k + 1] == x);
            }
        }
    }
    assert(t.to_set() =~= with_entity(s.to_set(), e));
}

} // verus!
