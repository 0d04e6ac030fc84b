//! One check from the fetched listing to the messages and the new baseline, and what the
//! one who asked for a check is told about it.

use vstd::prelude::*;
use crate::detect::{added_entities, diff, lemma_added_members};
use crate::entity::{names_of, Entity, EntitySet, EntityView};
use crate::fanout::{fan_out, plan_notifications, Delivery, DeliveryView, MessageView};
use crate::registry::Subscriber;

verus! {

/// Why a check ended before anything was compared.
#[derive(Clone, Copy, Debug, PartialEq, Eq, Structural)]
pub enum CycleError {
    /// The listing came back without a single site. Such a listing is taken for a
    /// failed fetch: it is neither compared with the baseline nor written in its place.
    EmptyListing,
}

/// What a check found and what is to follow from it.
#[derive(Debug, PartialEq, Eq)]
pub struct Cycle {
    /// The sites that the baseline did not know, in ascending order of name.
    pub added: Vec<Entity>,
    /// Whether the listing is to be written as the new baseline.
    pub changed: bool,
    /// The messages to send, in the order in which they are to go out.
    pub plan: Vec<Delivery>,
}

/// The baseline as it stands after a check that fetched `current`: the listing, unless
/// it was empty.
pub open spec fn baseline_after(current: Set<EntityView>, baseline: Set<EntityView>) -> Set<
    EntityView,
> {
    if current == Set::<EntityView>::empty() {
        baseline
    } else {
        current
    }
}

/// Runs the deciding part of one check: compares `current` with `baseline` and plans the
/// messages for `subscribers`.
///
/// An empty listing is refused. Otherwise the added sites are those of
/// [`added_entities`], the baseline is to be written exactly when the two sets differ,
/// and the messages are those of [`fan_out`].
pub fn run_cycle(
    current: &EntitySet,
    baseline: &EntitySet,
    subscribers: &Vec<Subscriber>,
    image_source: bool,
) -> (outcome: Result<Cycle, CycleError>)
    ensures
        outcome is Err <==> current@ == Set::<EntityView>::empty(),
        outcome matches Err(e) ==> e == CycleError::EmptyListing,
        outcome matches Ok(cycle) ==> {
            &&& cycle.added.deep_view() == added_entities(current.sequence(), baseline.names())
            &&& cycle.changed == (current@ != baseline@)
            &&& cycle.plan.deep_view() == fan_out(
                added_entities(current.sequence(), baseline.names()),
                subscribers@,
                image_source,
            )
        },
{
    if current.is_empty() {
        return Err(CycleError::EmptyListing);
    }
    let d = diff(current, baseline);
    let plan = plan_notifications(&d.added, subscribers, image_source);
    Ok(Cycle { added: d.added, changed: d.changed, plan })
}

/// A listing holds no site that is new against itself.
pub proof fn lemma_nothing_added_to_itself(listing: Seq<EntityView>)
    ensures
        added_entities(listing, names_of(listing)) == Seq::<EntityView>::empty(),
{
    let added = added_entities(listing, names_of(listing));
    if added.len() > 0 {
        let e = added[0];
        assert(added.contains(e));
        lemma_added_members(listing, names_of(listing), e);
        let k = choose|k: int| 0 <= k < listing.len() && listing[k] == e;
        assert(listing[k].name == e.name);
        assert(names_of(listing).contains(e.name));
    }
    assert(added =~= Seq::<EntityView>::empty());
}

/// After a check that found nothing new, only those are sent anything who asked to
/// hear of such checks: where nobody did, nothing is sent at all.
pub proof fn lemma_quiet_when_nothing_added(subscribers: Seq<Subscriber>, image_source: bool)
    requires
        forall|i: int|
            0 <= i < subscribers.len() ==> !(#[trigger] subscribers[i]).preferences.notify_on_no_change,
    ensures
        fan_out(Seq::<EntityView>::empty(), subscribers, image_source) == Seq::<
            DeliveryView,
        >::empty(),
    decreases subscribers.len(),
{
    if subscribers.len() > 0 {
        let front = subscribers.drop_last();
        assert forall|i: int| 0 <= i < front.len() implies !(
        #[trigger] front[i]).preferences.notify_on_no_change by {
            assert(front[i] == subscribers[i]);
        }
        lemma_quiet_when_nothing_added(front, image_source);
        assert(subscribers.last() == subscribers[subscribers.len() - 1]);
        assert(fan_out(Seq::<EntityView>::empty(), subscribers, image_source)
            =~= Seq::<DeliveryView>::empty());
    }
}

/// After a check that found nothing new, no message announces or presents a site.
pub proof fn lemma_only_no_change_when_nothing_added(
    subscribers: Seq<Subscriber>,
    image_source: bool,
    i: int,
)
    requires
        0 <= i < fan_out(Seq::<EntityView>::empty(), subscribers, image_source).len(),
    ensures
        fan_out(Seq::<EntityView>::empty(), subscribers, image_source)[i].message
            == MessageView::NoChange,
    decreases subscribers.len(),
{
    if subscribers.len() > 0 {
        let front = fan_out(Seq::<EntityView>::empty(), subscribers.drop_last(), image_source);
        if i < front.len() {
            lemma_only_no_change_when_nothing_added(subscribers.drop_last(), image_source, i);
        }
    }
}

/// The names of a set are those of its sites, however the sites are listed.
pub proof fn lemma_names_follow_contents(a: Seq<EntityView>, b: Seq<EntityView>)
    requires
        a.to_set() == b.to_set(),
    ensures
        names_of(a) == names_of(b),
{
    assert forall|n: Seq<char>| names_of(a).contains(n) <==> names_of(b).contains(n) by {
        if names_of(a).contains(n) {
            let i = choose|i: int| 0 <= i < a.len() && (#[trigger] a[i]).name == n;
            assert(a.to_set().contains(a[i]));
            let j = choose|j: int| 0 <= j < b.len() && b[j] == a[i];
            assert(b[j].name == n);
        }
        if names_of(b).contains(n) {
            let i = choose|i: int| 0 <= i < b.len() && (#[trigger] b[i]).name == n;
            assert(b.to_set().contains(b[i]));
            let j = choose|j: int| 0 <= j < a.len() && a[j] == b[i];
            assert(a[j].name == n);
        }
    }
    assert(names_of(a) =~= names_of(b));
}

/// A second check that fetches what the first one fetched changes nothing.
///
/// Let a check fetch the listing `current`, which is not empty, while the baseline is
/// `before`, and let `then` be the baseline as that check leaves it. A check of the same
/// listing against `then` adds no site and asks for no write; and it sends nothing at
/// all, unless a subscriber has asked to hear of checks that found nothing.
pub proof fn lemma_second_run_is_a_no_op(
    current: EntitySet,
    before: EntitySet,
    then: EntitySet,
    subscribers: Seq<Subscriber>,
    image_source: bool,
)
    requires
        current@ != Set::<EntityView>::empty(),
        then@ == baseline_after(current@, before@),
    ensures
        added_entities(current.sequence(), then.names()) == Seq::<EntityView>::empty(),
        !(current@ != then@),
        (forall|i: int|
            0 <= i < subscribers.len() ==> !(#[trigger] subscribers[i]).preferences.notify_on_no_change)
            ==> fan_out(
            added_entities(current.sequence(), then.names()),
            subscribers,
            image_source,
        ) == Seq::<DeliveryView>::empty(),
{
    lemma_names_follow_contents(current.sequence(), then.sequence());
    lemma_nothing_added_to_itself(current.sequence());
    if forall|i: int|
        0 <= i < subscribers.len() ==> !(#[trigger] subscribers[i]).preferences.notify_on_no_change {
        lemma_quiet_when_nothing_added(subscribers, image_source);
    }
}

} // verus!
