//! The notification fan-out: which messages go to which subscriber after a check, and how
//! the deliveries are counted.

use vstd::prelude::*;
use crate::entity::{Entity, EntityView};
use crate::registry::{ascending_ids, Subscriber};

verus! {

/// One message to one subscriber.
#[derive(Debug, PartialEq, Eq)]
pub enum Message {
    /// Announces how many new sites follow.
    Header { count: usize },
    /// Presents one new site, with or without a map image.
    NewEntity { entity: Entity, with_image: bool },
    /// Says that the check found nothing new.
    NoChange,
}

/// What a [`Message`] is to the specifications.
pub enum MessageView {
    Header { count: usize },
    NewEntity { entity: EntityView, with_image: bool },
    NoChange,
}

impl View for Message {
    type V = MessageView;

    open spec fn view(&self) -> MessageView {
        match self {
            Message::Header { count } => MessageView::Header { count: *count },
            Message::NewEntity { entity, with_image } => MessageView::NewEntity {
                entity: entity@,
                with_image: *with_image,
            },
            Message::NoChange => MessageView::NoChange,
        }
    }
}

/// A message together with the subscriber it is for.
#[derive(Debug, PartialEq, Eq)]
pub struct Delivery {
    pub recipient: i64,
    pub message: Message,
}

/// What a [`Delivery`] is to the specifications.
pub struct DeliveryView {
    pub recipient: i64,
    pub message: MessageView,
}

impl View for Delivery {
    type V = DeliveryView;

    open spec fn view(&self) -> DeliveryView {
        DeliveryView { recipient: self.recipient, message: self.message@ }
    }
}

impl DeepView for Delivery {
    type V = DeliveryView;

    open spec fn deep_view(&self) -> DeliveryView {
        self@
    }
}

/// Wraps a site into the message that presents it to `recipient`.
pub open spec fn presents(recipient: i64, with_image: bool) -> spec_fn(EntityView) -> DeliveryView {
    |entity: EntityView|
        DeliveryView { recipient, message: MessageView::NewEntity { entity, with_image } }
}

/// What one subscriber is sent after a check that found `added`.
///
/// Where something was added, every subscriber gets a header with the count and then one
/// message for each added site, in the order of `added`; a map image goes with a site
/// only if the subscriber wants images and a source of images is at hand. Where nothing
/// was added, a subscriber who asked to hear of that gets one message saying so, and any
/// other subscriber gets nothing.
pub open spec fn deliveries_for(
    added: Seq<EntityView>,
    subscriber: Subscriber,
    image_source: bool,
) -> Seq<DeliveryView> {
    if added.len() > 0 {
        seq![
            DeliveryView {
                recipient: subscriber.id,
                message: MessageView::Header { count: added.len() as usize },
            },
        ] + added.map_values(
            presents(subscriber.id, subscriber.preferences.include_images && image_source),
        )
    } else if subscriber.preferences.notify_on_no_change {
        seq![DeliveryView { recipient: subscriber.id, message: MessageView::NoChange }]
    } else {
        Seq::empty()
    }
}

/// What all of `subscribers` are sent after a check that found `added`: what each of
/// them is sent, one subscriber after the other.
pub open spec fn fan_out(
    added: Seq<EntityView>,
    subscribers: Seq<Subscriber>,
    image_source: bool,
) -> Seq<DeliveryView>
    decreases subscribers.len(),
{
    if subscribers.len() == 0 {
        Seq::empty()
    } else {
        fan_out(added, subscribers.drop_last(), image_source) + deliveries_for(
            added,
            subscribers.last(),
            image_source,
        )
    }
}

/// Plans the messages of one check: see [`deliveries_for`] and [`fan_out`].
pub fn plan_notifications(
    added: &Vec<Entity>,
    subscribers: &Vec<Subscriber>,
    image_source: bool,
) -> (plan: Vec<Delivery>)
    ensures
        plan.deep_view() == fan_out(added.deep_view(), subscribers@, image_source),
{
    let ghost found = added.deep_view();
    let mut plan: Vec<Delivery> = Vec::new();
    let mut i: usize = 0;
    proof {
        assert(subscribers@.take(0) =~= Seq::<Subscriber>::empty());
        assert(plan.deep_view() =~= Seq::<DeliveryView>::empty());
    }
    while i < subscribers.len()
        invariant
            i <= subscribers.len(),
            found == added.deep_view(),
            plan.deep_view() == fan_out(found, subscribers@.take(i as int), image_source),
        decreases subscribers.len() - i,
    {
        let subscriber = subscribers[i];
        let ghost earlier = plan.deep_view();
        proof {
            let prefix = subscribers@.take(i + 1);
            assert(prefix.drop_last() =~= subscribers@.take(i as int));
            assert(prefix.last() == subscriber);
        }
        if added.len() > 0 {
            let with_image = subscriber.preferences.include_images && image_source;
            plan.push(
                Delivery { recipient: subscriber.id, message: Message::Header { count: added.len() } },
            );
            let ghost header = seq![
                DeliveryView {
                    recipient: subscriber.id,
                    message: MessageView::Header { count: found.len() as usize },
                },
            ];
            let mut j: usize = 0;
            proof {
                assert(plan.deep_view() =~= earlier + header + found.take(0).map_values(
                    presents(subscriber.id, with_image),
                ));
            }
            while j < added.len()
                invariant
                    j <= added.len(),
                    found == added.deep_view(),
                    plan.deep_view() == earlier + header + found.take(j as int).map_values(
                        presents(subscriber.id, with_image),
                    ),
                decreases added.len() - j,
            {
                let ghost so_far = plan.deep_view();
                plan.push(
                    Delivery {
                        recipient: subscriber.id,
                        message: Message::NewEntity { entity: added[j].clone(), with_image },
                    },
                );
                proof {
                    let f = presents(subscriber.id, with_image);
                    assert(plan.deep_view() =~= so_far.push(f(found[j as int])));
                    assert(found.take(j + 1).map_values(f) =~= found.take(j as int).map_values(
                        f,
                    ).push(f(found[j as int])));
                }
                j += 1;
            }
            proof {
                assert(found.take(j as int) =~= found);
                assert(earlier + header + found.map_values(presents(subscriber.id, with_image))
                    =~= earlier + deliveries_for(found, subscriber, image_source));
            }
        } else if subscriber.preferences.notify_on_no_change {
            plan.push(Delivery { recipient: subscriber.id, message: Message::NoChange });
            proof {
                assert(plan.deep_view() =~= earlier + deliveries_for(
                    found,
                    subscriber,
                    image_source,
                ));
            }
        } else {
            proof {
                assert(plan.deep_view() =~= earlier + deliveries_for(
                    found,
                    subscriber,
                    image_source,
                ));
            }
        }
        i += 1;
    }
    proof {
        assert(subscribers@.take(i as int) =~= subscribers@);
    }
    plan
}

/// Holds of a delivery when it is for `id`.
pub open spec fn is_for(id: i64) -> spec_fn(DeliveryView) -> bool {
    |d: DeliveryView| d.recipient == id
}

/// The deliveries of `plan` that are for `id`, in the order of `plan`.
pub open spec fn messages_to(plan: Seq<DeliveryView>, id: i64) -> Seq<DeliveryView> {
    plan.filter(is_for(id))
}

/// Filtering by what holds of every member changes nothing.
proof fn lemma_filter_keeps_all<A>(s: Seq<A>, keep: spec_fn(A) -> bool)
    requires
        forall|i: int| 0 <= i < s.len() ==> keep(#[trigger] s[i]),
    ensures
        s.filter(keep) == s,
    decreases s.len(),
{
    reveal(Seq::filter);
    if s.len() > 0 {
        lemma_filter_keeps_all(s.drop_last(), keep);
        assert(s.drop_last().push(s.last()) =~= s);
    }
}

/// Filtering by what holds of no member leaves nothing.
proof fn lemma_filter_keeps_none<A>(s: Seq<A>, keep: spec_fn(A) -> bool)
    requires
        forall|i: int| 0 <= i < s.len() ==> !keep(#[trigger] s[i]),
    ensures
        s.filter(keep) == Seq::<A>::empty(),
    decreases s.len(),
{
    reveal(Seq::filter);
    if s.len() > 0 {
        lemma_filter_keeps_none(s.drop_last(), keep);
    }
}

/// What a subscriber is sent is for that subscriber and for nobody else.
pub proof fn lemma_own_messages(
    added: Seq<EntityView>,
    subscriber: Subscriber,
    image_source: bool,
    id: i64,
)
    ensures
        messages_to(deliveries_for(added, subscriber, image_source), id) == (if id == subscriber.id {
            deliveries_for(added, subscriber, image_source)
        } else {
            Seq::empty()
        }),
{
    let own = deliveries_for(added, subscriber, image_source);
    assert forall|i: int| 0 <= i < own.len() implies (#[trigger] own[i]).recipient
        == subscriber.id by {}
    if id == subscriber.id {
        lemma_filter_keeps_all(own, is_for(id));
    } else {
        lemma_filter_keeps_none(own, is_for(id));
    }
}

/// Who is not among the subscribers is sent nothing.
pub proof fn lemma_messages_to_stranger(
    added: Seq<EntityView>,
    subscribers: Seq<Subscriber>,
    image_source: bool,
    id: i64,
)
    requires
        forall|i: int| 0 <= i < subscribers.len() ==> (#[trigger] subscribers[i]).id != id,
    ensures
        messages_to(fan_out(added, subscribers, image_source), id) == Seq::<DeliveryView>::empty(),
    decreases subscribers.len(),
{
    if subscribers.len() > 0 {
        let front = subscribers.drop_last();
        assert forall|i: int| 0 <= i < front.len() implies (#[trigger] front[i]).id != id by {
            assert(front[i] == subscribers[i]);
        }
        lemma_messages_to_stranger(added, front, image_source, id);
        lemma_own_messages(added, subscribers.last(), image_source, id);
        Seq::filter_distributes_over_add(
            fan_out(added, front, image_source),
            deliveries_for(added, subscribers.last(), image_source),
            is_for(id),
        );
    } else {
        lemma_filter_keeps_none(Seq::<DeliveryView>::empty(), is_for(id));
    }
}

/// Each subscriber's messages stand in the plan as [`deliveries_for`] orders them,
/// whoever else is subscribed: the header first, then the new sites in their order.
pub proof fn lemma_messages_to_subscriber(
    added: Seq<EntityView>,
    subscribers: Seq<Subscriber>,
    image_source: bool,
    k: int,
)
    requires
        ascending_ids(subscribers),
        0 <= k < subscribers.len(),
    ensures
        messages_to(fan_out(added, subscribers, image_source), subscribers[k].id) == deliveries_for(
            added,
            subscribers[k],
            image_source,
        ),
    decreases subscribers.len(),
{
    let id = subscribers[k].id;
    let front = subscribers.drop_last();
    let last = subscribers.last();
    Seq::filter_distributes_over_add(
        fan_out(added, front, image_source),
        deliveries_for(added, last, image_source),
        is_for(id),
    );
    lemma_own_messages(added, last, image_source, id);
    if k == subscribers.len() - 1 {
        assert forall|i: int| 0 <= i < front.len() implies (#[trigger] front[i]).id != id by {
            assert(front[i] == subscribers[i]);
        }
        lemma_messages_to_stranger(added, front, image_source, id);
        assert(Seq::<DeliveryView>::empty() + deliveries_for(added, last, image_source)
            =~= deliveries_for(added, last, image_source));
    } else {
        assert(front[k] == subscribers[k]);
        assert(ascending_ids(front)) by {
            assert forall|i: int, j: int| 0 <= i < j < front.len() implies (#[trigger] front[i]).id < (
            #[trigger] front[j]).id by {
                assert(front[i] == subscribers[i] && front[j] == subscribers[j]);
            }
        }
        lemma_messages_to_subscriber(added, front, image_source, k);
        assert(deliveries_for(added, subscribers[k], image_source) + Seq::<DeliveryView>::empty()
            =~= deliveries_for(added, subscribers[k], image_source));
    }
}

/// After a check that found nothing new, a subscriber who asked to hear of that is sent
/// exactly one message, and a subscriber who did not is sent none.
pub proof fn lemma_no_change_gating(subscribers: Seq<Subscriber>, image_source: bool, k: int)
    requires
        ascending_ids(subscribers),
        0 <= k < subscribers.len(),
    ensures
        messages_to(
            fan_out(Seq::<EntityView>::empty(), subscribers, image_source),
            subscribers[k].id,
        ) == (if subscribers[k].preferences.notify_on_no_change {
            seq![DeliveryView { recipient: subscribers[k].id, message: MessageView::NoChange }]
        } else {
            Seq::<DeliveryView>::empty()
        }),
{
    lemma_messages_to_subscriber(Seq::<EntityView>::empty(), subscribers, image_source, k);
}

/// How the deliveries of new sites went.
#[derive(Clone, Copy, Debug, PartialEq, Eq, Structural)]
pub struct DeliveryReport {
    /// How many messages about a new site arrived.
    pub succeeded: usize,
    /// How many messages about a new site were given up.
    pub failed: usize,
}

/// Among the first `n` deliveries of `plan`, how many present a new site and ended as
/// `wanted` says: delivered where it is `true`, given up where it is `false`. A delivery
/// without an outcome counts as neither.
pub open spec fn counted(plan: Seq<DeliveryView>, outcomes: Seq<bool>, wanted: bool, n: nat) -> nat
    decreases n,
{
    if n == 0 {
        0
    } else {
        let i = (n - 1) as int;
        counted(plan, outcomes, wanted, (n - 1) as nat) + (if i < plan.len() && i < outcomes.len()
            && plan[i].message is NewEntity && outcomes[i] == wanted {
            1nat
        } else {
            0nat
        })
    }
}

/// No more of the first `n` deliveries are counted than there are.
pub proof fn lemma_counted_bounds(plan: Seq<DeliveryView>, outcomes: Seq<bool>, n: nat)
    ensures
        counted(plan, outcomes, true, n) + counted(plan, outcomes, false, n) <= n,
    decreases n,
{
    if n > 0 {
        lemma_counted_bounds(plan, outcomes, (n - 1) as nat);
    }
}

/// Counts how the deliveries of new sites went: `outcomes[i]` says whether `plan[i]`
/// arrived. Headers and messages about a check that found nothing are not counted.
pub fn tally(plan: &Vec<Delivery>, outcomes: &Vec<bool>) -> (report: DeliveryReport)
    ensures
        report.succeeded == counted(plan.deep_view(), outcomes@, true, plan.len() as nat),
        report.failed == counted(plan.deep_view(), outcomes@, false, plan.len() as nat),
{
    let mut succeeded: usize = 0;
    let mut failed: usize = 0;
    let mut i: usize = 0;
    while i < plan.len()
        invariant
            i <= plan.len(),
            succeeded == counted(plan.deep_view(), outcomes@, true, i as nat),
            failed == counted(plan.deep_view(), outcomes@, false, i as nat),
        decreases plan.len() - i,
    {
        proof {
            lemma_counted_bounds(plan.deep_view(), outcomes@, i as nat);
        }
        if i < outcomes.len() {
            match &plan[i].message {
                Message::NewEntity { .. } => {
                    if outcomes[i] {
                        succeeded += 1;
                    } else {
                        failed += 1;
                    }
                },
                _ => {},
            }
        }
        i += 1;
    }
    DeliveryReport { succeeded, failed }
}

} // verus!
