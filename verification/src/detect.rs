//! The change detector: which sites of a fresh listing are new against the baseline, and
//! whether the baseline has to be written again.

use vstd::prelude::*;
use crate::entity::{ascending, Entity, EntitySet, EntityView};

verus! {

/// What one comparison of a fresh listing with the baseline found.
#[derive(Debug, PartialEq, Eq)]
pub struct Diff {
    /// The sites whose name the baseline does not know, in ascending order of name.
    pub added: Vec<Entity>,
    /// Whether the listing differs from the baseline at all: a site came, went, or moved.
    pub changed: bool,
}

/// Holds of a site when `known` lacks its name.
pub open spec fn is_new(known: Set<Seq<char>>) -> spec_fn(EntityView) -> bool {
    |e: EntityView| !known.contains(e.name)
}

/// The sites of `current` whose name is not among `known`, in the order of `current`.
pub open spec fn added_entities(current: Seq<EntityView>, known: Set<Seq<char>>) -> Seq<
    EntityView,
> {
    current.filter(is_new(known))
}

/// Taking sites out of an ascending sequence leaves an ascending sequence.
pub proof fn lemma_filter_ascending(s: Seq<EntityView>, keep: spec_fn(EntityView) -> bool)
    requires
        ascending(s),
    ensures
        ascending(s.filter(keep)),
    decreases s.len(),
{
    reveal(Seq::filter);
    if s.len() > 0 {
        let front = s.drop_last();
        lemma_filter_ascending(front, keep);
        let kept = front.filter(keep);
        if keep(s.last()) {
            let t = kept.push(s.last());
            assert forall|i: int, j: int| 0 <= i < j < t.len() implies crate::text::precedes(
                #[trigger] t[i].name,
                #[trigger] t[j].name,
            ) by {
                if j == kept.len() {
                    assert(kept.contains(kept[i]));
                    front.lemma_filter_contains_rev(keep, kept[i]);
                    let k = choose|k: int| 0 <= k < front.len() && front[k] == kept[i];
                    assert(s[k] == kept[i]);
                    assert(s[s.len() - 1] == s.last());
                }
            }
        }
    }
}

/// The added sites are exactly the sites of `current` under a name that `known` lacks.
pub proof fn lemma_added_members(current: Seq<EntityView>, known: Set<Seq<char>>, e: EntityView)
    ensures
        added_entities(current, known).contains(e) <==> current.contains(e) && !known.contains(
            e.name,
        ),
{
    let keep = is_new(known);
    if current.filter(keep).contains(e) {
        current.lemma_filter_contains_rev(keep, e);
        let k = choose|k: int| 0 <= k < current.filter(keep).len() && current.filter(keep)[k] == e;
        current.lemma_filter_pred(keep, k);
    }
    if current.contains(e) && !known.contains(e.name) {
        let k = choose|k: int| 0 <= k < current.len() && current[k] == e;
        current.lemma_filter_contains(keep, k);
    }
}

/// Compares a fresh listing with the baseline.
///
/// A site counts as added when the baseline knows no site of its name; the added sites
/// come in ascending order of name. The listing counts as changed when the two sets are
/// not the same, which a site that went or moved brings about as well as one that came.
pub fn diff(current: &EntitySet, baseline: &EntitySet) -> (d: Diff)
    ensures
        d.added.deep_view() == added_entities(current.sequence(), baseline.names()),
        ascending(d.added.deep_view()),
        forall|e: EntityView|
            d.added.deep_view().contains(e) <==> current@.contains(e) && !baseline.names().contains(
                e.name,
            ),
        d.changed == (current@ != baseline@),
{
    let entries = current.entities();
    let ghost listing = current.sequence();
    let ghost known = baseline.names();
    let mut added: Vec<Entity> = Vec::new();
    let mut i: usize = 0;
    proof {
        reveal(Seq::filter);
        assert(listing.take(0) =~= Seq::<EntityView>::empty());
        assert(added.deep_view() =~= Seq::<EntityView>::empty());
    }
    while i < entries.len()
        invariant
            i <= entries.len(),
            entries.deep_view() == listing,
            added.deep_view() == added_entities(listing.take(i as int), known),
            known == baseline.names(),
        decreases entries.len() - i,
    {
        let ghost so_far = added.deep_view();
        proof {
            reveal(Seq::filter);
            let prefix = listing.take(i + 1);
            assert(prefix.drop_last() =~= listing.take(i as int));
            assert(prefix.last() == listing[i as int]);
        }
        if !baseline.contains_name(entries[i].name.as_str()) {
            added.push(entries[i].clone());
            proof {
                assert(added.deep_view() =~= so_far.push(listing[i as int]));
            }
        }
        i += 1;
    }
    proof {
        assert(listing.take(i as int) =~= listing);
        lemma_filter_ascending(listing, is_new(known));
        assert forall|e: EntityView|
            added.deep_view().contains(e) <==> current@.contains(e) && !known.contains(
                e.name,
            ) by {
            lemma_added_members(listing, known, e);
        }
    }
    let changed = !current.same_as(baseline);
    Diff { added, changed }
}

} // verus!
