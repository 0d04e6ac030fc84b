//! The texts that answer a request for the known sites and a request for a check.

use vstd::prelude::*;
use crate::fanout::DeliveryReport;
use crate::text::{decimal, push_decimal, push_str, string_of};

verus! {

/// What became of the baseline at the end of a check.
#[derive(Clone, Copy, Debug, PartialEq, Eq, Structural)]
pub enum Persistence {
    /// The listing was the baseline already: nothing was written.
    NotNeeded,
    /// The listing was written as the new baseline.
    Written,
    /// The listing could not be written.
    Failed,
}

/// How a check ended.
#[derive(Clone, Copy, Debug, PartialEq, Eq, Structural)]
pub enum CheckOutcome {
    /// The listing could not be fetched.
    FetchFailed,
    /// The listing came back empty and was set aside.
    EmptyListing,
    /// The baseline could not be read, so there was nothing to compare the listing with.
    BaselineUnreadable,
    /// The check ran through: `added` of the `total` listed sites were new.
    Completed { added: usize, total: usize, report: DeliveryReport, persistence: Persistence },
}

/// One line for each name, each line begun by a line break and a dash.
pub open spec fn bulleted(names: Seq<Seq<char>>) -> Seq<char>
    decreases names.len(),
{
    if names.len() == 0 {
        Seq::empty()
    } else {
        bulleted(names.drop_last()) + "\n- "@ + names.last()
    }
}

/// The text that shows the known sites.
pub open spec fn known_list_text(names: Seq<Seq<char>>) -> Seq<char> {
    if names.len() == 0 {
        "No known speed cameras currently listed."@
    } else {
        "Current known speed cameras:"@ + bulleted(names)
    }
}

/// Writes the text that shows the known sites: a heading and one line for each name, in
/// the order of `names`, or one sentence where there is no name.
pub fn render_known_list(names: &Vec<String>) -> (text: String)
    ensures
        text@ == known_list_text(names.deep_view()),
{
    let ghost all = names.deep_view();
    let mut out: Vec<char> = Vec::new();
    if names.len() == 0 {
        push_str(&mut out, "No known speed cameras currently listed.");
        return string_of(&out);
    }
    push_str(&mut out, "Current known speed cameras:");
    let mut i: usize = 0;
    proof {
        assert(all.take(0) =~= Seq::<Seq<char>>::empty());
        assert(out@ =~= "Current known speed cameras:"@ + bulleted(all.take(0)));
    }
    while i < names.len()
        invariant
            i <= names.len(),
            all == names.deep_view(),
            out@ == "Current known speed cameras:"@ + bulleted(all.take(i as int)),
        decreases names.len() - i,
    {
        proof {
            let prefix = all.take(i + 1);
            assert(prefix.drop_last() =~= all.take(i as int));
            assert(prefix.last() == all[i as int]);
            assert(all[i as int] == names@[i as int]@);
        }
        push_str(&mut out, "\n- ");
        push_str(&mut out, names[i].as_str());
        proof {
            assert(out@ =~= "Current known speed cameras:"@ + (bulleted(all.take(i as int))
                + "\n- "@ + all[i as int]));
        }
        i += 1;
    }
    proof {
        assert(all.take(i as int) =~= all);
    }
    string_of(&out)
}

/// The sentence that is added to a summary when the baseline could not be written.
pub open spec fn persistence_note(persistence: Persistence) -> Seq<char> {
    if persistence == Persistence::Failed {
        " The camera list could not be saved."@
    } else {
        Seq::empty()
    }
}

/// The text that tells the one who asked for a check how it ended.
pub open spec fn summary_text(outcome: CheckOutcome) -> Seq<char> {
    match outcome {
        CheckOutcome::FetchFailed => "Failed to fetch camera data from website. Please try again later."@,
        CheckOutcome::EmptyListing => "The website listed no cameras. The known cameras were left as they are."@,
        CheckOutcome::BaselineUnreadable => "Failed to load current camera data."@,
        CheckOutcome::Completed { added, total, report, persistence } => if added == 0 {
            "No new cameras found ("@ + decimal(total as nat) + " total cameras)"@
                + persistence_note(persistence)
        } else {
            "Found "@ + decimal(added as nat) + " new camera(s): "@ + decimal(
                report.succeeded as nat,
            ) + " notification(s) delivered, "@ + decimal(report.failed as nat) + " failed."@
                + persistence_note(persistence)
        },
    }
}

/// Writes the text that tells the one who asked for a check how it ended: how many sites
/// were new, how many messages about them arrived and how many did not, and whether the
/// baseline could not be written.
pub fn render_summary(outcome: &CheckOutcome) -> (text: String)
    ensures
        text@ == summary_text(*outcome),
{
    let mut out: Vec<char> = Vec::new();
    match outcome {
        CheckOutcome::FetchFailed => {
            push_str(&mut out, "Failed to fetch camera data from website. Please try again later.");
        },
        CheckOutcome::EmptyListing => {
            push_str(
                &mut out,
                "The website listed no cameras. The known cameras were left as they are.",
            );
        },
        CheckOutcome::BaselineUnreadable => {
            push_str(&mut out, "Failed to load current camera data.");
        },
        CheckOutcome::Completed { added, total, report, persistence } => {
            if *added == 0 {
                push_str(&mut out, "No new cameras found (");
                push_decimal(&mut out, *total as u64);
                push_str(&mut out, " total cameras)");
            } else {
                push_str(&mut out, "Found ");
                push_decimal(&mut out, *added as u64);
                push_str(&mut out, " new camera(s): ");
                push_decimal(&mut out, report.succeeded as u64);
                push_str(&mut out, " notification(s) delivered, ");
                push_decimal(&mut out, report.failed as u64);
                push_str(&mut out, " failed.");
            }
            match persistence {
                Persistence::Failed => {
                    push_str(&mut out, " The camera list could not be saved.");
                },
                _ => {
                    proof {
                        assert(out@ + Seq::<char>::empty() =~= out@);
                    }
                },
            }
        },
    }
    proof {
        assert(out@ =~= summary_text(*outcome));
    }
    string_of(&out)
}

} // verus!
