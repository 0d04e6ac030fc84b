use camera_watch::fanout::DeliveryReport;
use camera_watch::report::{render_known_list, render_summary, CheckOutcome, Persistence};

fn completed(added: usize, total: usize, succeeded: usize, failed: usize, persistence: Persistence) -> CheckOutcome {
    CheckOutcome::Completed { added, total, report: DeliveryReport { succeeded, failed }, persistence }
}

#[test]
fn known_list_has_a_heading_and_a_line_for_each_name() {
    let names = vec!["Aarau".to_string(), "Luzern - Seebr\u{fc}cke".to_string(), "Zug".to_string()];
    assert_eq!(
        render_known_list(&names),
        "Current known speed cameras:\n- Aarau\n- Luzern - Seebr\u{fc}cke\n- Zug"
    );
    assert_eq!(render_known_list(&vec!["One".to_string()]), "Current known speed cameras:\n- One");
}

#[test]
fn known_list_says_so_when_nothing_is_known() {
    assert_eq!(render_known_list(&vec![]), "No known speed cameras currently listed.");
}

#[test]
fn summary_counts_what_was_found() {
    assert_eq!(
        render_summary(&completed(0, 17, 0, 0, Persistence::NotNeeded)),
        "No new cameras found (17 total cameras)"
    );
    assert_eq!(
        render_summary(&completed(2, 19, 5, 1, Persistence::Written)),
        "Found 2 new camera(s): 5 notification(s) delivered, 1 failed."
    );
}

#[test]
fn summary_tells_of_a_baseline_that_could_not_be_written() {
    assert_eq!(
        render_summary(&completed(1, 3, 1, 0, Persistence::Failed)),
        "Found 1 new camera(s): 1 notification(s) delivered, 0 failed. The camera list could not be saved."
    );
    assert_eq!(
        render_summary(&completed(0, 3, 0, 0, Persistence::Failed)),
        "No new cameras found (3 total cameras) The camera list could not be saved."
    );
}

#[test]
fn summary_tells_of_a_check_that_did_not_run_through() {
    assert_eq!(
        render_summary(&CheckOutcome::FetchFailed),
        "Failed to fetch camera data from website. Please try again later."
    );
    assert_eq!(
        render_summary(&CheckOutcome::EmptyListing),
        "The website listed no cameras. The known cameras were left as they are."
    );
    assert_eq!(
        render_summary(&CheckOutcome::BaselineUnreadable),
        "Failed to load current camera data."
    );
}
