use titlefetch::fetch::{FetchOutcome, Orchestrator};

#[test]
fn second_call_is_a_skipped_no_op() {
    let mut orch = Orchestrator::new();
    let path = String::from("2.0.0/0100000000000816.nca");
    // The destination does not exist yet: exactly one download is asked for.
    assert_eq!(orch.ensure_fetched(&path, false), FetchOutcome::Fetched);
    // The second call performs no request, whatever the disk now says.
    assert_eq!(orch.ensure_fetched(&path, true), FetchOutcome::Skipped);
    assert_eq!(orch.ensure_fetched(&path, false), FetchOutcome::Skipped);
}

#[test]
fn existing_destination_is_proof_of_completion() {
    let mut orch = Orchestrator::new();
    let path = String::from("2.0.0/0100000000000816.nca");
    assert_eq!(orch.ensure_fetched(&path, true), FetchOutcome::Skipped);
    assert_eq!(orch.ensure_fetched(&path, false), FetchOutcome::Skipped);
}

#[test]
fn distinct_paths_are_fetched_separately() {
    let mut orch = Orchestrator::new();
    let a = String::from("2.0.0/a.nca");
    let b = String::from("2.0.0/b.nca");
    assert_eq!(orch.ensure_fetched(&a, false), FetchOutcome::Fetched);
    assert_eq!(orch.ensure_fetched(&b, false), FetchOutcome::Fetched);
    assert_eq!(orch.ensure_fetched(&a, false), FetchOutcome::Skipped);
    assert_eq!(orch.ensure_fetched(&b, false), FetchOutcome::Skipped);
}
