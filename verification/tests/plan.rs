use massa_tools::plan::{plan_copies, Match, NamePolicy, SkipReason};

fn found(path: &str) -> Match {
    Match::Found(path.to_string())
}

fn unreadable(path: &str) -> Match {
    Match::Unreadable(path.to_string())
}

#[test]
fn every_file_goes_to_the_root_under_its_own_name() {
    let matches = vec![found("stage/massa_unit_tests/a.wasm"), found("stage/massa_unit_tests/b.wasm")];
    let plan = plan_copies(&matches, "dst/", NamePolicy::Skip);
    assert_eq!(plan.job.len(), 2);
    assert_eq!(plan.job[0].source, "stage/massa_unit_tests/a.wasm");
    assert_eq!(plan.job[0].destination, "dst/a.wasm");
    assert_eq!(plan.job[1].source, "stage/massa_unit_tests/b.wasm");
    assert_eq!(plan.job[1].destination, "dst/b.wasm");
    assert!(plan.skipped.is_empty());
    assert_eq!(plan.stopped_at, None);
}

#[test]
fn the_order_of_the_scan_is_kept() {
    let matches = vec![found("z.wasm"), found("a.wasm"), found("m.wasm")];
    let plan = plan_copies(&matches, "out", NamePolicy::Skip);
    let sources: Vec<&str> = plan.job.iter().map(|p| p.source.as_str()).collect();
    let destinations: Vec<&str> = plan.job.iter().map(|p| p.destination.as_str()).collect();
    assert_eq!(sources, ["z.wasm", "a.wasm", "m.wasm"]);
    assert_eq!(destinations, ["out/z.wasm", "out/a.wasm", "out/m.wasm"]);
}

#[test]
fn nothing_matched_plans_nothing() {
    let plan = plan_copies(&Vec::new(), "dst/", NamePolicy::Abort);
    assert!(plan.job.is_empty());
    assert!(plan.skipped.is_empty());
    assert_eq!(plan.stopped_at, None);
}

#[test]
fn what_could_not_be_read_is_passed_over() {
    let matches = vec![found("a.wasm"), unreadable("locked"), found("b.wasm")];
    for policy in [NamePolicy::Skip, NamePolicy::Abort] {
        let plan = plan_copies(&matches, "dst", policy);
        assert_eq!(plan.job.len(), 2);
        assert_eq!(plan.job[1].destination, "dst/b.wasm");
        assert_eq!(plan.skipped.len(), 1);
        assert_eq!(plan.skipped[0].path, "locked");
        assert_eq!(plan.skipped[0].reason, SkipReason::Unreadable);
        assert_eq!(plan.stopped_at, None);
    }
}

#[test]
fn a_path_without_a_name_is_passed_over_when_skipping() {
    let matches = vec![found("a.wasm"), found(".."), found("/"), found("b.wasm")];
    let plan = plan_copies(&matches, "dst", NamePolicy::Skip);
    assert_eq!(plan.job.len(), 2);
    assert_eq!(plan.job[0].destination, "dst/a.wasm");
    assert_eq!(plan.job[1].destination, "dst/b.wasm");
    assert_eq!(plan.skipped.len(), 2);
    assert_eq!(plan.skipped[0].path, "..");
    assert_eq!(plan.skipped[0].reason, SkipReason::NoFileName);
    assert_eq!(plan.skipped[1].path, "/");
    assert_eq!(plan.stopped_at, None);
}

#[test]
fn a_path_without_a_name_ends_the_plan_when_aborting() {
    let matches = vec![found("a.wasm"), unreadable("x"), found(".."), found("b.wasm"), found("/")];
    let plan = plan_copies(&matches, "dst", NamePolicy::Abort);
    assert_eq!(plan.job.len(), 1);
    assert_eq!(plan.job[0].destination, "dst/a.wasm");
    assert_eq!(plan.skipped.len(), 1);
    assert_eq!(plan.skipped[0].path, "x");
    assert_eq!(plan.stopped_at, Some("..".to_string()));
}

#[test]
fn every_match_is_accounted_for() {
    let matches = vec![
        found("a"), unreadable("b"), found("c/"), found("."), found("d/e"), unreadable("f"), found(""),
    ];
    let plan = plan_copies(&matches, "r", NamePolicy::Skip);
    assert_eq!(plan.job.len() + plan.skipped.len(), matches.len());
    assert_eq!(plan.job.len(), 3);
    assert_eq!(plan.job[1].source, "c/");
    assert_eq!(plan.job[1].destination, "r/c");
    assert_eq!(plan.job[2].destination, "r/e");
}
