use tag_spider::children::{contents_children, flat_scan_children, needs_expanding, parse_level, TreeItem};
use tag_spider::retry::{is_overlay_interference, RetryEvent, RetryFailure, RetryMachine, Stage};
use tag_spider::traversal::{Traversal, TraversalEvent, TraversalStage};

/// Drives a retry machine: the overlay is never present, recovery always
/// clears it, and the operation's attempts answer from `answers` in turn.
/// Returns the final stage and how many times the operation ran.
fn drive_retry(max_retries: usize, answers: &[Result<(), &str>]) -> (Stage, usize) {
    let mut m = RetryMachine::new(max_retries);
    let mut runs = 0;
    for _ in 0..1000 {
        let ev = match &m.stage {
            Stage::CheckOverlay => RetryEvent::OverlayChecked(false),
            Stage::RecoverBefore | Stage::RecoverAfter => RetryEvent::Recovered(Ok(true)),
            Stage::Run => {
                let a = answers[runs].map_err(|e| e.to_string());
                runs += 1;
                RetryEvent::Ran(a)
            }
            Stage::Settle { .. } => RetryEvent::Waited,
            Stage::Succeeded | Stage::Failed(_) => break,
        };
        m.step(ev);
    }
    (m.stage, runs)
}

#[test]
fn retry_recovers_from_two_interceptions() {
    let answers = [
        Err("element click intercepted: other element would receive the click"),
        Err("ElementClickInterceptedError"),
        Ok(()),
    ];
    let (stage, runs) = drive_retry(3, &answers);
    assert!(matches!(stage, Stage::Succeeded));
    assert_eq!(runs, 3);
}

#[test]
fn retry_gives_up_after_budget() {
    let answers = [Err("boom 1"), Err("boom 2"), Err("boom 3"), Err("boom 4"), Ok(())];
    let (stage, runs) = drive_retry(3, &answers);
    assert_eq!(runs, 4);
    match stage {
        Stage::Failed(RetryFailure::Operation(e)) => assert_eq!(e, "boom 4"),
        other => panic!("unexpected stage {:?}", other),
    }
}

#[test]
fn retry_without_retries_runs_once() {
    let answers = [Err("neos-ReloginDialog is in the way"), Ok(())];
    let (stage, runs) = drive_retry(0, &answers);
    assert_eq!(runs, 1);
    assert!(matches!(stage, Stage::Failed(RetryFailure::Operation(_))));
}

#[test]
fn retry_waits_after_plain_failure() {
    let mut m = RetryMachine::new(2);
    m.step(RetryEvent::OverlayChecked(false));
    assert!(matches!(m.stage, Stage::Run));
    m.step(RetryEvent::Ran(Err("timeout".to_string())));
    assert!(matches!(m.stage, Stage::Settle { secs: 2, .. }));
    m.step(RetryEvent::Waited);
    assert_eq!(m.attempt, 1);
    assert!(matches!(m.stage, Stage::CheckOverlay));
}

#[test]
fn retry_overlay_before_attempt() {
    let mut m = RetryMachine::new(1);
    m.step(RetryEvent::OverlayChecked(true));
    assert!(matches!(m.stage, Stage::RecoverBefore));
    m.step(RetryEvent::Recovered(Ok(false)));
    assert!(matches!(m.stage, Stage::Settle { .. }));
    m.step(RetryEvent::Waited);
    assert_eq!(m.attempt, 1);
    m.step(RetryEvent::OverlayChecked(true));
    m.step(RetryEvent::Recovered(Err("no credentials".to_string())));
    match &m.stage {
        Stage::Failed(RetryFailure::RecoveryError(e)) => assert_eq!(e, "no credentials"),
        other => panic!("unexpected stage {:?}", other),
    }
}

#[test]
fn retry_failed_recovery_after_interception_waits_less() {
    let mut m = RetryMachine::new(1);
    m.step(RetryEvent::OverlayChecked(false));
    m.step(RetryEvent::Ran(Err("element click intercepted".to_string())));
    assert!(matches!(m.stage, Stage::RecoverAfter));
    m.step(RetryEvent::Recovered(Ok(false)));
    assert!(matches!(m.stage, Stage::Settle { secs: 1, .. }));
}

#[test]
fn retry_ignores_unexpected_event() {
    let mut m = RetryMachine::new(1);
    m.step(RetryEvent::Waited);
    assert!(matches!(m.stage, Stage::CheckOverlay));
    assert_eq!(m.attempt, 0);
}

#[test]
fn interference_markers() {
    assert!(is_overlay_interference("... neos-ReloginDialog ..."));
    assert!(is_overlay_interference("element click intercepted"));
    assert!(is_overlay_interference("ElementClickInterceptedError: x"));
    assert!(!is_overlay_interference("NoSuchElement"));
    assert!(!is_overlay_interference(""));
}

#[test]
fn level_parsing() {
    assert_eq!(parse_level("2"), Some(2));
    assert_eq!(parse_level("+3"), Some(3));
    assert_eq!(parse_level("-1"), Some(-1));
    assert_eq!(parse_level("007"), Some(7));
    assert_eq!(parse_level(""), None);
    assert_eq!(parse_level("-"), None);
    assert_eq!(parse_level("+"), None);
    assert_eq!(parse_level(" 2"), None);
    assert_eq!(parse_level("2a"), None);
    assert_eq!(parse_level("2147483647"), Some(i32::MAX));
    assert_eq!(parse_level("2147483648"), None);
    assert_eq!(parse_level("-2147483648"), Some(i32::MIN));
    assert_eq!(parse_level("-2147483649"), None);
    assert_eq!(parse_level("99999999999999999999999"), None);
}

#[test]
fn contents_children_skip_missing_and_self() {
    let ids = vec![Some("c1".to_string()), None, Some("p".to_string()), Some("c2".to_string())];
    assert_eq!(contents_children("p", &ids), vec!["c1".to_string(), "c2".to_string()]);
    assert!(contents_children("p", &vec![]).is_empty());
}

fn item(id: Option<&str>, level: Option<&str>) -> TreeItem {
    TreeItem { id: id.map(|s| s.to_string()), level: level.map(|s| s.to_string()) }
}

#[test]
fn flat_scan_collects_next_level_until_sibling() {
    let items = vec![
        item(Some("top"), Some("1")),
        item(Some("p"), Some("2")),
        item(Some("c1"), Some("3")),
        item(Some("g1"), Some("4")),
        item(None, Some("3")),
        item(Some("c2"), Some("3")),
        item(Some("c3"), Some("x")),
        item(Some("sib"), Some("2")),
        item(Some("late"), Some("3")),
    ];
    assert_eq!(flat_scan_children("p", &items), vec!["c1".to_string(), "c2".to_string()]);
}

#[test]
fn flat_scan_without_parent_or_level_finds_nothing() {
    let items = vec![item(Some("a"), Some("1")), item(Some("b"), Some("2"))];
    assert!(flat_scan_children("p", &items).is_empty());
    let no_level = vec![item(Some("p"), None), item(Some("c"), Some("2"))];
    assert!(flat_scan_children("p", &no_level).is_empty());
    assert!(flat_scan_children("p", &vec![]).is_empty());
}

fn children_of(id: &str) -> Option<Vec<String>> {
    let v: &[&str] = match id {
        "root" => &["a", "b"],
        "a" => &["a1", "a2"],
        "a1" => &["a1x"],
        "b" => &[],
        _ => return None,
    };
    Some(v.iter().map(|s| s.to_string()).collect())
}

/// Drives a traversal over a fixed tree; nodes without an entry are leaves
/// without an expand toggle.
fn traverse(root: &str, depth: usize) -> Traversal {
    let mut t = Traversal::new(root.to_string(), depth);
    for _ in 0..10000 {
        if t.is_finished() {
            break;
        }
        let target = t.target().unwrap();
        let ev = match t.stage {
            TraversalStage::Discover { .. } | TraversalStage::DiscoverChild => {
                TraversalEvent::Discovered(Ok(children_of(&target).unwrap_or_default()))
            }
            TraversalStage::Probe => TraversalEvent::Probed(Ok(children_of(&target).is_some())),
            TraversalStage::Pause => TraversalEvent::Waited,
            _ => unreachable!(),
        };
        t.step(ev);
    }
    t
}

#[test]
fn traversal_is_preorder() {
    let t = traverse("root", 5);
    assert!(matches!(t.stage, TraversalStage::Done));
    assert_eq!(t.output, vec!["a", "a1", "a1x", "a2", "b"]);
}

#[test]
fn traversal_respects_depth() {
    assert_eq!(traverse("root", 1).output, vec!["a", "b"]);
    assert_eq!(traverse("root", 2).output, vec!["a", "a1", "a2", "b"]);
    assert_eq!(traverse("root", 3).output, vec!["a", "a1", "a1x", "a2", "b"]);
}

#[test]
fn traversal_depth_zero_is_empty() {
    let t = traverse("root", 0);
    assert!(matches!(t.stage, TraversalStage::Done));
    assert!(t.output.is_empty());
    assert!(t.target().is_none());
}

#[test]
fn traversal_of_leaf_is_empty() {
    let t = traverse("a2", 5);
    assert!(matches!(t.stage, TraversalStage::Done));
    assert!(t.output.is_empty());
}

#[test]
fn traversal_root_discovery_error_fails() {
    let mut t = Traversal::new("root".to_string(), 3);
    t.step(TraversalEvent::Discovered(Err("not found".to_string())));
    match &t.stage {
        TraversalStage::Failed(e) => assert_eq!(e, "not found"),
        _ => panic!("expected failure"),
    }
}

#[test]
fn traversal_child_errors_leave_leaves() {
    let mut t = Traversal::new("r".to_string(), 3);
    t.step(TraversalEvent::Discovered(Ok(vec!["x".to_string(), "y".to_string()])));
    assert_eq!(t.target(), Some("x".to_string()));
    assert!(matches!(t.stage, TraversalStage::Probe));
    t.step(TraversalEvent::Probed(Err("gone".to_string())));
    assert!(matches!(t.stage, TraversalStage::Pause));
    t.step(TraversalEvent::Waited);
    assert_eq!(t.target(), Some("y".to_string()));
    t.step(TraversalEvent::Probed(Ok(true)));
    assert!(matches!(t.stage, TraversalStage::DiscoverChild));
    t.step(TraversalEvent::Discovered(Err("stale".to_string())));
    assert!(matches!(t.stage, TraversalStage::Pause));
    t.step(TraversalEvent::Waited);
    assert!(matches!(t.stage, TraversalStage::Done));
    assert_eq!(t.output, vec!["x", "y"]);
}

#[test]
fn expanding_needed_unless_expanded() {
    assert!(!needs_expanding(&Some("true".to_string())));
    assert!(needs_expanding(&Some("false".to_string())));
    assert!(needs_expanding(&Some("True".to_string())));
    assert!(needs_expanding(&None));
}

#[test]
fn traversal_subtree_failure_skips_only_that_subtree() {
    let mut t = Traversal::new("r".to_string(), 5);
    t.step(TraversalEvent::Discovered(Ok(vec!["c1".to_string(), "c2".to_string()])));
    t.step(TraversalEvent::Probed(Ok(true)));
    t.step(TraversalEvent::Discovered(Ok(vec!["g".to_string()])));
    assert!(matches!(t.stage, TraversalStage::Discover { depth: 1, .. }));
    assert_eq!(t.target(), Some("c1".to_string()));
    t.step(TraversalEvent::Discovered(Err("stale element".to_string())));
    assert!(matches!(t.stage, TraversalStage::Pause));
    t.step(TraversalEvent::Waited);
    assert_eq!(t.target(), Some("c2".to_string()));
    t.step(TraversalEvent::Probed(Ok(false)));
    t.step(TraversalEvent::Waited);
    assert!(matches!(t.stage, TraversalStage::Done));
    assert_eq!(t.output, vec!["c1", "c2"]);
}
