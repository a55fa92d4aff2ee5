use serp404::audit::{
    begin_audit, cleanup_state, effective_concurrency, redirect_chain_json, stop_audit,
    task_error_label, AuditDecision, AuditRun, AuditStats, AuditStatus,
};
use serp404::checker::CheckResult;
use serp404::registry::Registry;

fn result(status: i32, ms: i64, title: Option<&str>, chain: &[&str], error: Option<&str>) -> CheckResult {
    CheckResult {
        url: "https://example.com/".to_string(),
        http_status: status,
        response_time_ms: ms,
        title: title.map(|t| t.to_string()),
        redirect_chain: chain.iter().map(|s| s.to_string()).collect(),
        error: error.map(|e| e.to_string()),
    }
}

fn stats_tuple(s: &AuditStats) -> (usize, usize, usize, usize, usize, usize) {
    (s.ok_count, s.redirect_count, s.not_found_count, s.error_count, s.empty_title_count, s.slow_count)
}

#[test]
fn audit_with_no_urls_is_done_at_once() {
    let mut run = AuditRun::new(0);
    assert!(matches!(run.decide(false, false, 5), AuditDecision::Done));
    let p = run.progress("p1", String::new(), AuditStatus::Done);
    assert_eq!(p.checked, 0);
    assert_eq!(p.total, 0);
    assert_eq!(p.status.name(), "done");
    assert_eq!(stats_tuple(&p.stats), (0, 0, 0, 0, 0, 0));
}

#[test]
fn audit_hands_out_chunks_of_the_concurrency() {
    let mut run = AuditRun::new(5);
    match run.decide(false, false, 2) {
        AuditDecision::Check(a, b) => assert_eq!((a, b), (0, 2)),
        _ => panic!("expected a chunk"),
    }
    run.record(&result(200, 100, Some("T"), &[], None));
    run.record(&result(404, 100, None, &[], None));
    match run.decide(false, false, 2) {
        AuditDecision::Check(a, b) => assert_eq!((a, b), (2, 4)),
        _ => panic!("expected a chunk"),
    }
    run.record(&result(301, 100, None, &["https://example.com/old"], None));
    run.record_failure();
    match run.decide(false, false, 2) {
        AuditDecision::Check(a, b) => assert_eq!((a, b), (4, 5)),
        _ => panic!("expected the last chunk"),
    }
    run.record(&result(200, 2500, None, &[], None));
    assert!(matches!(run.decide(false, false, 2), AuditDecision::Done));
    let p = run.progress("p1", String::new(), AuditStatus::Done);
    assert_eq!(p.checked, 5);
    assert_eq!(p.total, 5);
    assert_eq!(stats_tuple(&p.stats), (2, 1, 1, 1, 1, 1));
}

#[test]
fn audit_concurrency_zero_checks_one_at_a_time() {
    let mut run = AuditRun::new(3);
    match run.decide(false, false, 0) {
        AuditDecision::Check(a, b) => assert_eq!((a, b), (0, 1)),
        _ => panic!("expected a chunk of one"),
    }
}

#[test]
fn audit_pause_then_resume_then_cancel() {
    let mut run = AuditRun::new(3);
    assert!(matches!(run.decide(false, true, 1), AuditDecision::Paused));
    assert!(matches!(run.decide(false, true, 1), AuditDecision::Paused));
    match run.decide(false, false, 1) {
        AuditDecision::Check(a, b) => assert_eq!((a, b), (0, 1)),
        _ => panic!("expected a chunk"),
    }
    run.record(&result(500, 10, None, &[], None));
    assert!(matches!(run.decide(true, false, 1), AuditDecision::Cancelled));
    let p = run.progress("p1", "https://example.com/".to_string(), AuditStatus::Cancelled);
    assert_eq!(p.checked, 1);
    assert_eq!(p.status.name(), "cancelled");
    assert_eq!(p.stats.error_count, 1);
}

#[test]
fn audit_cancel_wins_over_pause() {
    let mut run = AuditRun::new(2);
    assert!(matches!(run.decide(true, true, 1), AuditDecision::Cancelled));
}

#[test]
fn audit_counts_each_outcome() {
    let mut s = AuditStats::new();
    s.count(&result(200, 2001, None, &[], None), 0);
    s.count(&result(302, 10, None, &["a"], None), 1);
    s.count(&result(0, 10, None, &[], Some("timeout")), 2);
    s.count(&result(503, 10, None, &[], None), 3);
    s.count(&result(200, 2000, Some("Home"), &["a", "b"], None), 4);
    assert_eq!(stats_tuple(&s), (2, 2, 0, 2, 1, 1));
}

#[test]
fn audit_status_names() {
    assert_eq!(AuditStatus::Running.name(), "running");
    assert_eq!(AuditStatus::Paused.name(), "paused");
    assert_eq!(AuditStatus::Done.name(), "done");
    assert_eq!(AuditStatus::Cancelled.name(), "cancelled");
}

#[test]
fn second_audit_of_a_project_is_refused_until_stopped() {
    let mut reg: Registry<u32> = Registry::new();
    assert!(begin_audit(&mut reg, "p1", 1).is_ok());
    assert_eq!(
        begin_audit(&mut reg, "p1", 2),
        Err("Audit already running for this project".to_string())
    );
    assert_eq!(reg.get("p1"), Some(&1));
    assert!(begin_audit(&mut reg, "p2", 3).is_ok());
    assert_eq!(stop_audit(&mut reg, "p1"), Some(1));
    assert!(!reg.contains("p1"));
    assert!(reg.contains("p2"));
    assert!(begin_audit(&mut reg, "p1", 4).is_ok());
    assert_eq!(reg.get("p1"), Some(&4));
}

#[test]
fn stop_audit_of_unknown_project_changes_nothing() {
    let mut reg: Registry<u32> = Registry::new();
    assert!(begin_audit(&mut reg, "p1", 1).is_ok());
    assert_eq!(stop_audit(&mut reg, "other"), None);
    assert!(reg.contains("p1"));
}

#[test]
fn cleanup_state_forgets_the_project() {
    let mut reg: Registry<u32> = Registry::new();
    assert!(begin_audit(&mut reg, "p1", 1).is_ok());
    cleanup_state(&mut reg, "p1");
    assert!(!reg.contains("p1"));
    cleanup_state(&mut reg, "p1");
    assert!(!reg.contains("p1"));
    assert!(begin_audit(&mut reg, "p1", 2).is_ok());
}

#[test]
fn concurrency_is_at_least_one() {
    assert_eq!(effective_concurrency(0), 1);
    assert_eq!(effective_concurrency(1), 1);
    assert_eq!(effective_concurrency(8), 8);
}

#[test]
fn task_error_label_wraps_the_message() {
    assert_eq!(task_error_label("task panicked"), "(task error: task panicked)");
}

#[test]
fn redirect_chain_is_stored_as_json() {
    assert_eq!(redirect_chain_json(&vec![]), None);
    let chain = vec!["https://a.com/".to_string(), "https://a.com/\"x\"\n".to_string()];
    assert_eq!(
        redirect_chain_json(&chain),
        Some(r#"["https://a.com/","https://a.com/\"x\"\n"]"#.to_string())
    );
    let chain = vec!["tab\there".to_string(), "bell\u{7}".to_string(), "back\\slash".to_string()];
    let expected = serde_json::to_string(&chain).unwrap();
    assert_eq!(expected, r#"["tab\there","bell\u0007","back\\slash"]"#);
    assert_eq!(redirect_chain_json(&chain), Some(expected));
}
