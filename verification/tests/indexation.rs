use serp404::indexation::{IndexationRun, IndexationStep};

fn pairs(urls: &[&str]) -> Vec<(String, String)> {
    urls.iter().enumerate().map(|(i, u)| (format!("id{}", i), u.to_string())).collect()
}

fn lookup(step: IndexationStep) -> String {
    match step {
        IndexationStep::Lookup(u) => u,
        _ => panic!("expected a lookup"),
    }
}

#[test]
fn nothing_to_verify_gives_no_run() {
    assert!(IndexationRun::new("p", vec![]).is_none());
}

#[test]
fn run_marks_each_url_and_counts_confirmed() {
    let mut run = IndexationRun::new("p", pairs(&["https://a.com/1", "https://a.com/2", "https://a.com/3"])).unwrap();
    let mut stored = Vec::new();
    for (i, indexed) in [true, false, true].iter().enumerate() {
        let url = lookup(run.advance(false));
        assert_eq!(url, format!("https://a.com/{}", i + 1));
        match run.on_lookup(*indexed, false) {
            IndexationStep::Store { url_id, status, progress } => {
                assert_eq!(url_id, format!("id{}", i));
                assert_eq!(progress.checked, i + 1);
                assert_eq!(progress.total, 3);
                assert_eq!(progress.current_url, url);
                assert_eq!(progress.status, "running");
                assert_eq!(progress.project_id, "p");
                stored.push(status);
            }
            _ => panic!("expected a store"),
        }
    }
    assert_eq!(stored, vec!["confirmed", "not_indexed", "confirmed"]);
    match run.advance(false) {
        IndexationStep::Finish { progress, confirmed } => {
            assert_eq!(confirmed, 2);
            assert_eq!(progress.checked, 3);
            assert_eq!(progress.total, 3);
            assert_eq!(progress.current_url, "");
            assert_eq!(progress.status, "done");
        }
        _ => panic!("expected the end"),
    }
}

#[test]
fn cancel_before_a_lookup_stops_at_that_url() {
    let mut run = IndexationRun::new("p", pairs(&["https://a.com/1", "https://a.com/2"])).unwrap();
    let _ = lookup(run.advance(false));
    let _ = run.on_lookup(true, false);
    match run.advance(true) {
        IndexationStep::Finish { progress, confirmed } => {
            assert_eq!(confirmed, 1);
            assert_eq!(progress.checked, 1);
            assert_eq!(progress.total, 2);
            assert_eq!(progress.current_url, "https://a.com/2");
            assert_eq!(progress.status, "cancelled");
        }
        _ => panic!("expected a cancellation"),
    }
}

#[test]
fn cancel_during_a_lookup_drops_its_answer() {
    let mut run = IndexationRun::new("p", pairs(&["https://a.com/1"])).unwrap();
    let _ = lookup(run.advance(false));
    match run.on_lookup(true, true) {
        IndexationStep::Finish { progress, confirmed } => {
            assert_eq!(confirmed, 0);
            assert_eq!(progress.checked, 0);
            assert_eq!(progress.current_url, "https://a.com/1");
            assert_eq!(progress.status, "cancelled");
        }
        _ => panic!("expected a cancellation"),
    }
}

#[test]
fn cancel_after_the_last_url_is_done() {
    let mut run = IndexationRun::new("p", pairs(&["https://a.com/1"])).unwrap();
    let _ = lookup(run.advance(false));
    let _ = run.on_lookup(false, false);
    match run.advance(true) {
        IndexationStep::Finish { progress, confirmed } => {
            assert_eq!(confirmed, 0);
            assert_eq!(progress.status, "done");
        }
        _ => panic!("expected the end"),
    }
}
