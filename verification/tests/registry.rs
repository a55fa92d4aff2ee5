use std::sync::atomic::{AtomicBool, Ordering};
use std::sync::{Arc, Mutex};

use serp404::registry::Registry;

#[test]
fn test_cancel_token_setup_and_teardown() {
    let tokens: Mutex<Registry<Arc<AtomicBool>>> = Mutex::new(Registry::new());
    let project_id = "test-cancel-project".to_string();

    // Setup: insert a cancel token
    let cancel_token = Arc::new(AtomicBool::new(false));
    {
        let mut tokens = tokens.lock().unwrap();
        tokens.insert(project_id.clone(), cancel_token.clone());
    }

    // Verify it exists
    {
        let tokens = tokens.lock().unwrap();
        assert!(tokens.contains(&project_id));
    }

    // Simulate cancellation
    cancel_token.store(true, Ordering::Relaxed);
    assert!(cancel_token.load(Ordering::Relaxed));

    // Teardown
    {
        let mut tokens = tokens.lock().unwrap();
        tokens.remove(&project_id);
    }

    // Verify it's gone
    {
        let tokens = tokens.lock().unwrap();
        assert!(!tokens.contains(&project_id));
    }
}

#[test]
fn registry_token_is_shared_with_the_caller() {
    let mut tokens: Registry<Arc<AtomicBool>> = Registry::new();
    let token = Arc::new(AtomicBool::new(false));
    tokens.insert("p".to_string(), token.clone());
    if let Some(t) = tokens.get("p") {
        t.store(true, Ordering::Relaxed);
    }
    assert!(token.load(Ordering::Relaxed));
}

#[test]
fn registry_insert_replaces_and_remove_hands_back() {
    let mut reg: Registry<i32> = Registry::new();
    assert!(!reg.contains("a"));
    assert_eq!(reg.get("a"), None);
    reg.insert("a".to_string(), 1);
    reg.insert("b".to_string(), 2);
    reg.insert("a".to_string(), 3);
    assert_eq!(reg.get("a"), Some(&3));
    assert_eq!(reg.get("b"), Some(&2));
    assert_eq!(reg.remove("a"), Some(3));
    assert_eq!(reg.remove("a"), None);
    assert!(!reg.contains("a"));
    assert!(reg.contains("b"));
}

/// What stopping an indexation does: raise the cancel flag of the project's
/// token, if it has one.
fn stop_indexation(tokens: &Mutex<Registry<Arc<AtomicBool>>>, project_id: &str) -> Result<(), String> {
    let tokens = tokens.lock().map_err(|e| e.to_string())?;
    if let Some(token) = tokens.get(project_id) {
        token.store(true, Ordering::Relaxed);
    }
    Ok(())
}

#[test]
fn test_stop_indexation_sets_cancel_flag() {
    let tokens: Mutex<Registry<Arc<AtomicBool>>> = Mutex::new(Registry::new());
    let project_id = "stop-test-project".to_string();

    let cancel_token = Arc::new(AtomicBool::new(false));
    {
        let mut tokens = tokens.lock().unwrap();
        tokens.insert(project_id.clone(), cancel_token.clone());
    }

    stop_indexation(&tokens, &project_id).unwrap();

    assert!(cancel_token.load(Ordering::Relaxed), "Cancel token should be true after stop_indexation");

    {
        let mut tokens = tokens.lock().unwrap();
        tokens.remove(&project_id);
    }
}

#[test]
fn test_stop_indexation_nonexistent_project_is_ok() {
    let tokens: Mutex<Registry<Arc<AtomicBool>>> = Mutex::new(Registry::new());
    let result = stop_indexation(&tokens, "nonexistent-project");
    assert!(result.is_ok());
}
