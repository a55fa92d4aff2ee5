use serp404::models::UrlEntry;
use serp404::projects::{deletion_outcome, project_urls, url_counts_by_source};

fn row(project: &str, url: &str, source: &str, status: &str) -> UrlEntry {
    UrlEntry {
        id: format!("{}-{}", project, url),
        project_id: project.to_string(),
        url: url.to_string(),
        source: source.to_string(),
        indexed_status: status.to_string(),
        http_status: None,
        response_time_ms: None,
        title: None,
        redirect_chain: None,
        error: None,
        checked_at: None,
    }
}

fn rows() -> Vec<UrlEntry> {
    vec![
        row("a", "https://a.com/zeta", "sitemap", "unknown"),
        row("a", "https://a.com/alpha", "csv", "confirmed"),
        row("b", "https://b.com/beta", "sitemap", "unknown"),
        row("a", "https://a.com/Beta", "sitemap", "confirmed"),
        row("a", "https://a.com/beta", "sitemap", "not_indexed"),
    ]
}

fn urls(v: &[serp404::projects::UrlListEntry]) -> Vec<String> {
    v.iter().map(|e| e.url.clone()).collect()
}

#[test]
fn project_urls_are_sorted_by_url() {
    let out = project_urls(&rows(), "a", None, None);
    assert_eq!(
        urls(&out),
        vec!["https://a.com/Beta", "https://a.com/alpha", "https://a.com/beta", "https://a.com/zeta"]
    );
    assert_eq!(out[1].id, "a-https://a.com/alpha");
    assert_eq!(out[1].source, "csv");
    assert_eq!(out[1].indexed_status, "confirmed");
}

#[test]
fn project_urls_filter_by_source_and_status() {
    assert_eq!(
        urls(&project_urls(&rows(), "a", Some("sitemap"), None)),
        vec!["https://a.com/Beta", "https://a.com/beta", "https://a.com/zeta"]
    );
    assert_eq!(
        urls(&project_urls(&rows(), "a", None, Some("confirmed"))),
        vec!["https://a.com/Beta", "https://a.com/alpha"]
    );
    assert_eq!(
        urls(&project_urls(&rows(), "a", Some("sitemap"), Some("confirmed"))),
        vec!["https://a.com/Beta"]
    );
    assert!(project_urls(&rows(), "a", Some("manual"), None).is_empty());
    assert!(project_urls(&rows(), "c", None, None).is_empty());
}

#[test]
fn url_counts_by_source_per_project() {
    let counts = url_counts_by_source(&rows(), "a");
    assert_eq!(counts, vec![("sitemap".to_string(), 3), ("csv".to_string(), 1)]);
    assert_eq!(url_counts_by_source(&rows(), "b"), vec![("sitemap".to_string(), 1)]);
    assert!(url_counts_by_source(&rows(), "c").is_empty());
}

#[test]
fn source_counts_add_up_to_the_project_urls() {
    let all = rows();
    for project in ["a", "b", "c"] {
        let total: usize = url_counts_by_source(&all, project).iter().map(|(_, n)| n).sum();
        assert_eq!(total, all.iter().filter(|e| e.project_id == project).count());
    }
}

#[test]
fn deleting_a_missing_project_is_an_error() {
    assert_eq!(deletion_outcome("abc", 1), Ok(()));
    assert_eq!(
        deletion_outcome("abc", 0),
        Err("Project with id 'abc' not found".to_string())
    );
}

#[test]
fn test_delete_nonexistent_project_returns_zero_changes() {
    // Deleting a project that does not exist removes no row, which the
    // command reports as an error.
    let changes = 0usize;
    assert_eq!(
        deletion_outcome("nonexistent-id", changes),
        Err("Project with id 'nonexistent-id' not found".to_string())
    );
}

use serp404::models::Project;
use serp404::projects::list_newest_first;

fn project(id: &str, created_at: &str) -> Project {
    Project {
        id: id.to_string(),
        domain: format!("{}.com", id),
        status: "created".to_string(),
        created_at: created_at.to_string(),
        updated_at: created_at.to_string(),
    }
}

#[test]
fn test_list_projects_ordered() {
    let mut first = project("a", "2024-01-01");
    first.domain = "first.com".to_string();
    let mut second = project("b", "2024-02-01");
    second.domain = "second.com".to_string();
    let domains: Vec<String> =
        list_newest_first(&vec![first, second]).into_iter().map(|p| p.domain).collect();
    assert_eq!(domains, vec!["second.com", "first.com"]);
}

#[test]
fn projects_are_listed_newest_first() {
    let projects = vec![
        project("old", "2024-01-01 00:00:00"),
        project("new", "2024-03-01 00:00:00"),
        project("mid", "2024-02-01 00:00:00"),
    ];
    let ids: Vec<String> = list_newest_first(&projects).into_iter().map(|p| p.id).collect();
    assert_eq!(ids, vec!["new", "mid", "old"]);
    assert!(list_newest_first(&vec![]).is_empty());
}
