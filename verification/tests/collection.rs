use serp404::collection::{collection_done, collection_failed, collection_started, insert_error_message};

#[test]
fn collection_reports_carry_the_messages() {
    let p = collection_started("p1", "example.com");
    assert_eq!(p.project_id, "p1");
    assert_eq!(p.source, "sitemap");
    assert_eq!(p.urls_found, 0);
    assert_eq!(p.status, "running");
    assert_eq!(p.message, Some("Fetching sitemap for example.com".to_string()));

    let p = collection_done("p1", 1234);
    assert_eq!(p.urls_found, 1234);
    assert_eq!(p.status, "done");
    assert_eq!(p.message, Some("Found 1234 URLs from sitemap".to_string()));

    let p = collection_done("p1", 0);
    assert_eq!(p.message, Some("Found 0 URLs from sitemap".to_string()));

    let m = insert_error_message("disk full");
    assert_eq!(m, "DB insert error: disk full");
    let p = collection_failed("p1", 7, m);
    assert_eq!(p.urls_found, 7);
    assert_eq!(p.status, "error");
    assert_eq!(p.message, Some("DB insert error: disk full".to_string()));
}
