use serp404::models::UrlEntry;
use serp404::report::{
    checked_urls, export_csv, keeps_row, parse_filter, project_stats, unverified_count,
    urls_to_audit, urls_to_verify, ReportFilter,
};

#[allow(clippy::too_many_arguments)]
fn entry(
    url: &str,
    source: &str,
    indexed_status: &str,
    http_status: Option<i32>,
    response_time_ms: Option<i64>,
    title: Option<&str>,
    redirect_chain: Option<&str>,
    error: Option<&str>,
    checked_at: Option<&str>,
) -> UrlEntry {
    UrlEntry {
        id: format!("id-{}", url),
        project_id: "p".to_string(),
        url: url.to_string(),
        source: source.to_string(),
        indexed_status: indexed_status.to_string(),
        http_status,
        response_time_ms,
        title: title.map(|s| s.to_string()),
        redirect_chain: redirect_chain.map(|s| s.to_string()),
        error: error.map(|s| s.to_string()),
        checked_at: checked_at.map(|s| s.to_string()),
    }
}

fn checked(url: &str, http: Option<i32>, ms: Option<i64>, title: Option<&str>, error: Option<&str>) -> UrlEntry {
    entry(url, "sitemap", "confirmed", http, ms, title, None, error, Some("2024-01-01"))
}

const HEADER: &str = "URL,Source,Indexed,HTTP Status,Response Time (ms),Title,Redirect Chain,Error\n";

fn exported_urls(rows: &Vec<UrlEntry>, filter: Option<&str>) -> Vec<String> {
    let text = export_csv(rows, filter);
    text.lines().skip(1).map(|l| l.split(',').next().unwrap().to_string()).collect()
}

#[test]
fn test_export_csv_empty_project() {
    assert_eq!(export_csv(&vec![], None), HEADER);
}

#[test]
fn test_export_csv_basic_data() {
    let rows = vec![checked("https://test.com/page1", Some(200), Some(150), Some("Page 1"), None)];
    let text = export_csv(&rows, None);
    assert_eq!(
        text,
        format!("{}https://test.com/page1,sitemap,confirmed,200,150,Page 1,,\n", HEADER)
    );
}

#[test]
fn export_csv_quotes_fields_as_the_csv_writer_does() {
    let rows = vec![entry(
        "https://q.com/a",
        "csv",
        "unknown",
        Some(301),
        Some(-5),
        Some("Hello, \"World\""),
        Some("[\"https://q.com/b\",\"https://q.com/c\"]"),
        Some("line1\nline2"),
        None,
    )];
    let text = export_csv(&rows, Some("all"));
    let expected = format!(
        "{}https://q.com/a,csv,unknown,301,-5,\"Hello, \"\"World\"\"\",\"[\"\"https://q.com/b\"\",\"\"https://q.com/c\"\"]\",\"line1\nline2\"\n",
        HEADER
    );
    assert_eq!(text, expected);
    let mut wtr = csv::Writer::from_writer(Vec::new());
    wtr.write_record(["URL", "Source", "Indexed", "HTTP Status", "Response Time (ms)", "Title", "Redirect Chain", "Error"]).unwrap();
    wtr.write_record([
        "https://q.com/a",
        "csv",
        "unknown",
        "301",
        "-5",
        "Hello, \"World\"",
        "[\"https://q.com/b\",\"https://q.com/c\"]",
        "line1\nline2",
    ])
    .unwrap();
    assert_eq!(String::from_utf8(wtr.into_inner().unwrap()).unwrap(), text);
}

#[test]
fn test_filter_404() {
    let rows = vec![
        checked("https://filter.com/ok", Some(200), Some(100), Some("OK"), None),
        checked("https://filter.com/missing", Some(404), Some(80), None, None),
        checked("https://filter.com/also-missing", Some(404), Some(90), None, None),
    ];
    assert_eq!(
        exported_urls(&rows, Some("404")),
        vec!["https://filter.com/missing", "https://filter.com/also-missing"]
    );
}

#[test]
fn test_filter_redirects() {
    let rows = vec![
        checked("https://redir.com/ok", Some(200), Some(100), Some("OK"), None),
        checked("https://redir.com/moved", Some(301), Some(50), None, None),
        checked("https://redir.com/temp", Some(302), Some(60), None, None),
    ];
    assert_eq!(exported_urls(&rows, Some("redirects")).len(), 2);
}

#[test]
fn test_filter_empty_title() {
    let rows = vec![
        checked("https://title.com/with-title", Some(200), Some(100), Some("My Page"), None),
        checked("https://title.com/no-title", Some(200), Some(100), None, None),
        checked("https://title.com/empty-title", Some(200), Some(100), Some(""), None),
        checked("https://title.com/404-no-title", Some(404), Some(100), None, None),
    ];
    assert_eq!(
        exported_urls(&rows, Some("empty_title")),
        vec!["https://title.com/no-title", "https://title.com/empty-title"]
    );
}

#[test]
fn test_filter_slow() {
    let rows = vec![
        checked("https://slow.com/fast", Some(200), Some(500), Some("Fast"), None),
        checked("https://slow.com/slow", Some(200), Some(3000), Some("Slow"), None),
        checked("https://slow.com/very-slow", Some(200), Some(5000), Some("Very Slow"), None),
        checked("https://slow.com/borderline", Some(200), Some(2000), Some("Borderline"), None),
    ];
    assert_eq!(
        exported_urls(&rows, Some("slow")),
        vec!["https://slow.com/slow", "https://slow.com/very-slow"]
    );
}

#[test]
fn test_filter_errors_in_export() {
    let rows = vec![
        checked("https://errors.com/ok", Some(200), Some(100), Some("OK"), None),
        checked("https://errors.com/404", Some(404), Some(80), None, None),
        checked("https://errors.com/500", Some(500), Some(200), None, None),
        checked("https://errors.com/conn-err", None, None, None, Some("Connection refused")),
    ];
    assert_eq!(
        exported_urls(&rows, Some("errors")),
        vec!["https://errors.com/404", "https://errors.com/500", "https://errors.com/conn-err"]
    );
}

#[test]
fn unknown_filter_keeps_every_row() {
    assert!(matches!(parse_filter(None), ReportFilter::All));
    assert!(matches!(parse_filter(Some("all")), ReportFilter::All));
    assert!(matches!(parse_filter(Some("ERRORS")), ReportFilter::All));
    assert!(matches!(parse_filter(Some("404")), ReportFilter::NotFound));
    assert!(matches!(parse_filter(Some("redirects")), ReportFilter::Redirects));
    assert!(matches!(parse_filter(Some("empty_title")), ReportFilter::EmptyTitle));
    assert!(matches!(parse_filter(Some("slow")), ReportFilter::Slow));
    assert!(matches!(parse_filter(Some("errors")), ReportFilter::Errors));
}

#[test]
fn error_filter_floor_decides_whether_404_counts() {
    let e = checked("https://x.com/404", Some(404), Some(1), None, None);
    assert!(keeps_row(&ReportFilter::Errors, &e, 400));
    assert!(!keeps_row(&ReportFilter::Errors, &e, 500));
}

#[test]
fn test_project_stats_empty_project() {
    let s = project_stats(&vec![]);
    assert_eq!(
        (s.total_urls, s.confirmed_indexed, s.not_indexed, s.unknown_status, s.checked),
        (0, 0, 0, 0, 0)
    );
    assert_eq!(
        (s.ok_count, s.redirect_count, s.not_found_count, s.error_count, s.empty_title_count, s.slow_count),
        (0, 0, 0, 0, 0, 0)
    );
}

#[test]
fn test_project_stats_comprehensive() {
    let rows = vec![
        entry("https://stats.com/good", "sitemap", "confirmed", Some(200), Some(100), Some("Good"), None, None, Some("2024-01-01")),
        entry("https://stats.com/missing", "sitemap", "confirmed", Some(404), Some(80), None, None, None, Some("2024-01-01")),
        entry("https://stats.com/redir", "sitemap", "confirmed", Some(301), Some(50), None, Some("[\"https://stats.com/new\"]"), None, Some("2024-01-01")),
        entry("https://stats.com/no-title", "sitemap", "confirmed", Some(200), Some(3000), Some(""), None, None, Some("2024-01-01")),
        entry("https://stats.com/error", "sitemap", "unknown", None, None, None, None, Some("timeout"), Some("2024-01-01")),
        entry("https://stats.com/not-indexed", "sitemap", "not_indexed", None, None, None, None, None, None),
        entry("https://stats.com/unchecked", "csv", "unknown", None, None, None, None, None, None),
    ];
    let s = project_stats(&rows);
    assert_eq!(s.total_urls, 7, "total_urls");
    assert_eq!(s.confirmed_indexed, 4, "confirmed_indexed");
    assert_eq!(s.not_indexed, 1, "not_indexed");
    assert_eq!(s.unknown_status, 2, "unknown_status");
    assert_eq!(s.checked, 5, "checked");
    assert_eq!(s.ok_count, 2, "ok_count");
    assert_eq!(s.redirect_count, 1, "redirect_count");
    assert_eq!(s.not_found_count, 1, "not_found_count");
    assert_eq!(s.error_count, 2, "error_count");
    assert_eq!(s.empty_title_count, 1, "empty_title_count");
    assert_eq!(s.slow_count, 1, "slow_count");
    assert!(s.confirmed_indexed + s.not_indexed + s.unknown_status <= s.total_urls);
    assert!(s.not_found_count <= s.error_count);
}

#[test]
fn test_get_checked_urls_only_returns_checked() {
    let rows = vec![
        checked("https://checked.com/a", Some(200), Some(100), Some("A"), None),
        entry("https://checked.com/b", "sitemap", "confirmed", None, None, None, None, None, None),
    ];
    let out = checked_urls(&rows, None);
    assert_eq!(out.len(), 1);
    assert_eq!(out[0].url, "https://checked.com/a");
    assert!(out[0].checked_at.is_some());
}

#[test]
fn test_get_checked_urls_ordered_by_checked_at_desc() {
    let rows = vec![
        entry("https://order.com/first", "sitemap", "confirmed", Some(200), Some(100), Some("First"), None, None, Some("2024-01-01 10:00:00")),
        entry("https://order.com/second", "sitemap", "confirmed", Some(200), Some(100), Some("Second"), None, None, Some("2024-01-02 10:00:00")),
        entry("https://order.com/third", "sitemap", "confirmed", Some(200), Some(100), Some("Third"), None, None, Some("2024-01-03 10:00:00")),
    ];
    let urls: Vec<String> = checked_urls(&rows, None).into_iter().map(|e| e.url).collect();
    assert_eq!(
        urls,
        vec!["https://order.com/third", "https://order.com/second", "https://order.com/first"]
    );
}

#[test]
fn test_get_checked_urls_filter_errors_uses_500_threshold() {
    let rows = vec![
        checked("https://err-filter.com/ok", Some(200), Some(100), Some("OK"), None),
        checked("https://err-filter.com/404", Some(404), Some(80), None, None),
        checked("https://err-filter.com/500", Some(500), Some(200), None, None),
        checked("https://err-filter.com/conn", None, None, None, Some("refused")),
    ];
    let urls: Vec<String> = checked_urls(&rows, Some("errors")).into_iter().map(|e| e.url).collect();
    assert_eq!(urls.len(), 2);
    assert!(urls.contains(&"https://err-filter.com/500".to_string()));
    assert!(urls.contains(&"https://err-filter.com/conn".to_string()));
    assert!(!urls.contains(&"https://err-filter.com/404".to_string()));
}

#[test]
fn test_no_filter_returns_all_checked() {
    let rows = vec![
        entry("https://allchecked.com/a", "sitemap", "confirmed", Some(200), Some(100), Some("A"), None, None, Some("2024-01-01")),
        entry("https://allchecked.com/b", "sitemap", "confirmed", Some(404), Some(80), None, None, None, Some("2024-01-02")),
        entry("https://allchecked.com/c", "sitemap", "confirmed", Some(301), Some(50), None, None, None, Some("2024-01-03")),
    ];
    assert_eq!(checked_urls(&rows, None).len(), 3);
    assert_eq!(checked_urls(&rows, Some("404")).len(), 1);
}

#[test]
fn test_unverified_count_mixed_statuses() {
    let rows = vec![
        entry("https://mixed.com/a", "sitemap", "unknown", None, None, None, None, None, None),
        entry("https://mixed.com/b", "sitemap", "confirmed", None, None, None, None, None, None),
        entry("https://mixed.com/c", "sitemap", "not_indexed", None, None, None, None, None, None),
        entry("https://mixed.com/d", "sitemap", "unknown", None, None, None, None, None, None),
    ];
    assert_eq!(unverified_count(&rows), 2);
    assert_eq!(unverified_count(&vec![]), 0);
}

#[test]
fn test_fetch_unverified_urls_for_verification() {
    let rows = vec![
        entry("https://verify.com/a", "sitemap", "unknown", None, None, None, None, None, None),
        entry("https://verify.com/b", "sitemap", "confirmed", None, None, None, None, None, None),
        entry("https://verify.com/c", "sitemap", "unknown", None, None, None, None, None, None),
    ];
    let picked = urls_to_verify(&rows);
    assert_eq!(
        picked,
        vec![
            ("id-https://verify.com/a".to_string(), "https://verify.com/a".to_string()),
            ("id-https://verify.com/c".to_string(), "https://verify.com/c".to_string()),
        ]
    );
}

#[test]
fn audit_takes_confirmed_unchecked_urls() {
    let rows = vec![
        entry("https://a.com/1", "sitemap", "confirmed", None, None, None, None, None, None),
        entry("https://a.com/2", "sitemap", "confirmed", Some(200), Some(5), None, None, None, Some("2024-01-01")),
        entry("https://a.com/3", "sitemap", "unknown", None, None, None, None, None, None),
        entry("https://a.com/4", "csv", "confirmed", None, None, None, None, None, None),
    ];
    let picked: Vec<String> = urls_to_audit(&rows).into_iter().map(|(_, u)| u).collect();
    assert_eq!(picked, vec!["https://a.com/1", "https://a.com/4"]);
}

#[test]
fn test_unverified_count_empty_project() {
    assert_eq!(unverified_count(&vec![]), 0);
}

#[test]
fn test_unverified_count_all_unknown() {
    let rows = vec![
        entry("https://unknown.com/a", "sitemap", "unknown", None, None, None, None, None, None),
        entry("https://unknown.com/b", "sitemap", "unknown", None, None, None, None, None, None),
        entry("https://unknown.com/c", "sitemap", "unknown", None, None, None, None, None, None),
    ];
    assert_eq!(unverified_count(&rows), 3);
}
