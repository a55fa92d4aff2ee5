use serp404::csv_import::{
    auto_extract_urls, columns_with_urls, detect_url_columns, extract_urls_from_column,
    urls_in_column,
};

#[test]
fn test_detect_url_columns_screaming_frog() {
    let csv = "Address,Status Code,Title\nhttps://example.com/page1,200,Home\nhttps://example.com/page2,404,Not Found\nhttps://example.com/page3,200,About";
    let columns = detect_url_columns(csv).unwrap();
    assert_eq!(columns.len(), 1);
    assert_eq!(columns[0].name, "Address");
    assert_eq!(columns[0].index, 0);
}

#[test]
fn test_extract_urls_from_column() {
    let csv = "URL,Status\nhttps://example.com/a,200\nhttps://example.com/b,404\nhttps://example.com/c,301";
    let urls = extract_urls_from_column(csv, 0).unwrap();
    assert_eq!(urls.len(), 3);
    assert_eq!(urls[0], "https://example.com/a");
}

#[test]
fn test_auto_extract_urls() {
    let csv =
        "Page,URL,Clicks\nHome,https://example.com/,100\nAbout,https://example.com/about,50";
    let urls = auto_extract_urls(csv).unwrap();
    assert_eq!(urls.len(), 2);
}

#[test]
fn test_deduplication() {
    let csv = "URL\nhttps://example.com/a\nhttps://example.com/a\nhttps://example.com/b";
    let urls = extract_urls_from_column(csv, 0).unwrap();
    assert_eq!(urls.len(), 2);
}

#[test]
fn test_no_urls_found() {
    let csv = "Name,Age\nAlice,30\nBob,25";
    let columns = detect_url_columns(csv).unwrap();
    assert!(columns.is_empty());
}

#[test]
fn detect_reports_count_and_first_sample() {
    let csv = "Page,Link\nA,none\nB,see http://x.org/p here\nC,https://y.org/q";
    let columns = detect_url_columns(csv).unwrap();
    assert_eq!(columns.len(), 1);
    assert_eq!(columns[0].index, 1);
    assert_eq!(columns[0].name, "Link");
    assert_eq!(columns[0].url_count, 2);
    assert_eq!(columns[0].sample_url, Some("see http://x.org/p here".to_string()));
}

#[test]
fn detect_needs_more_than_half_of_the_rows() {
    // 2 rows: threshold is 1, so a column needs 2 URL rows.
    let csv = "A,B\nhttps://a.com/1,https://b.com/1\nnone,https://b.com/2";
    let columns = detect_url_columns(csv).unwrap();
    assert_eq!(columns.len(), 1);
    assert_eq!(columns[0].index, 1);
}

#[test]
fn detect_samples_only_the_first_twenty_records() {
    // Rows 21 and later neither count nor break detection.
    let mut csv = String::from("URL\n");
    for i in 0..20 {
        csv.push_str(&format!("https://example.com/{}\n", i));
    }
    csv.push_str("a,b,c\n");
    let columns = detect_url_columns(&csv).unwrap();
    assert_eq!(columns.len(), 1);
    assert_eq!(columns[0].url_count, 20);
}

#[test]
fn unequal_row_length_is_an_error() {
    let csv = "URL,Status\nhttps://example.com/a,200\nhttps://example.com/b";
    assert!(detect_url_columns(csv).is_err());
    assert!(extract_urls_from_column(csv, 0).is_err());
    assert!(auto_extract_urls(csv).is_err());
}

#[test]
fn extract_takes_the_url_out_of_surrounding_text() {
    let csv = "Notes\n\"see https://example.com/a, then\"\n\"plain\"\n\"http://example.com/b\"\"x\"";
    let urls = extract_urls_from_column(csv, 0).unwrap();
    assert_eq!(urls, vec!["https://example.com/a".to_string(), "http://example.com/b".to_string()]);
}

#[test]
fn extract_from_missing_column_gives_nothing() {
    let csv = "URL\nhttps://example.com/a";
    assert_eq!(extract_urls_from_column(csv, 3).unwrap(), Vec::<String>::new());
}

#[test]
fn auto_extract_without_url_column_gives_nothing() {
    let csv = "Name,Age\nAlice,30";
    assert_eq!(auto_extract_urls(csv).unwrap(), Vec::<String>::new());
}

#[test]
fn columns_with_urls_on_parsed_rows() {
    let headers = vec!["x".to_string(), "y".to_string()];
    let rows = vec![
        vec!["https://a.com".to_string(), "1".to_string()],
        vec!["https://b.com".to_string(), "http://".to_string()],
    ];
    let cols = columns_with_urls(&headers, &rows);
    assert_eq!(cols.len(), 1);
    assert_eq!(cols[0].url_count, 2);
    assert_eq!(cols[0].sample_url, Some("https://a.com".to_string()));
}

#[test]
fn urls_in_column_keeps_first_occurrence_order() {
    let rows = vec![
        vec!["https://b.com".to_string()],
        vec!["https://a.com".to_string()],
        vec!["https://b.com".to_string()],
    ];
    assert_eq!(
        urls_in_column(&rows, 0),
        vec!["https://b.com".to_string(), "https://a.com".to_string()]
    );
}
