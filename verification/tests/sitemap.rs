use serp404::sitemap::{is_sitemap_index, parse_sitemap_xml};

#[test]
fn test_parse_urlset() {
    let xml = r#"<?xml version="1.0"?>
        <urlset xmlns="http://www.sitemaps.org/schemas/sitemap/0.9">
            <url><loc>https://example.com/page1</loc></url>
            <url><loc>https://example.com/page2</loc></url>
        </urlset>"#;
    let urls = parse_sitemap_xml(xml).unwrap();
    assert_eq!(urls.len(), 2);
    assert!(urls.contains(&"https://example.com/page1".to_string()));
    assert!(urls.contains(&"https://example.com/page2".to_string()));
}

#[test]
fn test_parse_sitemap_index() {
    let xml = r#"<?xml version="1.0"?>
        <sitemapindex xmlns="http://www.sitemaps.org/schemas/sitemap/0.9">
            <sitemap><loc>https://example.com/sitemap-posts.xml</loc></sitemap>
            <sitemap><loc>https://example.com/sitemap-pages.xml</loc></sitemap>
        </sitemapindex>"#;
    let urls = parse_sitemap_xml(xml).unwrap();
    assert_eq!(urls.len(), 2);
}

#[test]
fn test_parse_empty_sitemap() {
    let xml = r#"<?xml version="1.0"?>
        <urlset xmlns="http://www.sitemaps.org/schemas/sitemap/0.9">
        </urlset>"#;
    let urls = parse_sitemap_xml(xml).unwrap();
    assert!(urls.is_empty());
}

#[test]
fn test_parse_invalid_xml() {
    let xml = "not xml at all";
    let result = parse_sitemap_xml(xml);
    assert!(result.is_ok() || result.is_err());
}

#[test]
fn test_is_sitemap_index_true() {
    let xml = r#"<?xml version="1.0"?>
        <sitemapindex xmlns="http://www.sitemaps.org/schemas/sitemap/0.9">
            <sitemap><loc>https://example.com/sitemap1.xml</loc></sitemap>
        </sitemapindex>"#;
    assert!(is_sitemap_index(xml));
}

#[test]
fn test_is_sitemap_index_false() {
    let xml = r#"<?xml version="1.0"?>
        <urlset xmlns="http://www.sitemaps.org/schemas/sitemap/0.9">
            <url><loc>https://example.com/page1</loc></url>
        </urlset>"#;
    assert!(!is_sitemap_index(xml));
}

#[test]
fn test_parse_loc_with_whitespace() {
    let xml = r#"<?xml version="1.0"?>
        <urlset xmlns="http://www.sitemaps.org/schemas/sitemap/0.9">
            <url>
                <loc>
                    https://example.com/page1
                </loc>
            </url>
        </urlset>"#;
    let urls = parse_sitemap_xml(xml).unwrap();
    assert_eq!(urls.len(), 1);
    assert_eq!(urls[0], "https://example.com/page1");
}

#[test]
fn test_parse_multiple_loc_fields() {
    let xml = r#"<?xml version="1.0"?>
        <urlset xmlns="http://www.sitemaps.org/schemas/sitemap/0.9">
            <url>
                <loc>https://example.com/a</loc>
                <lastmod>2024-01-01</lastmod>
                <changefreq>weekly</changefreq>
                <priority>0.8</priority>
            </url>
            <url>
                <loc>https://example.com/b</loc>
            </url>
            <url>
                <loc>https://example.com/c</loc>
            </url>
        </urlset>"#;
    let urls = parse_sitemap_xml(xml).unwrap();
    assert_eq!(urls.len(), 3);
    assert_eq!(urls[0], "https://example.com/a");
    assert_eq!(urls[1], "https://example.com/b");
    assert_eq!(urls[2], "https://example.com/c");
}

#[test]
fn parse_unescapes_entities_in_loc() {
    let xml = "<urlset><url><loc>https://e.com/?a=1&amp;b=2</loc></url></urlset>";
    assert_eq!(parse_sitemap_xml(xml).unwrap(), vec!["https://e.com/?a=1&b=2".to_string()]);
}

#[test]
fn parse_reports_mismatched_end_tag() {
    let xml = "<urlset><url><loc>https://e.com/a</loc></urlx></urlset>";
    let err = parse_sitemap_xml(xml).unwrap_err();
    assert!(err.starts_with("XML parse error at position "));
}

#[test]
fn parse_reports_unknown_entity_inside_loc() {
    let xml = "<urlset><loc>https://e.com/&bogus;</loc></urlset>";
    let err = parse_sitemap_xml(xml).unwrap_err();
    assert!(err.starts_with("Failed to unescape XML text: "));
}

#[test]
fn text_outside_loc_is_ignored_and_prefixed_loc_counts() {
    let xml = "<urlset><note>https://e.com/x</note><s:loc>https://e.com/y</s:loc></urlset>";
    assert_eq!(parse_sitemap_xml(xml).unwrap(), vec!["https://e.com/y".to_string()]);
}

#[test]
fn sitemap_index_needs_the_index_tag_before_urlset() {
    assert!(!is_sitemap_index("<urlset><sitemapindex/></urlset>"));
    assert!(!is_sitemap_index("plain text"));
}

use serp404::sitemap::{dedup_strings, CrawlAction, SitemapCrawl};

fn index(locs: &[&str]) -> String {
    let mut s = String::from("<?xml version=\"1.0\"?><sitemapindex>");
    for l in locs {
        s.push_str(&format!("<sitemap><loc>{}</loc></sitemap>", l));
    }
    s.push_str("</sitemapindex>");
    s
}

fn urlset(locs: &[&str]) -> String {
    let mut s = String::from("<?xml version=\"1.0\"?><urlset>");
    for l in locs {
        s.push_str(&format!("<url><loc>{}</loc></url>", l));
    }
    s.push_str("</urlset>");
    s
}

fn fetched(a: &CrawlAction) -> String {
    match a {
        CrawlAction::Fetch(u) => u.clone(),
        _ => panic!("expected a fetch"),
    }
}

#[test]
fn dedup_keeps_first_occurrences_in_order() {
    let v: Vec<String> = ["b", "a", "b", "c", "a"].iter().map(|s| s.to_string()).collect();
    assert_eq!(dedup_strings(&v), vec!["b", "a", "c"]);
    assert!(dedup_strings(&vec![]).is_empty());
}

#[test]
fn crawl_follows_an_index_depth_first_and_deduplicates() {
    let (mut crawl, a) = SitemapCrawl::start("example.com");
    assert_eq!(fetched(&a), "https://example.com/sitemap.xml");
    assert!(matches!(crawl.on_status(200, "200 OK"), CrawlAction::ReadBody));
    let a = crawl.on_body(Ok(index(&["https://example.com/s1.xml", "https://example.com/s2.xml", "https://example.com/s3.xml"])));
    assert_eq!(fetched(&a), "https://example.com/s1.xml");
    assert!(matches!(crawl.on_status(200, "200 OK"), CrawlAction::ReadBody));
    let a = crawl.on_body(Ok(urlset(&["https://example.com/a", "https://example.com/b"])));
    assert_eq!(fetched(&a), "https://example.com/s2.xml");
    let a = crawl.on_status(404, "404 Not Found");
    assert_eq!(fetched(&a), "https://example.com/s3.xml");
    assert!(matches!(crawl.on_status(204, "204 No Content"), CrawlAction::ReadBody));
    match crawl.on_body(Ok(urlset(&["https://example.com/b", "https://example.com/c"]))) {
        CrawlAction::Done(Ok(urls)) => assert_eq!(
            urls,
            vec!["https://example.com/a", "https://example.com/b", "https://example.com/c"]
        ),
        _ => panic!("expected the URLs"),
    }
}

#[test]
fn crawl_of_missing_root_sitemap_gives_no_urls() {
    let (mut crawl, _) = SitemapCrawl::start("example.com");
    match crawl.on_status(404, "404 Not Found") {
        CrawlAction::Done(Ok(urls)) => assert!(urls.is_empty()),
        _ => panic!("expected an empty result"),
    }
}

#[test]
fn crawl_stops_three_levels_down() {
    let (mut crawl, _) = SitemapCrawl::start("d.com");
    let _ = crawl.on_status(200, "200 OK");
    let a = crawl.on_body(Ok(index(&["https://d.com/l2.xml"])));
    assert_eq!(fetched(&a), "https://d.com/l2.xml");
    let _ = crawl.on_status(200, "200 OK");
    let a = crawl.on_body(Ok(index(&["https://d.com/l3.xml"])));
    assert_eq!(fetched(&a), "https://d.com/l3.xml");
    let _ = crawl.on_status(200, "200 OK");
    match crawl.on_body(Ok(index(&["https://d.com/l4.xml"]))) {
        CrawlAction::Done(Ok(urls)) => assert!(urls.is_empty()),
        _ => panic!("the fourth level is not fetched"),
    }
}

#[test]
fn crawl_errors_name_the_sitemap() {
    let (mut crawl, _) = SitemapCrawl::start("d.com");
    match crawl.on_status(500, "500 Internal Server Error") {
        CrawlAction::Done(Err(e)) => {
            assert_eq!(e, "HTTP 500 Internal Server Error when fetching https://d.com/sitemap.xml")
        }
        _ => panic!("expected an error"),
    }
    let (mut crawl, _) = SitemapCrawl::start("d.com");
    match crawl.on_request_error("timed out") {
        CrawlAction::Done(Err(e)) => assert_eq!(e, "Failed to fetch https://d.com/sitemap.xml: timed out"),
        _ => panic!("expected an error"),
    }
    let (mut crawl, _) = SitemapCrawl::start("d.com");
    let _ = crawl.on_status(200, "200 OK");
    match crawl.on_body(Err("connection reset".to_string())) {
        CrawlAction::Done(Err(e)) => {
            assert_eq!(e, "Failed to read response body from https://d.com/sitemap.xml: connection reset")
        }
        _ => panic!("expected an error"),
    }
    let (mut crawl, _) = SitemapCrawl::start("d.com");
    let _ = crawl.on_status(200, "200 OK");
    match crawl.on_body(Ok("<urlset><loc>x</loc></bad></urlset>".to_string())) {
        CrawlAction::Done(Err(e)) => assert!(e.starts_with("XML parse error at position ")),
        _ => panic!("expected a parse error"),
    }
}
