use serp404::serper::{check_search_status, site_query, url_in_results, OrganicResult, SerperResponse};

fn response(links: &[&str]) -> SerperResponse {
    SerperResponse {
        organic: Some(
            links
                .iter()
                .map(|l| OrganicResult { title: "t".to_string(), link: l.to_string(), snippet: None })
                .collect(),
        ),
    }
}

#[test]
fn site_query_prefixes_the_target() {
    assert_eq!(site_query("example.com"), "site:example.com");
    assert_eq!(site_query("https://example.com/page"), "site:https://example.com/page");
}

#[test]
fn search_status_outside_2xx_is_an_error() {
    assert_eq!(check_search_status(200, "200 OK"), Ok(()));
    assert_eq!(check_search_status(299, "299 <unknown status code>"), Ok(()));
    assert_eq!(
        check_search_status(403, "403 Forbidden"),
        Err("Serper API returned status 403 Forbidden".to_string())
    );
    assert_eq!(
        check_search_status(199, "199 <unknown status code>"),
        Err("Serper API returned status 199 <unknown status code>".to_string())
    );
    assert!(check_search_status(301, "301 Moved Permanently").is_err());
}

#[test]
fn url_is_indexed_when_a_link_contains_it_or_is_contained() {
    let url = "https://example.com/page";
    assert!(url_in_results(&response(&["https://example.com/page"]), url));
    assert!(url_in_results(&response(&["https://other.com/", "https://example.com/page?x=1"]), url));
    assert!(url_in_results(&response(&["example.com/page"]), url));
    assert!(!url_in_results(&response(&["https://example.com/other"]), url));
    assert!(!url_in_results(&response(&[]), url));
}

#[test]
fn answer_without_organic_results_lists_nothing() {
    assert!(!url_in_results(&SerperResponse { organic: None }, "https://example.com/"));
}

#[test]
fn empty_link_matches_every_url() {
    assert!(url_in_results(&response(&[""]), "https://example.com/"));
}
