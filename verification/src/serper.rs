//! Google index lookups through the serper.dev search API: the query sent for
//! a site, the answer's status, and whether an answer lists a URL.
use vstd::prelude::*;

use crate::text::{contains_text, has_substring, occurs_at};

verus! {

/// One organic search result.
pub struct OrganicResult {
    pub title: String,
    pub link: String,
    pub snippet: Option<String>,
}

/// The part of a search answer that the lookups read.
pub struct SerperResponse {
    pub organic: Option<Vec<OrganicResult>>,
}

/// The query that lists the pages Google has indexed under `target`.
pub open spec fn spec_site_query(target: Seq<char>) -> Seq<char> {
    "site:"@ + target
}

/// The search query for `target` (a domain or a URL): `site:` and the target.
pub fn site_query(target: &str) -> (q: String)
    ensures
        q@ == spec_site_query(target@),
{
    let mut q = String::from_str("site:");
    q.append(target);
    q
}

/// What a refused search answers: its status, as the HTTP client writes it.
pub open spec fn status_error(status_text: Seq<char>) -> Seq<char> {
    "Serper API returned status "@ + status_text
}

/// Accepts a search answer with a success status (200 to 299); any other
/// status is an error that names the status text.
pub fn check_search_status(status: u16, status_text: &str) -> (res: Result<(), String>)
    ensures
        200 <= status <= 299 ==> res is Ok,
        !(200 <= status <= 299) ==> (res matches Err(e) && e@ == status_error(status_text@)),
{
    if 200 <= status && status <= 299 {
        Ok(())
    } else {
        let mut e = String::from_str("Serper API returned status ");
        e.append(status_text);
        Err(e)
    }
}

/// A result link matches the URL when either one holds the other.
pub open spec fn link_matches(url: Seq<char>, link: Seq<char>) -> bool {
    has_substring(url, link) || has_substring(link, url)
}

/// Whether the answer lists `url`: some organic result's link matches it.
/// An answer without organic results lists nothing.
pub open spec fn lists_url(response: SerperResponse, url: Seq<char>) -> bool {
    match response.organic {
        None => false,
        Some(results) => exists|i: int|
            0 <= i < results@.len() && #[trigger] link_matches(url, results@[i].link@),
    }
}

/// Whether a search answer lists a URL does not depend on where the matching
/// result stands: a result whose link holds the URL, or is held in it,
/// anywhere among the organic results makes the URL indexed (in particular a
/// link equal to the URL); and the URL is indexed only if such a result
/// exists.
pub proof fn law_indexed_iff_some_link_matches(response: SerperResponse, url: Seq<char>)
    ensures
        forall|i: int|
            #![trigger response.organic->0@[i]]
            response.organic is Some && 0 <= i < response.organic->0@.len() && (has_substring(
                url,
                response.organic->0@[i].link@,
            ) || has_substring(response.organic->0@[i].link@, url)) ==> lists_url(response, url),
        forall|i: int|
            #![trigger response.organic->0@[i]]
            response.organic is Some && 0 <= i < response.organic->0@.len()
                && response.organic->0@[i].link@ == url ==> lists_url(response, url),
        lists_url(response, url) ==> (response.organic is Some && exists|i: int|
            0 <= i < response.organic->0@.len() && (has_substring(
                url,
                #[trigger] response.organic->0@[i].link@,
            ) || has_substring(response.organic->0@[i].link@, url))),
        response.organic is None ==> !lists_url(response, url),
{
    assert(url.subrange(0, url.len() as int) =~= url);
    assert(occurs_at(url, 0, url));
    if let Some(results) = response.organic {
        assert forall|i: int|
            #![trigger results@[i]]
            0 <= i < results@.len() && (has_substring(url, results@[i].link@) || has_substring(
                results@[i].link@,
                url,
            )) implies lists_url(response, url) by {
            assert(link_matches(url, results@[i].link@));
        }
        if lists_url(response, url) {
            let i = choose|i: int|
                0 <= i < results@.len() && #[trigger] link_matches(url, results@[i].link@);
            assert(has_substring(url, results@[i].link@) || has_substring(results@[i].link@, url));
        }
    }
}

/// Whether a search answer shows `url` as indexed.
pub fn url_in_results(response: &SerperResponse, url: &str) -> (indexed: bool)
    ensures
        indexed == lists_url(*response, url@),
{
    match &response.organic {
        None => false,
        Some(results) => {
            let mut i: usize = 0;
            while i < results.len()
                invariant
                    i <= results.len(),
                    response.organic == Some(*results),
                    forall|j: int| 0 <= j < i ==> !#[trigger] link_matches(url@, results@[j].link@),
                decreases results.len() - i,
            {
                let link = results[i].link.as_str();
                if contains_text(url, link) || contains_text(link, url) {
                    assert(link_matches(url@, results@[i as int].link@));
                    return true;
                }
                i += 1;
            }
            false
        },
    }
}

} // verus!
