//! The progress reports of a URL collection from a project's sitemap.
use vstd::prelude::*;
use vstd::string::StringExecFns;

use crate::text::{dec_digits, u64_to_decimal};

verus! {

/// A progress report of a collection.
pub struct CollectionProgress {
    pub project_id: String,
    pub source: String,
    pub urls_found: usize,
    pub status: String,
    pub message: Option<String>,
}

/// A report from the sitemap collection of `project_id`.
pub open spec fn sitemap_report(
    p: CollectionProgress,
    project_id: Seq<char>,
    urls_found: nat,
    status: Seq<char>,
    message: Seq<char>,
) -> bool {
    &&& p.project_id@ == project_id
    &&& p.source@ == "sitemap"@
    &&& p.urls_found == urls_found
    &&& p.status@ == status
    &&& p.message matches Some(m) && m@ == message
}

fn report(project_id: &str, urls_found: usize, status: &str, message: String) -> (p:
    CollectionProgress)
    ensures
        sitemap_report(p, project_id@, urls_found as nat, status@, message@),
{
    CollectionProgress {
        project_id: String::from_str(project_id),
        source: String::from_str("sitemap"),
        urls_found,
        status: String::from_str(status),
        message: Some(message),
    }
}

/// The report sent when the sitemap of `domain` is about to be fetched.
pub fn collection_started(project_id: &str, domain: &str) -> (p: CollectionProgress)
    ensures
        sitemap_report(p, project_id@, 0, "running"@, "Fetching sitemap for "@ + domain@),
{
    let mut m = String::from_str("Fetching sitemap for ");
    m.append(domain);
    report(project_id, 0, "running", m)
}

/// The report sent when the collection fails after `urls_found` URLs were
/// stored, with the error's message.
pub fn collection_failed(project_id: &str, urls_found: usize, message: String) -> (p:
    CollectionProgress)
    ensures
        sitemap_report(p, project_id@, urls_found as nat, "error"@, message@),
{
    report(project_id, urls_found, "error", message)
}

/// The message of a failed insertion of a URL.
pub fn insert_error_message(detail: &str) -> (m: String)
    ensures
        m@ == "DB insert error: "@ + detail@,
{
    let mut m = String::from_str("DB insert error: ");
    m.append(detail);
    m
}

/// The report sent when the collection stored `count` new URLs.
pub fn collection_done(project_id: &str, count: usize) -> (p: CollectionProgress)
    ensures
        sitemap_report(
            p,
            project_id@,
            count as nat,
            "done"@,
            "Found "@ + dec_digits(count as nat) + " URLs from sitemap"@,
        ),
{
    let mut m = String::from_str("Found ");
    let digits = u64_to_decimal(count as u64);
    m.append(digits.as_str());
    m.append(" URLs from sitemap");
    report(project_id, count, "done", m)
}

} // verus!
