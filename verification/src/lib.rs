//! Serp404: finding broken pages among a site's indexed URLs. The library
//! collects URLs (sitemaps, CSV exports), tracks their Google indexation
//! through a search API, audits them over HTTP (status, redirects, title,
//! timing), and reports on the results (statistics, filters, CSV export).
use vstd::prelude::*;

pub mod text;
pub mod models;
pub mod checker;
pub mod csv_import;
pub mod csv_export;
pub mod sitemap;
pub mod registry;
pub mod audit;
pub mod report;
pub mod serper;
pub mod indexation;
pub mod projects;
pub mod collection;

verus! {

} // verus!
