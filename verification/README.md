# serp404

Finds broken pages among a site's indexed URLs: collects the URLs of a
project (sitemaps, CSV exports), checks their Google indexation through the
serper.dev search API, audits them over HTTP (status, redirects, title,
response time) and reports on the results.

- `src/` is the library, verified with Verus: the parsers (sitemap XML, CSV
  columns, page titles), the decisions of the sitemap crawl, the redirect
  walk, the audit and indexation runs, the per-project control registry, and
  the reports (statistics, filters, CSV export, URL lists). Calls into the
  `csv`, `quick-xml`, `regex`, `url` and `serde_json` crates go through small
  trusted wrappers whose contracts are stated next to them.
- `tests/` runs the library on concrete inputs.
- `app/` is the desktop application around it: Tauri commands, the SQLite
  store and the HTTP requests. It performs the I/O that the library asks for
  and hands the library plain values.
