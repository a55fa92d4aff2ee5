//! Reports over a project's URLs: the statistics, the result filters, the
//! CSV export, the list of checked URLs, and the URLs each run works on.
use vstd::prelude::*;
use vstd::string::StringExecFns;

use crate::csv_export::{csv_document, write_csv};
use crate::models::UrlEntry;
use crate::text::{chars_of, dec_int, i64_to_decimal, lemma_text_lt_asymmetric, text_less, text_lt};

verus! {

broadcast use vstd::seq_lib::group_seq_properties;

// ---------------------------------------------------------------------------
// Row predicates
// ---------------------------------------------------------------------------

/// The row's status lies in `lo..hi`; a missing status lies nowhere.
pub open spec fn status_in(e: UrlEntry, lo: int, hi: int) -> bool {
    e.http_status matches Some(s) && lo <= s < hi
}

pub open spec fn has_status(e: UrlEntry, code: int) -> bool {
    e.http_status matches Some(s) && s == code
}

/// No title, or an empty one.
pub open spec fn title_blank(e: UrlEntry) -> bool {
    e.title matches Some(t) ==> t@.len() == 0
}

/// A response slower than 2000 ms.
pub open spec fn is_slow(e: UrlEntry) -> bool {
    e.response_time_ms matches Some(t) && t > 2000
}

/// An error, or a status at or above `floor`.
pub open spec fn is_error(e: UrlEntry, floor: int) -> bool {
    (e.http_status matches Some(s) && s >= floor) || e.error is Some
}

/// The filters that reports offer.
pub enum ReportFilter {
    All,
    NotFound,
    Redirects,
    EmptyTitle,
    Slow,
    Errors,
}

/// The filter a request names: `404`, `redirects`, `empty_title`, `slow` or
/// `errors`; anything else, or none, keeps every row.
pub open spec fn spec_filter(f: Option<Seq<char>>) -> ReportFilter {
    match f {
        Some(name) => if name == "404"@ {
            ReportFilter::NotFound
        } else if name == "redirects"@ {
            ReportFilter::Redirects
        } else if name == "empty_title"@ {
            ReportFilter::EmptyTitle
        } else if name == "slow"@ {
            ReportFilter::Slow
        } else if name == "errors"@ {
            ReportFilter::Errors
        } else {
            ReportFilter::All
        },
        None => ReportFilter::All,
    }
}

/// Whether a filter keeps a row; `error_floor` is the status from which a
/// response counts as an error.
pub open spec fn keeps(f: ReportFilter, e: UrlEntry, error_floor: int) -> bool {
    match f {
        ReportFilter::All => true,
        ReportFilter::NotFound => has_status(e, 404),
        ReportFilter::Redirects => status_in(e, 300, 400),
        ReportFilter::EmptyTitle => title_blank(e) && has_status(e, 200),
        ReportFilter::Slow => is_slow(e),
        ReportFilter::Errors => is_error(e, error_floor),
    }
}

/// The filter that a request names.
pub fn parse_filter(filter: Option<&str>) -> (f: ReportFilter)
    ensures
        f == spec_filter(filter.deep_view()),
{
    match filter {
        Some(name) => {
            let n = String::from_str(name);
            if n == String::from_str("404") {
                ReportFilter::NotFound
            } else if n == String::from_str("redirects") {
                ReportFilter::Redirects
            } else if n == String::from_str("empty_title") {
                ReportFilter::EmptyTitle
            } else if n == String::from_str("slow") {
                ReportFilter::Slow
            } else if n == String::from_str("errors") {
                ReportFilter::Errors
            } else {
                ReportFilter::All
            }
        },
        None => ReportFilter::All,
    }
}

fn status_in_exec(e: &UrlEntry, lo: i32, hi: i32) -> (b: bool)
    ensures
        b == status_in(*e, lo as int, hi as int),
{
    match e.http_status {
        Some(s) => lo <= s && s < hi,
        None => false,
    }
}

fn has_status_exec(e: &UrlEntry, code: i32) -> (b: bool)
    ensures
        b == has_status(*e, code as int),
{
    match e.http_status {
        Some(s) => s == code,
        None => false,
    }
}

fn title_blank_exec(e: &UrlEntry) -> (b: bool)
    ensures
        b == title_blank(*e),
{
    match &e.title {
        Some(t) => t.as_str().is_empty(),
        None => true,
    }
}

fn is_slow_exec(e: &UrlEntry) -> (b: bool)
    ensures
        b == is_slow(*e),
{
    match e.response_time_ms {
        Some(t) => t > 2000,
        None => false,
    }
}

fn is_error_exec(e: &UrlEntry, floor: i32) -> (b: bool)
    ensures
        b == is_error(*e, floor as int),
{
    let by_status = match e.http_status {
        Some(s) => s >= floor,
        None => false,
    };
    by_status || e.error.is_some()
}

/// Whether `f` keeps the row.
pub fn keeps_row(f: &ReportFilter, e: &UrlEntry, error_floor: i32) -> (b: bool)
    ensures
        b == keeps(*f, *e, error_floor as int),
{
    match f {
        ReportFilter::All => true,
        ReportFilter::NotFound => has_status_exec(e, 404),
        ReportFilter::Redirects => status_in_exec(e, 300, 400),
        ReportFilter::EmptyTitle => title_blank_exec(e) && has_status_exec(e, 200),
        ReportFilter::Slow => is_slow_exec(e),
        ReportFilter::Errors => is_error_exec(e, error_floor),
    }
}

// ---------------------------------------------------------------------------
// Statistics
// ---------------------------------------------------------------------------

/// The indexation status of the row is `status`.
pub open spec fn indexed_as(e: UrlEntry, status: Seq<char>) -> bool {
    e.indexed_status@ == status
}

/// Counts of a project's URLs.
pub struct ProjectStats {
    pub total_urls: usize,
    pub confirmed_indexed: usize,
    pub not_indexed: usize,
    pub unknown_status: usize,
    pub checked: usize,
    pub ok_count: usize,
    pub redirect_count: usize,
    pub not_found_count: usize,
    pub error_count: usize,
    pub empty_title_count: usize,
    pub slow_count: usize,
}

/// The statistics of a project's rows: each field counts the rows that
/// satisfy its condition (errors: a status of 400 or more, or an error).
pub open spec fn stats_of(rows: Seq<UrlEntry>, s: ProjectStats) -> bool {
    &&& s.total_urls == rows.len()
    &&& s.confirmed_indexed == rows.filter(|e: UrlEntry| indexed_as(e, "confirmed"@)).len()
    &&& s.not_indexed == rows.filter(|e: UrlEntry| indexed_as(e, "not_indexed"@)).len()
    &&& s.unknown_status == rows.filter(|e: UrlEntry| indexed_as(e, "unknown"@)).len()
    &&& s.checked == rows.filter(|e: UrlEntry| e.checked_at is Some).len()
    &&& s.ok_count == rows.filter(|e: UrlEntry| status_in(e, 200, 300)).len()
    &&& s.redirect_count == rows.filter(|e: UrlEntry| status_in(e, 300, 400)).len()
    &&& s.not_found_count == rows.filter(|e: UrlEntry| has_status(e, 404)).len()
    &&& s.error_count == rows.filter(|e: UrlEntry| is_error(e, 400)).len()
    &&& s.empty_title_count == rows.filter(
        |e: UrlEntry| title_blank(e) && has_status(e, 200),
    ).len()
    &&& s.slow_count == rows.filter(|e: UrlEntry| is_slow(e)).len()
}

pub(crate) proof fn lemma_count_step(rows: Seq<UrlEntry>, i: int, p: spec_fn(UrlEntry) -> bool)
    requires
        0 <= i < rows.len(),
    ensures
        rows.take(i + 1).filter(p).len() == rows.take(i).filter(p).len() + if p(rows[i]) {
            1int
        } else {
            0int
        },
        rows.take(i).filter(p).len() <= i,
{
    assert(rows.take(i + 1) =~= rows.take(i).push(rows[i]));
    rows.take(i).lemma_filter_push(rows[i], p);
    rows.take(i).lemma_filter_len(p);
}

pub(crate) fn bump(c: usize, b: bool, bound: usize) -> (r: usize)
    requires
        c <= bound,
        bound < usize::MAX,
    ensures
        r == c + if b {
            1int
        } else {
            0int
        },
{
    if b {
        c + 1
    } else {
        c
    }
}

proof fn lemma_filter_implies(rows: Seq<UrlEntry>, p: spec_fn(UrlEntry) -> bool, q: spec_fn(UrlEntry) -> bool)
    requires
        forall|e: UrlEntry| #[trigger] p(e) ==> q(e),
    ensures
        rows.filter(p).len() <= rows.filter(q).len(),
        rows.filter(q).len() <= rows.len(),
    decreases rows.len(),
{
    if rows.len() > 0 {
        let init = rows.drop_last();
        lemma_filter_implies(init, p, q);
        assert(rows =~= init.push(rows.last()));
        init.lemma_filter_len_push(p, rows.last());
        init.lemma_filter_len_push(q, rows.last());
    }
}

proof fn lemma_filter_disjoint3(
    rows: Seq<UrlEntry>,
    p: spec_fn(UrlEntry) -> bool,
    q: spec_fn(UrlEntry) -> bool,
    r: spec_fn(UrlEntry) -> bool,
)
    requires
        forall|e: UrlEntry| #[trigger] p(e) ==> !q(e) && !r(e),
        forall|e: UrlEntry| #[trigger] q(e) ==> !r(e),
    ensures
        rows.filter(p).len() + rows.filter(q).len() + rows.filter(r).len() <= rows.len(),
    decreases rows.len(),
{
    if rows.len() > 0 {
        let init = rows.drop_last();
        lemma_filter_disjoint3(init, p, q, r);
        assert(rows =~= init.push(rows.last()));
        init.lemma_filter_len_push(p, rows.last());
        init.lemma_filter_len_push(q, rows.last());
        init.lemma_filter_len_push(r, rows.last());
    }
}

/// No count of the statistics exceeds the number of URLs; a URL has one
/// indexation status, so those three counts add up to at most the total;
/// and every 404 is also counted as an error.
pub proof fn law_stats_consistent(rows: Seq<UrlEntry>, s: ProjectStats)
    requires
        stats_of(rows, s),
    ensures
        s.confirmed_indexed + s.not_indexed + s.unknown_status <= s.total_urls,
        s.checked <= s.total_urls,
        s.ok_count <= s.total_urls,
        s.redirect_count <= s.total_urls,
        s.error_count <= s.total_urls,
        s.empty_title_count <= s.total_urls,
        s.slow_count <= s.total_urls,
        s.not_found_count <= s.error_count,
{
    let t = |e: UrlEntry| true;
    reveal_strlit("confirmed");
    reveal_strlit("not_indexed");
    reveal_strlit("unknown");
    assert("confirmed"@.len() != "not_indexed"@.len());
    assert("confirmed"@.len() != "unknown"@.len());
    assert("not_indexed"@.len() != "unknown"@.len());
    lemma_filter_disjoint3(
        rows,
        |e: UrlEntry| indexed_as(e, "confirmed"@),
        |e: UrlEntry| indexed_as(e, "not_indexed"@),
        |e: UrlEntry| indexed_as(e, "unknown"@),
    );
    lemma_filter_implies(rows, |e: UrlEntry| e.checked_at is Some, t);
    lemma_filter_implies(rows, |e: UrlEntry| status_in(e, 200, 300), t);
    lemma_filter_implies(rows, |e: UrlEntry| status_in(e, 300, 400), t);
    lemma_filter_implies(rows, |e: UrlEntry| title_blank(e) && has_status(e, 200), t);
    lemma_filter_implies(rows, |e: UrlEntry| is_slow(e), t);
    lemma_filter_implies(rows, |e: UrlEntry| has_status(e, 404), |e: UrlEntry| is_error(e, 400));
    lemma_filter_implies(rows, |e: UrlEntry| is_error(e, 400), t);
}

/// The errors filter keeps a row exactly when it has an error, whatever its
/// status (a failed request, a redirect loop), or a status at or above the
/// floor; `errors` names that filter.
pub proof fn law_errors_filter(e: UrlEntry, floor: int)
    ensures
        e.error is Some ==> keeps(ReportFilter::Errors, e, floor),
        (e.http_status matches Some(s) && s >= floor) ==> keeps(ReportFilter::Errors, e, floor),
        keeps(ReportFilter::Errors, e, floor) ==> e.error is Some || (e.http_status matches Some(
            s,
        ) && s >= floor),
        spec_filter(Some("errors"@)) == ReportFilter::Errors,
{
    reveal_strlit("errors");
    reveal_strlit("404");
    reveal_strlit("redirects");
    reveal_strlit("empty_title");
    reveal_strlit("slow");
    assert("errors"@.len() != "404"@.len());
    assert("errors"@.len() != "redirects"@.len());
    assert("errors"@.len() != "empty_title"@.len());
    assert("errors"@ != "slow"@) by {
        assert("errors"@[0] != "slow"@[0]);
    }
}

/// The statistics count as an error every row that has one, whatever its
/// status, and every row with a status of 400 or more.
pub proof fn law_stats_count_every_error(rows: Seq<UrlEntry>, s: ProjectStats)
    requires
        stats_of(rows, s),
    ensures
        rows.filter(|e: UrlEntry| e.error is Some).len() <= s.error_count,
        rows.filter(|e: UrlEntry| e.http_status matches Some(x) && x >= 400).len() <= s.error_count,
{
    lemma_filter_implies(rows, |e: UrlEntry| e.error is Some, |e: UrlEntry| is_error(e, 400));
    lemma_filter_implies(
        rows,
        |e: UrlEntry| e.http_status matches Some(x) && x >= 400,
        |e: UrlEntry| is_error(e, 400),
    );
}

/// The statistics of a project's rows.
pub fn project_stats(rows: &Vec<UrlEntry>) -> (s: ProjectStats)
    ensures
        stats_of(rows@, s),
{
    let confirmed = String::from_str("confirmed");
    let not_indexed = String::from_str("not_indexed");
    let unknown = String::from_str("unknown");
    let ghost r = rows@;
    let ghost p1 = |e: UrlEntry| indexed_as(e, "confirmed"@);
    let ghost p2 = |e: UrlEntry| indexed_as(e, "not_indexed"@);
    let ghost p3 = |e: UrlEntry| indexed_as(e, "unknown"@);
    let ghost p4 = |e: UrlEntry| e.checked_at is Some;
    let ghost p5 = |e: UrlEntry| status_in(e, 200, 300);
    let ghost p6 = |e: UrlEntry| status_in(e, 300, 400);
    let ghost p7 = |e: UrlEntry| has_status(e, 404);
    let ghost p8 = |e: UrlEntry| is_error(e, 400);
    let ghost p9 = |e: UrlEntry| title_blank(e) && has_status(e, 200);
    let ghost p10 = |e: UrlEntry| is_slow(e);
    let mut s = ProjectStats {
        total_urls: rows.len(),
        confirmed_indexed: 0,
        not_indexed: 0,
        unknown_status: 0,
        checked: 0,
        ok_count: 0,
        redirect_count: 0,
        not_found_count: 0,
        error_count: 0,
        empty_title_count: 0,
        slow_count: 0,
    };
    let mut i: usize = 0;
    while i < rows.len()
        invariant
            i <= rows.len(),
            r == rows@,
            confirmed@ == "confirmed"@,
            not_indexed@ == "not_indexed"@,
            unknown@ == "unknown"@,
            s.total_urls == rows.len(),
            p1 == |e: UrlEntry| indexed_as(e, "confirmed"@),
            p2 == |e: UrlEntry| indexed_as(e, "not_indexed"@),
            p3 == |e: UrlEntry| indexed_as(e, "unknown"@),
            p4 == |e: UrlEntry| e.checked_at is Some,
            p5 == |e: UrlEntry| status_in(e, 200, 300),
            p6 == |e: UrlEntry| status_in(e, 300, 400),
            p7 == |e: UrlEntry| has_status(e, 404),
            p8 == |e: UrlEntry| is_error(e, 400),
            p9 == |e: UrlEntry| title_blank(e) && has_status(e, 200),
            p10 == |e: UrlEntry| is_slow(e),
            s.confirmed_indexed == r.take(i as int).filter(p1).len(),
            s.not_indexed == r.take(i as int).filter(p2).len(),
            s.unknown_status == r.take(i as int).filter(p3).len(),
            s.checked == r.take(i as int).filter(p4).len(),
            s.ok_count == r.take(i as int).filter(p5).len(),
            s.redirect_count == r.take(i as int).filter(p6).len(),
            s.not_found_count == r.take(i as int).filter(p7).len(),
            s.error_count == r.take(i as int).filter(p8).len(),
            s.empty_title_count == r.take(i as int).filter(p9).len(),
            s.slow_count == r.take(i as int).filter(p10).len(),
        decreases rows.len() - i,
    {
        let e = &rows[i];
        proof {
            lemma_count_step(r, i as int, p1);
            lemma_count_step(r, i as int, p2);
            lemma_count_step(r, i as int, p3);
            lemma_count_step(r, i as int, p4);
            lemma_count_step(r, i as int, p5);
            lemma_count_step(r, i as int, p6);
            lemma_count_step(r, i as int, p7);
            lemma_count_step(r, i as int, p8);
            lemma_count_step(r, i as int, p9);
            lemma_count_step(r, i as int, p10);
        }
        s.confirmed_indexed = bump(s.confirmed_indexed, e.indexed_status == confirmed, i);
        s.not_indexed = bump(s.not_indexed, e.indexed_status == not_indexed, i);
        s.unknown_status = bump(s.unknown_status, e.indexed_status == unknown, i);
        s.checked = bump(s.checked, e.checked_at.is_some(), i);
        s.ok_count = bump(s.ok_count, status_in_exec(e, 200, 300), i);
        s.redirect_count = bump(s.redirect_count, status_in_exec(e, 300, 400), i);
        s.not_found_count = bump(s.not_found_count, has_status_exec(e, 404), i);
        s.error_count = bump(s.error_count, is_error_exec(e, 400), i);
        s.empty_title_count = bump(
            s.empty_title_count,
            title_blank_exec(e) && has_status_exec(e, 200),
            i,
        );
        s.slow_count = bump(s.slow_count, is_slow_exec(e), i);
        i += 1;
    }
    assert(r.take(rows.len() as int) =~= r);
    s
}

// ---------------------------------------------------------------------------
// CSV export
// ---------------------------------------------------------------------------

/// The header row of the export.
pub open spec fn export_header() -> Seq<Seq<char>> {
    seq![
        "URL"@,
        "Source"@,
        "Indexed"@,
        "HTTP Status"@,
        "Response Time (ms)"@,
        "Title"@,
        "Redirect Chain"@,
        "Error"@,
    ]
}

pub open spec fn opt_text(o: Option<String>) -> Seq<char> {
    match o {
        Some(s) => s@,
        None => Seq::empty(),
    }
}

/// The export row of a URL: its fields, numbers in decimal, missing values
/// empty.
pub open spec fn export_record(e: UrlEntry) -> Seq<Seq<char>> {
    seq![
        e.url@,
        e.source@,
        e.indexed_status@,
        match e.http_status {
            Some(n) => dec_int(n as int),
            None => Seq::empty(),
        },
        match e.response_time_ms {
            Some(n) => dec_int(n as int),
            None => Seq::empty(),
        },
        opt_text(e.title),
        opt_text(e.redirect_chain),
        opt_text(e.error),
    ]
}

/// The records of an export: the header, then the rows the filter keeps
/// (errors from status 400), in the order given.
pub open spec fn export_records(rows: Seq<UrlEntry>, f: ReportFilter) -> Seq<Seq<Seq<char>>> {
    seq![export_header()] + rows.filter(|e: UrlEntry| keeps(f, e, 400)).map_values(
        |e: UrlEntry| export_record(e),
    )
}

fn opt_text_exec(o: &Option<String>) -> (s: String)
    ensures
        s@ == opt_text(*o),
{
    match o {
        Some(t) => t.clone(),
        None => String::new(),
    }
}

fn export_record_exec(e: &UrlEntry) -> (r: Vec<String>)
    ensures
        r.deep_view() == export_record(*e),
        r.len() == 8,
{
    let status = match e.http_status {
        Some(n) => i64_to_decimal(n as i64),
        None => String::new(),
    };
    let time = match e.response_time_ms {
        Some(n) => i64_to_decimal(n),
        None => String::new(),
    };
    let r = vec![
        e.url.clone(),
        e.source.clone(),
        e.indexed_status.clone(),
        status,
        time,
        opt_text_exec(&e.title),
        opt_text_exec(&e.redirect_chain),
        opt_text_exec(&e.error),
    ];
    assert(r.deep_view() =~= export_record(*e));
    r
}

/// The CSV export of a project's rows under a filter (`404`, `redirects`,
/// `empty_title`, `slow`, `errors`; anything else keeps every row): the
/// header and one record per kept row, in the order given.
pub fn export_csv(rows: &Vec<UrlEntry>, filter: Option<&str>) -> (text: String)
    ensures
        text@ == csv_document(export_records(rows@, spec_filter(filter.deep_view()))),
{
    let f = parse_filter(filter);
    let ghost keep = |e: UrlEntry| keeps(f, e, 400);
    let ghost to_record = |e: UrlEntry| export_record(e);
    let header = vec![
        String::from_str("URL"),
        String::from_str("Source"),
        String::from_str("Indexed"),
        String::from_str("HTTP Status"),
        String::from_str("Response Time (ms)"),
        String::from_str("Title"),
        String::from_str("Redirect Chain"),
        String::from_str("Error"),
    ];
    assert(header.deep_view() =~= export_header());
    let mut records: Vec<Vec<String>> = vec![header];
    let ghost r = rows@;
    let mut i: usize = 0;
    assert(records.deep_view() =~= seq![export_header()] + r.take(0).filter(keep).map_values(
        to_record,
    ));
    while i < rows.len()
        invariant
            i <= rows.len(),
            r == rows@,
            f == spec_filter(filter.deep_view()),
            keep == |e: UrlEntry| keeps(f, e, 400),
            to_record == |e: UrlEntry| export_record(e),
            records.deep_view() == seq![export_header()] + r.take(i as int).filter(
                keep,
            ).map_values(to_record),
            forall|k: int| 0 <= k < records.len() ==> #[trigger] records@[k].len() == 8,
        decreases rows.len() - i,
    {
        assert(r.take(i + 1) =~= r.take(i as int).push(r[i as int]));
        proof {
            r.take(i as int).lemma_filter_push(r[i as int], keep);
        }
        if keeps_row(&f, &rows[i], 400) {
            let rec = export_record_exec(&rows[i]);
            let ghost old_records = records.deep_view();
            records.push(rec);
            assert(records.deep_view() =~= old_records.push(export_record(r[i as int])));
            assert(r.take(i as int).filter(keep).push(r[i as int]).map_values(to_record)
                =~= r.take(i as int).filter(keep).map_values(to_record).push(
                export_record(r[i as int]),
            ));
        }
        i += 1;
    }
    assert(r.take(rows.len() as int) =~= r);
    write_csv(&records)
}

// ---------------------------------------------------------------------------
// Checked URLs, newest first
// ---------------------------------------------------------------------------

/// A checked row that the filter keeps (errors from status 500).
pub open spec fn checked_keeps(f: ReportFilter, e: UrlEntry) -> bool {
    e.checked_at is Some && keeps(f, e, 500)
}

/// The check time of a row; an unchecked row has the empty text.
pub open spec fn checked_key(e: UrlEntry) -> Seq<char> {
    opt_text(e.checked_at)
}

/// Rows ordered by check time, newest first.
pub open spec fn newest_first(rows: Seq<UrlEntry>) -> bool {
    forall|k: int|
        0 <= k < rows.len() - 1 ==> !text_lt(checked_key(#[trigger] rows[k]), checked_key(rows[k + 1]))
}

/// The checked rows of a project that the filter keeps (errors from status
/// 500 here), newest check first. Rows checked at the same time come in no
/// particular order.
pub fn checked_urls(rows: &Vec<UrlEntry>, filter: Option<&str>) -> (out: Vec<UrlEntry>)
    ensures
        out@.to_multiset() == rows@.filter(
            |e: UrlEntry| checked_keeps(spec_filter(filter.deep_view()), e),
        ).to_multiset(),
        newest_first(out@),
{
    let f = parse_filter(filter);
    let ghost keep = |e: UrlEntry| checked_keeps(f, e);
    let ghost r = rows@;
    let mut out: Vec<UrlEntry> = Vec::new();
    let mut keys: Vec<Vec<char>> = Vec::new();
    let mut i: usize = 0;
    assert(r.take(0).filter(keep) =~= Seq::<UrlEntry>::empty());
    while i < rows.len()
        invariant
            i <= rows.len(),
            r == rows@,
            f == spec_filter(filter.deep_view()),
            keep == |e: UrlEntry| checked_keeps(f, e),
            out.len() == keys.len(),
            forall|k: int| 0 <= k < keys.len() ==> #[trigger] keys@[k]@ == checked_key(out@[k]),
            newest_first(out@),
            out@.to_multiset() == r.take(i as int).filter(keep).to_multiset(),
        decreases rows.len() - i,
    {
        assert(r.take(i + 1) =~= r.take(i as int).push(r[i as int]));
        proof {
            r.take(i as int).lemma_filter_push(r[i as int], keep);
        }
        let e = &rows[i];
        if e.checked_at.is_some() && keeps_row(&f, e, 500) {
            let key = match &e.checked_at {
                Some(c) => chars_of(c.as_str()),
                None => Vec::new(),
            };
            assert(key@ == checked_key(*e));
            let mut p: usize = 0;
            while p < out.len() && !text_less(&keys[p], &key)
                invariant
                    p <= out.len(),
                    out.len() == keys.len(),
                    forall|k: int|
                        0 <= k < keys.len() ==> #[trigger] keys@[k]@ == checked_key(out@[k]),
                    forall|k: int| 0 <= k < p ==> !text_lt(checked_key(#[trigger] out@[k]), key@),
                decreases out.len() - p,
            {
                p += 1;
            }
            proof {
                if p < out.len() {
                    lemma_text_lt_asymmetric(checked_key(out@[p as int]), key@);
                }
            }
            let ghost old_out = out@;
            let ghost old_keys = keys@;
            out.insert(p, e.clone());
            keys.insert(p, key);
            proof {
                vstd::seq_lib::to_multiset_insert(old_out, p as int, r[i as int]);
                vstd::seq_lib::to_multiset_build(r.take(i as int).filter(keep), r[i as int]);
                assert forall|k: int| 0 <= k < keys.len() implies #[trigger] keys@[k]@
                    == checked_key(out@[k]) by {
                    if k < p {
                        assert(keys@[k] == old_keys[k]);
                    } else if k > p {
                        assert(keys@[k] == old_keys[k - 1]);
                    }
                }
                assert forall|k: int| 0 <= k < out@.len() - 1 implies !text_lt(
                    checked_key(#[trigger] out@[k]),
                    checked_key(out@[k + 1]),
                ) by {
                    if k + 1 < p {
                        assert(out@[k] == old_out[k]);
                        assert(out@[k + 1] == old_out[k + 1]);
                    } else if k + 1 == p {
                        assert(out@[k] == old_out[k]);
                    } else if k == p {
                        assert(out@[k + 1] == old_out[k]);
                    } else {
                        assert(out@[k] == old_out[k - 1]);
                        assert(out@[k + 1] == old_out[k]);
                    }
                }
            }
        }
        i += 1;
    }
    assert(r.take(rows.len() as int) =~= r);
    out
}

// ---------------------------------------------------------------------------
// What each run works on
// ---------------------------------------------------------------------------

/// A row whose indexation is still unknown.
pub open spec fn awaits_indexation(e: UrlEntry) -> bool {
    indexed_as(e, "unknown"@)
}

/// A row confirmed as indexed and not audited yet.
pub open spec fn awaits_audit(e: UrlEntry) -> bool {
    indexed_as(e, "confirmed"@) && e.checked_at is None
}

/// The number of a project's URLs whose indexation is unknown.
pub fn unverified_count(rows: &Vec<UrlEntry>) -> (n: usize)
    ensures
        n == rows@.filter(|e: UrlEntry| awaits_indexation(e)).len(),
{
    let unknown = String::from_str("unknown");
    let ghost r = rows@;
    let ghost p = |e: UrlEntry| awaits_indexation(e);
    let mut n: usize = 0;
    let mut i: usize = 0;
    while i < rows.len()
        invariant
            i <= rows.len(),
            r == rows@,
            unknown@ == "unknown"@,
            p == |e: UrlEntry| awaits_indexation(e),
            n == r.take(i as int).filter(p).len(),
        decreases rows.len() - i,
    {
        proof {
            lemma_count_step(r, i as int, p);
        }
        n = bump(n, rows[i].indexed_status == unknown, i);
        i += 1;
    }
    assert(r.take(rows.len() as int) =~= r);
    n
}

/// The id and URL of each row.
pub open spec fn id_and_url(e: UrlEntry) -> (Seq<char>, Seq<char>) {
    (e.id@, e.url@)
}

/// Whether a row is one that a run works on: audit runs take rows confirmed as
/// indexed and not checked yet; indexation runs take rows whose indexation is
/// unknown.
pub open spec fn selected(audit: bool, e: UrlEntry) -> bool {
    if audit {
        awaits_audit(e)
    } else {
        awaits_indexation(e)
    }
}

/// The id and URL of each row a run works on, in the order given.
pub open spec fn selection(rows: Seq<UrlEntry>, audit: bool) -> Seq<(Seq<char>, Seq<char>)> {
    rows.filter(|e: UrlEntry| selected(audit, e)).map_values(|e: UrlEntry| id_and_url(e))
}

fn select_rows(rows: &Vec<UrlEntry>, audit: bool) -> (out: Vec<(String, String)>)
    ensures
        out.deep_view() == selection(rows@, audit),
{
    let wanted = if audit {
        String::from_str("confirmed")
    } else {
        String::from_str("unknown")
    };
    let ghost p = |e: UrlEntry| selected(audit, e);
    let ghost m = |e: UrlEntry| id_and_url(e);
    let ghost r = rows@;
    let mut out: Vec<(String, String)> = Vec::new();
    let mut i: usize = 0;
    assert(out.deep_view() =~= r.take(0).filter(p).map_values(m));
    while i < rows.len()
        invariant
            i <= rows.len(),
            r == rows@,
            wanted@ == if audit {
                "confirmed"@
            } else {
                "unknown"@
            },
            p == |e: UrlEntry| selected(audit, e),
            m == |e: UrlEntry| id_and_url(e),
            out.deep_view() == r.take(i as int).filter(p).map_values(m),
        decreases rows.len() - i,
    {
        assert(r.take(i + 1) =~= r.take(i as int).push(r[i as int]));
        proof {
            r.take(i as int).lemma_filter_push(r[i as int], p);
        }
        let e = &rows[i];
        let chosen = e.indexed_status == wanted && (!audit || e.checked_at.is_none());
        if chosen {
            let ghost old_out = out.deep_view();
            out.push((e.id.clone(), e.url.clone()));
            assert(out.deep_view() =~= old_out.push(id_and_url(*e)));
            assert(r.take(i as int).filter(p).push(r[i as int]).map_values(m) =~= r.take(
                i as int,
            ).filter(p).map_values(m).push(id_and_url(r[i as int])));
        }
        i += 1;
    }
    assert(r.take(rows.len() as int) =~= r);
    out
}

/// The id and URL of each row to verify for indexation (status unknown), in
/// the order given.
pub fn urls_to_verify(rows: &Vec<UrlEntry>) -> (out: Vec<(String, String)>)
    ensures
        out.deep_view() == selection(rows@, false),
{
    select_rows(rows, false)
}

/// The id and URL of each row to audit (confirmed as indexed, not checked
/// yet), in the order given.
pub fn urls_to_audit(rows: &Vec<UrlEntry>) -> (out: Vec<(String, String)>)
    ensures
        out.deep_view() == selection(rows@, true),
{
    select_rows(rows, true)
}

} // verus!
