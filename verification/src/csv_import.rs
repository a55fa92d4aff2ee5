//! CSV import: find the columns of an uploaded CSV export (Screaming Frog,
//! Ahrefs, SEMrush, ...) that hold URLs, and pull the URLs out of a column.
use vstd::prelude::*;

use crate::text::is_ws;

verus! {

/// A CSV column that holds URLs in more than half of the sampled rows.
pub struct CsvColumn {
    pub index: usize,
    pub name: String,
    pub url_count: usize,
    pub sample_url: Option<String>,
}

/// What a `CsvColumn` holds, as plain values.
pub open spec fn column_view(c: CsvColumn) -> (nat, Seq<char>, nat, Option<Seq<char>>) {
    (c.index as nat, c.name@, c.url_count as nat, c.sample_url.deep_view())
}

pub open spec fn columns_view(cs: Seq<CsvColumn>) -> Seq<(nat, Seq<char>, nat, Option<Seq<char>>)> {
    cs.map_values(|c: CsvColumn| column_view(c))
}

/// A row of a CSV file, or the message of the error met while reading it.
pub open spec fn row_result_view(r: Result<Vec<String>, String>) -> Result<
    Seq<Seq<char>>,
    Seq<char>,
> {
    match r {
        Ok(fields) => Ok(fields.deep_view()),
        Err(msg) => Err(msg@),
    }
}

pub open spec fn strings_result_view(r: Result<Vec<String>, String>) -> Result<
    Seq<Seq<char>>,
    Seq<char>,
> {
    row_result_view(r)
}

// ---------------------------------------------------------------------------
// The URL pattern `https?://[^\s,"]+`
// ---------------------------------------------------------------------------

/// `lit` occurs in `s` at index `i`.
pub open spec fn starts_with_at(s: Seq<char>, i: int, lit: Seq<char>) -> bool {
    0 <= i && i + lit.len() <= s.len() && s.subrange(i, i + lit.len()) == lit
}

pub open spec fn https_prefix() -> Seq<char> {
    seq!['h', 't', 't', 'p', 's', ':', '/', '/']
}

pub open spec fn http_prefix() -> Seq<char> {
    seq!['h', 't', 't', 'p', ':', '/', '/']
}

/// A character that the class `[^\s,"]` accepts.
pub open spec fn is_url_char(c: char) -> bool {
    !is_ws(c) && c != ',' && c != '"'
}

/// The length of the scheme part `https?://` that starts at `i`, or 0.
pub open spec fn scheme_len_at(s: Seq<char>, i: int) -> int {
    if starts_with_at(s, i, https_prefix()) {
        8
    } else if starts_with_at(s, i, http_prefix()) {
        7
    } else {
        0
    }
}

/// A match of the URL pattern starts at `i`.
pub open spec fn url_starts_at(s: Seq<char>, i: int) -> bool {
    &&& 0 <= i
    &&& scheme_len_at(s, i) > 0
    &&& i + scheme_len_at(s, i) < s.len()
    &&& is_url_char(s[i + scheme_len_at(s, i)])
}

/// The end of the run of URL characters that starts at `j`.
pub open spec fn url_run_end(s: Seq<char>, j: int) -> int
    decreases s.len() - j,
{
    if 0 <= j < s.len() && is_url_char(s[j]) {
        url_run_end(s, j + 1)
    } else {
        j
    }
}

/// The leftmost index at or after `from` where a match starts.
pub open spec fn first_url_start(s: Seq<char>, from: int) -> Option<int>
    decreases s.len() - from,
{
    if from < 0 || from >= s.len() {
        None
    } else if url_starts_at(s, from) {
        Some(from)
    } else {
        first_url_start(s, from + 1)
    }
}

/// The leftmost-first match of `https?://[^\s,"]+` in `s`: the leftmost
/// start, the `s` taken where it is there, and the longest run of URL
/// characters after `://`.
pub open spec fn find_url(s: Seq<char>) -> Option<Seq<char>> {
    match first_url_start(s, 0) {
        Some(i) => Some(s.subrange(i, url_run_end(s, i + scheme_len_at(s, i)))),
        None => None,
    }
}

/// `regex::Regex::is_match` for the pattern `https?://[^\s,"]+` (Unicode
/// mode, so `\s` is the `White_Space` property): whether the pattern occurs
/// anywhere in `field`.
#[verifier::external_body]
fn url_pattern_is_match(field: &str) -> (b: bool)
    ensures
        b == (find_url(field@) is Some),
{
    regex::Regex::new(r#"https?://[^\s,"]+"#).unwrap().is_match(field)
}

/// `regex::Regex::find` for the pattern `https?://[^\s,"]+`: the text of the
/// leftmost-first match, greedy.
#[verifier::external_body]
fn url_pattern_find(field: &str) -> (res: Option<String>)
    ensures
        res.deep_view() == find_url(field@),
{
    regex::Regex::new(r#"https?://[^\s,"]+"#).unwrap().find(field).map(|m| m.as_str().to_string())
}

// ---------------------------------------------------------------------------
// The CSV reader
// ---------------------------------------------------------------------------

#[verifier::external_type_specification]
#[verifier::external_body]
#[verifier::reject_recursive_types(R)]
pub struct ExStringRecordsIntoIter<R>(csv::StringRecordsIntoIter<R>);

/// The header row of `content` as `csv::Reader` (default settings: comma
/// delimiter, first row is the header, rows must all have the header's
/// length) reads it, or the message of the error it reports.
pub uninterp spec fn csv_header_row(content: Seq<char>) -> Result<Seq<Seq<char>>, Seq<char>>;

/// What the record iterator of `csv::Reader` yields for `content` after the
/// header row, until it yields `None`: each record's fields, or the message of
/// the error met on that record.
pub uninterp spec fn csv_records(content: Seq<char>) -> Seq<Result<Seq<Seq<char>>, Seq<char>>>;

/// What a record iterator still has to yield before it yields `None`.
pub uninterp spec fn csv_pending(records: csv::StringRecordsIntoIter<&[u8]>) -> Seq<
    Result<Seq<Seq<char>>, Seq<char>>,
>;

/// `csv::Reader::from_reader(content.as_bytes()).headers()`: the header row,
/// fields converted to `String`, or the error's message.
#[verifier::external_body]
fn read_csv_header(content: &str) -> (res: Result<Vec<String>, String>)
    ensures
        row_result_view(res) == csv_header_row(content@),
{
    let mut reader = csv::Reader::from_reader(content.as_bytes());
    match reader.headers() {
        Ok(h) => Ok(h.iter().map(|f| f.to_string()).collect()),
        Err(e) => Err(e.to_string()),
    }
}

/// `csv::Reader::from_reader(content.as_bytes()).into_records()`: an iterator
/// over the records after the header row.
#[verifier::external_body]
fn open_csv_records<'a>(content: &'a str) -> (r: csv::StringRecordsIntoIter<&'a [u8]>)
    ensures
        csv_pending(r) == csv_records(content@),
{
    csv::Reader::from_reader(content.as_bytes()).into_records()
}

/// `Iterator::next` on the record iterator: the next record (fields converted
/// to `String`) or the error's message; `None` once nothing is pending.
#[verifier::external_body]
fn next_csv_record(r: &mut csv::StringRecordsIntoIter<&[u8]>) -> (res: Option<
    Result<Vec<String>, String>,
>)
    ensures
        csv_pending(*old(r)).len() == 0 ==> res is None && csv_pending(*final(r)) == csv_pending(
            *old(r),
        ),
        csv_pending(*old(r)).len() > 0 ==> (res matches Some(item) && row_result_view(item)
            == csv_pending(*old(r))[0]),
        csv_pending(*old(r)).len() > 0 ==> csv_pending(*final(r)) == csv_pending(
            *old(r),
        ).drop_first(),
{
    match r.next() {
        None => None,
        Some(Ok(rec)) => Some(Ok(rec.iter().map(|f| f.to_string()).collect())),
        Some(Err(e)) => Some(Err(e.to_string())),
    }
}

// ---------------------------------------------------------------------------
// Column detection
// ---------------------------------------------------------------------------

/// The index of the first error among `items[from..]`.
pub open spec fn first_err_from<A, E>(items: Seq<Result<A, E>>, from: int) -> Option<int>
    decreases items.len() - from,
{
    if from < 0 || from >= items.len() {
        None
    } else if items[from] is Err {
        Some(from)
    } else {
        first_err_from(items, from + 1)
    }
}

/// The fields of each record (records are all `Ok` where this is used).
pub open spec fn ok_rows(items: Seq<Result<Seq<Seq<char>>, Seq<char>>>) -> Seq<Seq<Seq<char>>> {
    items.map_values(
        |r: Result<Seq<Seq<char>>, Seq<char>>|
            match r {
                Ok(f) => f,
                Err(_) => Seq::empty(),
            },
    )
}

/// Field `i` of `row` holds a URL.
pub open spec fn field_has_url(row: Seq<Seq<char>>, i: int) -> bool {
    0 <= i < row.len() && find_url(row[i]) is Some
}

/// The number of rows whose field `i` holds a URL.
pub open spec fn url_hits(rows: Seq<Seq<Seq<char>>>, i: int) -> nat
    decreases rows.len(),
{
    if rows.len() == 0 {
        0
    } else {
        url_hits(rows.drop_last(), i) + if field_has_url(rows.last(), i) {
            1nat
        } else {
            0nat
        }
    }
}

/// The first field `i` that holds a URL, in row order.
pub open spec fn url_sample(rows: Seq<Seq<Seq<char>>>, i: int) -> Option<Seq<char>>
    decreases rows.len(),
{
    if rows.len() == 0 {
        None
    } else {
        match url_sample(rows.drop_last(), i) {
            Some(x) => Some(x),
            None => if field_has_url(rows.last(), i) {
                Some(rows.last()[i])
            } else {
                None
            },
        }
    }
}

/// The columns among the first `n` headers whose URL count is more than half
/// the number of rows, in column order.
pub open spec fn url_columns(headers: Seq<Seq<char>>, rows: Seq<Seq<Seq<char>>>, n: int) -> Seq<
    (nat, Seq<char>, nat, Option<Seq<char>>),
>
    decreases n,
{
    if n <= 0 {
        Seq::empty()
    } else {
        let prev = url_columns(headers, rows, n - 1);
        let i = n - 1;
        if url_hits(rows, i) > rows.len() / 2 {
            prev.push((i as nat, headers[i], url_hits(rows, i), url_sample(rows, i)))
        } else {
            prev
        }
    }
}

/// The number of records that column detection samples.
pub open spec fn sample_size() -> int {
    20
}

/// The records that column detection looks at: the first twenty.
pub open spec fn sampled(items: Seq<Result<Seq<Seq<char>>, Seq<char>>>) -> Seq<
    Result<Seq<Seq<char>>, Seq<char>>,
> {
    if items.len() <= sample_size() {
        items
    } else {
        items.take(sample_size())
    }
}

/// What `detect_url_columns` gives for a CSV: the header error, the first
/// error among the sampled records, or the URL columns of the sample.
pub open spec fn spec_detect(content: Seq<char>) -> Result<
    Seq<(nat, Seq<char>, nat, Option<Seq<char>>)>,
    Seq<char>,
> {
    match csv_header_row(content) {
        Err(e) => Err(e),
        Ok(headers) => {
            let window = sampled(csv_records(content));
            match first_err_from(window, 0) {
                Some(k) => Err(window[k]->Err_0),
                None => Ok(url_columns(headers, ok_rows(window), headers.len() as int)),
            }
        },
    }
}

proof fn lemma_url_hits_bound(rows: Seq<Seq<Seq<char>>>, i: int)
    ensures
        url_hits(rows, i) <= rows.len(),
    decreases rows.len(),
{
    if rows.len() > 0 {
        lemma_url_hits_bound(rows.drop_last(), i);
    }
}

/// The columns of a parsed CSV whose fields hold a URL in more than half of
/// `rows`, each with its URL count and first URL-holding field.
pub fn columns_with_urls(headers: &Vec<String>, rows: &Vec<Vec<String>>) -> (cols: Vec<CsvColumn>)
    ensures
        columns_view(cols@) == url_columns(
            headers.deep_view(),
            rows.deep_view(),
            headers.len() as int,
        ),
{
    let n = headers.len();
    let ghost hs = headers.deep_view();
    let ghost rs = rows.deep_view();
    let mut counts: Vec<usize> = Vec::new();
    let mut samples: Vec<Option<String>> = Vec::new();
    let mut i: usize = 0;
    while i < n
        invariant
            i <= n,
            counts.len() == i,
            samples.len() == i,
            forall|k: int| 0 <= k < i ==> counts@[k] == 0,
            forall|k: int| 0 <= k < i ==> samples@[k] is None,
        decreases n - i,
    {
        counts.push(0);
        samples.push(None);
        i += 1;
    }
    let mut j: usize = 0;
    while j < rows.len()
        invariant
            j <= rows.len(),
            n == headers.len(),
            rs == rows.deep_view(),
            counts.len() == n,
            samples.len() == n,
            forall|k: int|
                0 <= k < n ==> #[trigger] counts@[k] == url_hits(rs.take(j as int), k),
            forall|k: int|
                0 <= k < n ==> #[trigger] samples@[k].deep_view() == url_sample(
                    rs.take(j as int),
                    k,
                ),
        decreases rows.len() - j,
    {
        let row = &rows[j];
        let ghost before = rs.take(j as int);
        let ghost after = rs.take(j + 1);
        assert(after.drop_last() =~= before);
        assert(after.last() == row.deep_view());
        let mut k: usize = 0;
        while k < n
            invariant
                k <= n,
                j < rows.len(),
                n == headers.len(),
                rs == rows.deep_view(),
                row == rows@[j as int],
                before == rs.take(j as int),
                after == rs.take(j + 1),
                after.drop_last() == before,
                after.last() == row.deep_view(),
                counts.len() == n,
                samples.len() == n,
                forall|m: int|
                    0 <= m < k ==> #[trigger] counts@[m] == url_hits(after, m),
                forall|m: int|
                    k <= m < n ==> #[trigger] counts@[m] == url_hits(before, m),
                forall|m: int|
                    0 <= m < k ==> #[trigger] samples@[m].deep_view() == url_sample(after, m),
                forall|m: int|
                    k <= m < n ==> #[trigger] samples@[m].deep_view() == url_sample(before, m),
            decreases n - k,
        {
            let ghost s_before = samples@[k as int].deep_view();
            assert(s_before == url_sample(before, k as int));
            let hit = k < row.len() && url_pattern_is_match(row[k].as_str());
            assert(hit == field_has_url(row.deep_view(), k as int));
            assert(url_hits(after, k as int) == url_hits(before, k as int) + if hit {
                1nat
            } else {
                0nat
            });
            assert(url_sample(after, k as int) == match url_sample(before, k as int) {
                Some(x) => Some(x),
                None => if hit {
                    Some(row.deep_view()[k as int])
                } else {
                    None
                },
            });
            if hit {
                assert(row.deep_view()[k as int] == row@[k as int]@);
                proof {
                    lemma_url_hits_bound(before, k as int);
                }
                let c = counts[k];
                counts.set(k, c + 1);
                if samples[k].is_none() {
                    let sample = row[k].clone();
                    assert(sample@ == row.deep_view()[k as int]);
                    samples.set(k, Some(sample));
                    assert(samples@[k as int].deep_view() == Some(sample@));
                }
            }
            assert(samples@[k as int].deep_view() == url_sample(after, k as int));
            k += 1;
        }
        j += 1;
    }
    assert(rs.take(rows.len() as int) =~= rs);
    let threshold = rows.len() / 2;
    let mut cols: Vec<CsvColumn> = Vec::new();
    let mut i: usize = 0;
    while i < n
        invariant
            i <= n,
            n == headers.len(),
            hs == headers.deep_view(),
            rs == rows.deep_view(),
            threshold == rows.len() / 2,
            counts.len() == n,
            samples.len() == n,
            forall|k: int| 0 <= k < n ==> #[trigger] counts@[k] == url_hits(rs, k),
            forall|k: int| 0 <= k < n ==> #[trigger] samples@[k].deep_view() == url_sample(rs, k),
            columns_view(cols@) == url_columns(hs, rs, i as int),
        decreases n - i,
    {
        if counts[i] > threshold {
            let col = CsvColumn {
                index: i,
                name: headers[i].clone(),
                url_count: counts[i],
                sample_url: samples[i].clone(),
            };
            let ghost old_cols = cols@;
            cols.push(col);
            assert(columns_view(cols@) =~= columns_view(old_cols).push(column_view(col)));
        }
        i += 1;
    }
    cols
}

/// Detect which columns in a CSV contain URLs: a column counts when more than
/// half of the first 20 records hold a URL in it.
pub fn detect_url_columns(content: &str) -> (res: Result<Vec<CsvColumn>, String>)
    ensures
        match res {
            Ok(cols) => spec_detect(content@) == Ok::<_, Seq<char>>(columns_view(cols@)),
            Err(e) => spec_detect(content@) == Err::<
                Seq<(nat, Seq<char>, nat, Option<Seq<char>>)>,
                _,
            >(e@),
        },
{
    let headers = match read_csv_header(content) {
        Ok(h) => h,
        Err(e) => {
            return Err(e);
        },
    };
    let ghost all = csv_records(content@);
    let ghost window = sampled(all);
    let mut records = open_csv_records(content);
    let mut rows: Vec<Vec<String>> = Vec::new();
    let mut taken: usize = 0;
    while taken < 20
        invariant
            taken <= 20,
            taken <= all.len(),
            window == sampled(all),
            csv_pending(records) == all.skip(taken as int),
            rows.deep_view() == ok_rows(window.take(taken as int)),
            first_err_from(window, 0) == first_err_from(window, taken as int),
            all == csv_records(content@),
            csv_header_row(content@) == Ok::<Seq<Seq<char>>, Seq<char>>(headers.deep_view()),
        ensures
            taken == 20 || taken == all.len(),
        decreases 20 - taken,
    {
        let ghost pending = csv_pending(records);
        let item = next_csv_record(&mut records);
        proof {
            if pending.len() > 0 {
                assert(pending[0] == all[taken as int]);
                assert(window[taken as int] == all[taken as int]);
            }
        }
        match item {
            None => {
                assert(taken == all.len());
                break;
            },
            Some(Ok(fields)) => {
                let ghost old_rows = rows.deep_view();
                assert(window[taken as int] == Ok::<Seq<Seq<char>>, Seq<char>>(fields.deep_view()));
                rows.push(fields);
                assert(rows.deep_view() =~= old_rows.push(fields.deep_view()));
                assert(window.take(taken + 1) =~= window.take(taken as int).push(window[taken as int]));
                assert(rows.deep_view() =~= ok_rows(window.take(taken + 1)));
                assert(csv_pending(records) =~= all.skip(taken + 1));
                taken += 1;
            },
            Some(Err(e)) => {
                assert(window[taken as int] == Err::<Seq<Seq<char>>, Seq<char>>(e@));
                assert(first_err_from(window, taken as int) == Some(taken as int));
                assert(csv_header_row(content@) == Ok::<Seq<Seq<char>>, Seq<char>>(headers.deep_view()));
                assert(spec_detect(content@) == Err::<Seq<(nat, Seq<char>, nat, Option<Seq<char>>)>, Seq<char>>(e@));
                return Err(e);
            },
        }
    }
    assert(taken == window.len());
    assert(window.take(taken as int) =~= window);
    Ok(columns_with_urls(&headers, &rows))
}

// ---------------------------------------------------------------------------
// URL extraction
// ---------------------------------------------------------------------------

/// The URLs matched in field `col` of the rows, each kept once, in the order
/// of their first occurrence.
pub open spec fn column_urls(rows: Seq<Seq<Seq<char>>>, col: int) -> Seq<Seq<char>>
    decreases rows.len(),
{
    if rows.len() == 0 {
        Seq::empty()
    } else {
        let prev = column_urls(rows.drop_last(), col);
        let row = rows.last();
        if field_has_url(row, col) && !prev.contains(find_url(row[col])->0) {
            prev.push(find_url(row[col])->0)
        } else {
            prev
        }
    }
}

/// The URL that field `col` of `row` yields.
pub open spec fn field_url(row: Seq<Seq<char>>, col: int) -> Seq<char> {
    find_url(row[col])->0
}

/// The URLs extracted from a column repeat none, and are exactly the URLs
/// that the column's fields yield.
pub proof fn law_column_urls_distinct_and_complete(rows: Seq<Seq<Seq<char>>>, col: int)
    ensures
        column_urls(rows, col).no_duplicates(),
        forall|x: Seq<char>|
            column_urls(rows, col).contains(x) <==> exists|k: int|
                0 <= k < rows.len() && field_has_url(#[trigger] rows[k], col) && field_url(
                    rows[k],
                    col,
                ) == x,
    decreases rows.len(),
{
    if rows.len() > 0 {
        let init = rows.drop_last();
        let prev = column_urls(init, col);
        let row = rows.last();
        law_column_urls_distinct_and_complete(init, col);
        assert forall|x: Seq<char>|
            column_urls(rows, col).contains(x) <==> exists|k: int|
                0 <= k < rows.len() && field_has_url(#[trigger] rows[k], col) && field_url(
                    rows[k],
                    col,
                ) == x by {
            assert(rows[rows.len() - 1] == row);
            if exists|k: int|
                0 <= k < init.len() && field_has_url(#[trigger] init[k], col) && field_url(
                    init[k],
                    col,
                ) == x {
                let k = choose|k: int|
                    0 <= k < init.len() && field_has_url(#[trigger] init[k], col) && field_url(
                        init[k],
                        col,
                    ) == x;
                assert(rows[k] == init[k]);
            }
            if exists|k: int|
                0 <= k < rows.len() && field_has_url(#[trigger] rows[k], col) && field_url(
                    rows[k],
                    col,
                ) == x {
                let k = choose|k: int|
                    0 <= k < rows.len() && field_has_url(#[trigger] rows[k], col) && field_url(
                        rows[k],
                        col,
                    ) == x;
                if k < init.len() {
                    assert(init[k] == rows[k]);
                }
            }
            if field_has_url(row, col) && !prev.contains(field_url(row, col)) {
                let y = field_url(row, col);
                assert(prev.push(y)[prev.len() as int] == y);
                if prev.contains(x) {
                    let k = choose|k: int| 0 <= k < prev.len() && prev[k] == x;
                    assert(prev.push(y)[k] == x);
                }
                if prev.push(y).contains(x) && x != y {
                    let k = choose|k: int| 0 <= k < prev.len() + 1 && prev.push(y)[k] == x;
                    assert(prev[k] == x);
                }
            }
        }
    }
}

/// Every column that detection reports has a header among the first `n`,
/// holds URLs in more than half of the rows, and comes after the one before.
pub proof fn law_url_columns_qualify(headers: Seq<Seq<char>>, rows: Seq<Seq<Seq<char>>>, n: int)
    ensures
        forall|j: int|
            0 <= j < url_columns(headers, rows, n).len() ==> {
                let c = #[trigger] url_columns(headers, rows, n)[j];
                &&& c.0 < n
                &&& c.1 == headers[c.0 as int]
                &&& c.2 == url_hits(rows, c.0 as int)
                &&& c.2 > rows.len() / 2
            },
        forall|a: int, b: int|
            0 <= a < b < url_columns(headers, rows, n).len() ==> #[trigger] url_columns(
                headers,
                rows,
                n,
            )[a].0 < #[trigger] url_columns(headers, rows, n)[b].0,
    decreases n,
{
    if n > 0 {
        law_url_columns_qualify(headers, rows, n - 1);
        let prev = url_columns(headers, rows, n - 1);
        if url_hits(rows, n - 1) > rows.len() / 2 {
            let c = (
                (n - 1) as nat,
                headers[n - 1],
                url_hits(rows, n - 1),
                url_sample(rows, n - 1),
            );
            assert(url_columns(headers, rows, n) == prev.push(c));
            assert forall|j: int| 0 <= j < prev.len() implies #[trigger] prev.push(c)[j] == prev[j] by {}
        }
    }
}

/// What `extract_urls_from_column` gives for a CSV: the first error among its
/// records, or the URLs of the column.
pub open spec fn spec_extract(content: Seq<char>, col: int) -> Result<Seq<Seq<char>>, Seq<char>> {
    let items = csv_records(content);
    match first_err_from(items, 0) {
        Some(k) => Err(items[k]->Err_0),
        None => Ok(column_urls(ok_rows(items), col)),
    }
}

/// What `auto_extract_urls` gives for a CSV: the URLs of the first detected
/// URL column, or none when no column qualifies.
pub open spec fn spec_auto_extract(content: Seq<char>) -> Result<Seq<Seq<char>>, Seq<char>> {
    match spec_detect(content) {
        Err(e) => Err(e),
        Ok(cols) => if cols.len() > 0 {
            spec_extract(content, cols[0].0 as int)
        } else {
            Ok(Seq::empty())
        },
    }
}

/// Auto-extraction takes the detected URL column that comes first in the
/// file: when detection reports columns, it extracts from the one whose index
/// is the smallest of them; when detection reports none, it yields no URL;
/// when detection fails, it fails alike.
pub proof fn law_auto_extract_takes_first_column(content: Seq<char>)
    ensures
        match spec_detect(content) {
            Ok(cols) => if cols.len() > 0 {
                exists|k: int|
                    0 <= k < cols.len() && (forall|j: int|
                        0 <= j < cols.len() ==> cols[k].0 <= #[trigger] cols[j].0)
                        && spec_auto_extract(content) == spec_extract(
                        content,
                        #[trigger] cols[k].0 as int,
                    )
            } else {
                spec_auto_extract(content) == Ok::<Seq<Seq<char>>, Seq<char>>(Seq::empty())
            },
            Err(e) => spec_auto_extract(content) == Err::<Seq<Seq<char>>, Seq<char>>(e),
        },
{
    if let Ok(headers) = csv_header_row(content) {
        let window = sampled(csv_records(content));
        if first_err_from(window, 0) is None {
            let cols = url_columns(headers, ok_rows(window), headers.len() as int);
            law_url_columns_qualify(headers, ok_rows(window), headers.len() as int);
            if cols.len() > 0 {
                assert forall|j: int| 0 <= j < cols.len() implies cols[0].0 <= #[trigger] cols[j].0 by {
                    if j > 0 {
                        assert(cols[0].0 < cols[j].0);
                    }
                }
            }
        }
    }
}

pub open spec fn urls_result_view(r: Result<Vec<String>, String>) -> Result<
    Seq<Seq<char>>,
    Seq<char>,
> {
    match r {
        Ok(v) => Ok(v.deep_view()),
        Err(e) => Err(e@),
    }
}

/// Whether `v` holds a string equal to `s`.
pub fn contains_string(v: &Vec<String>, s: &String) -> (b: bool)
    ensures
        b == v.deep_view().contains(s@),
{
    let mut i: usize = 0;
    while i < v.len()
        invariant
            i <= v.len(),
            forall|k: int| 0 <= k < i ==> v@[k]@ != s@,
        decreases v.len() - i,
    {
        if v[i] == *s {
            assert(v.deep_view()[i as int] == s@);
            return true;
        }
        i += 1;
    }
    proof {
        if v.deep_view().contains(s@) {
            let k = choose|k: int| 0 <= k < v.deep_view().len() && v.deep_view()[k] == s@;
            assert(v@[k]@ == s@);
        }
    }
    false
}

/// The URLs found in field `column_index` of the rows: for each row, the
/// first URL match of the field, kept once, in the order first seen.
pub fn urls_in_column(rows: &Vec<Vec<String>>, column_index: usize) -> (urls: Vec<String>)
    ensures
        urls.deep_view() == column_urls(rows.deep_view(), column_index as int),
{
    let ghost rs = rows.deep_view();
    let mut urls: Vec<String> = Vec::new();
    let mut j: usize = 0;
    while j < rows.len()
        invariant
            j <= rows.len(),
            rs == rows.deep_view(),
            urls.deep_view() == column_urls(rs.take(j as int), column_index as int),
        decreases rows.len() - j,
    {
        let row = &rows[j];
        let ghost before = rs.take(j as int);
        let ghost after = rs.take(j + 1);
        assert(after.drop_last() =~= before);
        assert(after.last() == row.deep_view());
        if column_index < row.len() {
            assert(row.deep_view()[column_index as int] == row@[column_index as int]@);
            match url_pattern_find(row[column_index].as_str()) {
                Some(url) => {
                    if !contains_string(&urls, &url) {
                        let ghost old_urls = urls.deep_view();
                        urls.push(url);
                        assert(urls.deep_view() =~= old_urls.push(url@));
                    }
                },
                None => {},
            }
        }
        j += 1;
    }
    assert(rs.take(rows.len() as int) =~= rs);
    urls
}

/// Extract all URLs from a specific column in a CSV, each once, in the
/// order first seen.
pub fn extract_urls_from_column(content: &str, column_index: usize) -> (res: Result<
    Vec<String>,
    String,
>)
    ensures
        urls_result_view(res) == spec_extract(content@, column_index as int),
{
    let ghost all = csv_records(content@);
    let mut records = open_csv_records(content);
    let mut rows: Vec<Vec<String>> = Vec::new();
    let ghost mut taken: int = 0;
    loop
        invariant
            0 <= taken <= all.len(),
            all == csv_records(content@),
            csv_pending(records) == all.skip(taken),
            rows.deep_view() == ok_rows(all.take(taken)),
            first_err_from(all, 0) == first_err_from(all, taken),
        ensures
            taken == all.len(),
            rows.deep_view() == ok_rows(all.take(taken)),
            first_err_from(all, 0) == first_err_from(all, taken),
        decreases csv_pending(records).len(),
    {
        let ghost pending = csv_pending(records);
        let item = next_csv_record(&mut records);
        proof {
            if pending.len() > 0 {
                assert(pending[0] == all[taken]);
            }
        }
        match item {
            None => {
                break;
            },
            Some(Ok(fields)) => {
                let ghost old_rows = rows.deep_view();
                rows.push(fields);
                assert(rows.deep_view() =~= old_rows.push(fields.deep_view()));
                assert(all.take(taken + 1) =~= all.take(taken).push(all[taken]));
                assert(rows.deep_view() =~= ok_rows(all.take(taken + 1)));
                assert(csv_pending(records) =~= all.skip(taken + 1));
                proof {
                    taken = taken + 1;
                }
            },
            Some(Err(e)) => {
                assert(all[taken] == Err::<Seq<Seq<char>>, Seq<char>>(e@));
                assert(first_err_from(all, taken) == Some(taken));
                return Err(e);
            },
        }
    }
    assert(all.take(taken) =~= all);
    Ok(urls_in_column(&rows, column_index))
}

/// Auto-extract URLs from the best detected column: the first column that
/// `detect_url_columns` reports, or no URL when there is none.
pub fn auto_extract_urls(content: &str) -> (res: Result<Vec<String>, String>)
    ensures
        urls_result_view(res) == spec_auto_extract(content@),
{
    let columns = match detect_url_columns(content) {
        Ok(c) => c,
        Err(e) => {
            return Err(e);
        },
    };
    assert(columns_view(columns@).len() == columns@.len());
    if columns.len() > 0 {
        assert(columns_view(columns@)[0].0 == columns@[0].index);
        extract_urls_from_column(content, columns[0].index)
    } else {
        let none: Vec<String> = Vec::new();
        assert(none.deep_view() =~= Seq::<Seq<char>>::empty());
        Ok(none)
    }
}

} // verus!
