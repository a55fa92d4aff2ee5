//! Writing CSV text with the `csv` crate's writer (default settings).
use vstd::prelude::*;

verus! {

/// A field holds a character that makes the writer quote it: the comma,
/// the double quote, or a line break.
pub open spec fn csv_needs_quotes(f: Seq<char>) -> bool {
    exists|i: int|
        0 <= i < f.len() && (f[i] == ',' || f[i] == '"' || f[i] == '\n' || f[i] == '\r')
}

/// The field's characters with each double quote doubled.
pub open spec fn csv_doubled_quotes(f: Seq<char>) -> Seq<char>
    decreases f.len(),
{
    if f.len() == 0 {
        Seq::empty()
    } else {
        csv_doubled_quotes(f.drop_last()) + if f.last() == '"' {
            seq!['"', '"']
        } else {
            seq![f.last()]
        }
    }
}

/// A field as the writer writes it (`QuoteStyle::Necessary`, doubled quotes).
pub open spec fn csv_field(f: Seq<char>) -> Seq<char> {
    if csv_needs_quotes(f) {
        seq!['"'] + csv_doubled_quotes(f) + seq!['"']
    } else {
        f
    }
}

/// The fields of a record, each written as above, joined by commas.
pub open spec fn csv_fields(r: Seq<Seq<char>>) -> Seq<char>
    decreases r.len(),
{
    if r.len() == 0 {
        Seq::empty()
    } else if r.len() == 1 {
        csv_field(r[0])
    } else {
        csv_fields(r.drop_last()) + seq![','] + csv_field(r.last())
    }
}

/// A record as the writer writes it: its fields and a `\n` terminator.
pub open spec fn csv_line(r: Seq<Seq<char>>) -> Seq<char> {
    csv_fields(r) + seq!['\n']
}

/// The CSV text of a list of records.
pub open spec fn csv_document(rs: Seq<Seq<Seq<char>>>) -> Seq<char>
    decreases rs.len(),
{
    if rs.len() == 0 {
        Seq::empty()
    } else {
        csv_document(rs.drop_last()) + csv_line(rs.last())
    }
}

/// A `csv::Writer` into memory. Verus refuses to declare `csv::Writer` itself
/// (its `io::Write` bound), so the writer is held in this opaque struct.
#[verifier::external_body]
pub struct CsvSink {
    writer: csv::Writer<Vec<u8>>,
}

/// The text that a CSV writer into memory holds so far, as it stands once
/// flushed.
pub uninterp spec fn csv_written(w: CsvSink) -> Seq<char>;

/// The number of fields of the first record a writer was given, if any; the
/// writer rejects records of another length.
pub uninterp spec fn csv_width(w: CsvSink) -> Option<nat>;

/// `csv::Writer::from_writer(Vec::new())`: a writer with default settings
/// (comma, `\n` terminator, quoting only where necessary).
#[verifier::external_body]
fn new_csv_writer() -> (w: CsvSink)
    ensures
        csv_written(w) == Seq::<char>::empty(),
        csv_width(w) is None,
{
    CsvSink { writer: csv::Writer::from_writer(Vec::new()) }
}

/// `csv::Writer::write_record`: appends the record's line. Writing into
/// memory does not fail on a record of the writer's width.
#[verifier::external_body]
fn write_csv_record(w: &mut CsvSink, record: &Vec<String>) -> (res: Result<(), String>)
    requires
        record.len() >= 2,
        csv_width(*old(w)) matches Some(n) ==> n == record.len(),
    ensures
        res is Ok,
        csv_written(*final(w)) == csv_written(*old(w)) + csv_line(record.deep_view()),
        csv_width(*final(w)) == Some(record.len() as nat),
{
    w.writer.write_record(record).map_err(|e| e.to_string())
}

/// `csv::Writer::into_inner`, then `String::from_utf8` of the bytes: the
/// written text (UTF-8, since every field was a `String`).
#[verifier::external_body]
fn finish_csv(w: CsvSink) -> (res: Result<String, String>)
    ensures
        res is Ok,
        res.unwrap()@ == csv_written(w),
{
    let bytes = w.writer.into_inner().map_err(|e| e.to_string())?;
    String::from_utf8(bytes).map_err(|e| e.to_string())
}

/// The CSV text of `records`, which all have the same number of fields, at
/// least two.
pub fn write_csv(records: &Vec<Vec<String>>) -> (text: String)
    requires
        forall|i: int| 0 <= i < records.len() ==> #[trigger] records@[i].len() >= 2,
        forall|i: int|
            0 <= i < records.len() ==> #[trigger] records@[i].len() == records@[0].len(),
    ensures
        text@ == csv_document(records.deep_view()),
{
    let ghost rs = records.deep_view();
    let mut w = new_csv_writer();
    let mut i: usize = 0;
    while i < records.len()
        invariant
            i <= records.len(),
            rs == records.deep_view(),
            forall|k: int| 0 <= k < records.len() ==> #[trigger] records@[k].len() >= 2,
            forall|k: int|
                0 <= k < records.len() ==> #[trigger] records@[k].len() == records@[0].len(),
            csv_written(w) == csv_document(rs.take(i as int)),
            i == 0 ==> csv_width(w) is None,
            i > 0 ==> csv_width(w) == Some(records@[0].len() as nat),
        decreases records.len() - i,
    {
        let _ = write_csv_record(&mut w, &records[i]);
        assert(rs.take(i + 1).drop_last() =~= rs.take(i as int));
        assert(rs.take(i + 1).last() == records@[i as int].deep_view());
        i += 1;
    }
    assert(rs.take(records.len() as int) =~= rs);
    match finish_csv(w) {
        Ok(text) => text,
        Err(_) => String::new(),
    }
}

} // verus!
