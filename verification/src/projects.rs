//! Project views: the URL list with its filters and order, the URL counts
//! by source, and the outcome of a deletion.
use vstd::prelude::*;
use vstd::string::StringExecFns;

use crate::models::{Project, UrlEntry};
use crate::report::lemma_count_step;
use crate::text::{chars_of, lemma_text_lt_asymmetric, text_less, text_lt};

verus! {

broadcast use vstd::seq_lib::group_seq_properties;

/// One line of a project's URL list.
pub struct UrlListEntry {
    pub id: String,
    pub url: String,
    pub source: String,
    pub indexed_status: String,
}

/// The list line of a row.
pub open spec fn list_entry(e: UrlEntry) -> UrlListEntry {
    UrlListEntry { id: e.id, url: e.url, source: e.source, indexed_status: e.indexed_status }
}

/// An absent filter keeps every value; a present one keeps its own value.
pub open spec fn filter_keeps(want: Option<Seq<char>>, have: Seq<char>) -> bool {
    match want {
        None => true,
        Some(w) => w == have,
    }
}

/// A row of `project_id` that the source and indexation filters keep.
pub open spec fn listed(
    project_id: Seq<char>,
    source: Option<Seq<char>>,
    status: Option<Seq<char>>,
    e: UrlEntry,
) -> bool {
    &&& e.project_id@ == project_id
    &&& filter_keeps(source, e.source@)
    &&& filter_keeps(status, e.indexed_status@)
}

/// Lines in ascending text order of their URL.
pub open spec fn by_url(v: Seq<UrlListEntry>) -> bool {
    forall|k: int| 0 <= k < v.len() - 1 ==> !text_lt(v[k + 1].url@, #[trigger] v[k].url@)
}

fn owned(o: Option<&str>) -> (r: Option<String>)
    ensures
        match o {
            None => r is None,
            Some(s) => r matches Some(t) && t@ == s@,
        },
{
    match o {
        None => None,
        Some(s) => Some(String::from_str(s)),
    }
}

fn keeps_value(want: &Option<String>, have: &String) -> (b: bool)
    ensures
        b == filter_keeps(
            match want {
                None => None,
                Some(w) => Some(w@),
            },
            have@,
        ),
{
    match want {
        None => true,
        Some(w) => *w == *have,
    }
}

/// The URL list of `project_id`: its rows kept by the optional source and
/// indexation-status filters, in ascending order of URL.
pub fn project_urls(
    rows: &Vec<UrlEntry>,
    project_id: &str,
    source: Option<&str>,
    indexed_status: Option<&str>,
) -> (out: Vec<UrlListEntry>)
    ensures
        out@.to_multiset() == rows@.filter(
            |e: UrlEntry| listed(project_id@, source.deep_view(), indexed_status.deep_view(), e),
        ).map_values(|e: UrlEntry| list_entry(e)).to_multiset(),
        by_url(out@),
{
    let pid = String::from_str(project_id);
    let want_source = owned(source);
    let want_status = owned(indexed_status);
    let ghost keep = |e: UrlEntry|
        listed(project_id@, source.deep_view(), indexed_status.deep_view(), e);
    let ghost line = |e: UrlEntry| list_entry(e);
    let ghost r = rows@;
    let mut out: Vec<UrlListEntry> = Vec::new();
    let mut keys: Vec<Vec<char>> = Vec::new();
    let mut i: usize = 0;
    assert(r.take(0).filter(keep).map_values(line) =~= Seq::<UrlListEntry>::empty());
    while i < rows.len()
        invariant
            i <= rows.len(),
            r == rows@,
            pid@ == project_id@,
            match want_source {
                None => source.deep_view() is None,
                Some(w) => source.deep_view() == Some(w@),
            },
            match want_status {
                None => indexed_status.deep_view() is None,
                Some(w) => indexed_status.deep_view() == Some(w@),
            },
            keep == |e: UrlEntry|
                listed(project_id@, source.deep_view(), indexed_status.deep_view(), e),
            line == |e: UrlEntry| list_entry(e),
            out.len() == keys.len(),
            forall|k: int| 0 <= k < keys.len() ==> #[trigger] keys@[k]@ == out@[k].url@,
            by_url(out@),
            out@.to_multiset() == r.take(i as int).filter(keep).map_values(line).to_multiset(),
        decreases rows.len() - i,
    {
        assert(r.take(i + 1) =~= r.take(i as int).push(r[i as int]));
        proof {
            r.take(i as int).lemma_filter_push(r[i as int], keep);
        }
        let e = &rows[i];
        if e.project_id == pid && keeps_value(&want_source, &e.source) && keeps_value(
            &want_status,
            &e.indexed_status,
        ) {
            let key = chars_of(e.url.as_str());
            let mut p: usize = 0;
            while p < out.len() && !text_less(&key, &keys[p])
                invariant
                    p <= out.len(),
                    out.len() == keys.len(),
                    forall|k: int| 0 <= k < keys.len() ==> #[trigger] keys@[k]@ == out@[k].url@,
                    forall|k: int| 0 <= k < p ==> !text_lt(key@, #[trigger] out@[k].url@),
                decreases out.len() - p,
            {
                p += 1;
            }
            proof {
                if p < out.len() {
                    lemma_text_lt_asymmetric(key@, out@[p as int].url@);
                }
            }
            let ghost old_out = out@;
            let ghost old_keys = keys@;
            assert(key@ == e.url@);
            let entry = UrlListEntry {
                id: e.id.clone(),
                url: e.url.clone(),
                source: e.source.clone(),
                indexed_status: e.indexed_status.clone(),
            };
            assert(entry == list_entry(*e));
            out.insert(p, entry);
            keys.insert(p, key);
            proof {
                assert(out@[p as int].url@ == key@);
                let fi = r.take(i as int).filter(keep);
                assert(fi.push(r[i as int]).map_values(line) =~= fi.map_values(line).push(
                    list_entry(r[i as int]),
                ));
                vstd::seq_lib::to_multiset_insert(old_out, p as int, list_entry(r[i as int]));
                vstd::seq_lib::to_multiset_build(fi.map_values(line), list_entry(r[i as int]));
                assert forall|k: int| 0 <= k < keys.len() implies #[trigger] keys@[k]@
                    == out@[k].url@ by {
                    if k < p {
                        assert(keys@[k] == old_keys[k]);
                    } else if k > p {
                        assert(keys@[k] == old_keys[k - 1]);
                    }
                }
                assert forall|k: int| 0 <= k < out@.len() - 1 implies !text_lt(
                    out@[k + 1].url@,
                    #[trigger] out@[k].url@,
                ) by {
                    if k + 1 < p {
                        assert(out@[k] == old_out[k]);
                        assert(out@[k + 1] == old_out[k + 1]);
                    } else if k + 1 == p {
                        assert(out@[k] == old_out[k]);
                        assert(!text_lt(key@, old_out[k].url@));
                    } else if k == p {
                        assert(out@[k + 1] == old_out[k]);
                        assert(text_lt(key@, old_keys[k]@));
                        assert(!text_lt(old_out[k].url@, key@));
                    } else {
                        assert(out@[k] == old_out[k - 1]);
                        assert(out@[k + 1] == old_out[k]);
                    }
                }
            }
        }
        i += 1;
    }
    assert(r.take(rows.len() as int) =~= r);
    out
}

// ---------------------------------------------------------------------------
// Project list
// ---------------------------------------------------------------------------

/// Projects ordered by creation time, newest first.
pub open spec fn newest_projects_first(v: Seq<Project>) -> bool {
    forall|k: int|
        0 <= k < v.len() - 1 ==> !text_lt(#[trigger] v[k].created_at@, v[k + 1].created_at@)
}

/// The projects, newest first by creation time (compared as text). Projects
/// created at the same time come in no particular order.
#[verifier::rlimit(40)]
pub fn list_newest_first(projects: &Vec<Project>) -> (out: Vec<Project>)
    ensures
        out@.to_multiset() == projects@.to_multiset(),
        newest_projects_first(out@),
{
    let ghost r = projects@;
    let mut out: Vec<Project> = Vec::new();
    let mut keys: Vec<Vec<char>> = Vec::new();
    let mut i: usize = 0;
    assert(r.take(0) =~= Seq::<Project>::empty());
    while i < projects.len()
        invariant
            i <= projects.len(),
            r == projects@,
            out.len() == keys.len(),
            forall|k: int| 0 <= k < keys.len() ==> #[trigger] keys@[k]@ == out@[k].created_at@,
            newest_projects_first(out@),
            out@.to_multiset() == r.take(i as int).to_multiset(),
        decreases projects.len() - i,
    {
        assert(r.take(i + 1) =~= r.take(i as int).push(r[i as int]));
        let e = &projects[i];
        let key = chars_of(e.created_at.as_str());
        let mut p: usize = 0;
        while p < out.len() && !text_less(&keys[p], &key)
            invariant
                p <= out.len(),
                out.len() == keys.len(),
                forall|k: int| 0 <= k < keys.len() ==> #[trigger] keys@[k]@ == out@[k].created_at@,
                forall|k: int| 0 <= k < p ==> !text_lt(#[trigger] out@[k].created_at@, key@),
            decreases out.len() - p,
        {
            p += 1;
        }
        proof {
            if p < out.len() {
                lemma_text_lt_asymmetric(out@[p as int].created_at@, key@);
            }
        }
        let ghost old_out = out@;
        let ghost old_keys = keys@;
        let copy = e.clone();
        assert(copy.created_at@ == key@);
        out.insert(p, copy);
        keys.insert(p, key);
        proof {
            vstd::seq_lib::to_multiset_insert(old_out, p as int, r[i as int]);
            vstd::seq_lib::to_multiset_build(r.take(i as int), r[i as int]);
            assert forall|k: int| 0 <= k < keys.len() implies #[trigger] keys@[k]@
                == out@[k].created_at@ by {
                if k < p {
                    assert(keys@[k] == old_keys[k]);
                } else if k > p {
                    assert(keys@[k] == old_keys[k - 1]);
                }
            }
            assert forall|k: int| 0 <= k < out@.len() - 1 implies !text_lt(
                #[trigger] out@[k].created_at@,
                out@[k + 1].created_at@,
            ) by {
                if k + 1 < p {
                    assert(out@[k] == old_out[k]);
                    assert(out@[k + 1] == old_out[k + 1]);
                } else if k + 1 == p {
                    assert(out@[k] == old_out[k]);
                } else if k == p {
                    assert(out@[k + 1] == old_out[k]);
                    assert(text_lt(old_keys[k]@, key@));
                } else {
                    assert(out@[k] == old_out[k - 1]);
                    assert(out@[k + 1] == old_out[k]);
                }
            }
        }
        i += 1;
    }
    assert(r.take(projects.len() as int) =~= r);
    out
}

// ---------------------------------------------------------------------------
// URL counts by source
// ---------------------------------------------------------------------------

/// The number of rows of `project_id` collected from `source`.
pub open spec fn source_count(rows: Seq<UrlEntry>, project_id: Seq<char>, source: Seq<char>) -> nat {
    rows.filter(|e: UrlEntry| from_source(project_id, source, e)).len()
}

/// A row of `project_id` collected from `source`.
pub open spec fn from_source(project_id: Seq<char>, source: Seq<char>, e: UrlEntry) -> bool {
    e.project_id@ == project_id && e.source@ == source
}

/// Some pair is about `source`.
pub open spec fn names_source(counts: Seq<(String, usize)>, source: Seq<char>) -> bool {
    exists|j: int| 0 <= j < counts.len() && #[trigger] counts[j].0@ == source
}

/// Each source once, with its positive count among `rows`, and every source
/// of a row of `project_id` present.
pub open spec fn counts_by_source(
    rows: Seq<UrlEntry>,
    project_id: Seq<char>,
    counts: Seq<(String, usize)>,
) -> bool {
    &&& forall|a: int, b: int|
        0 <= a < b < counts.len() ==> #[trigger] counts[a].0@ != #[trigger] counts[b].0@
    &&& forall|a: int|
        0 <= a < counts.len() ==> #[trigger] counts[a].1 == source_count(
            rows,
            project_id,
            counts[a].0@,
        ) && counts[a].1 > 0
    &&& forall|k: int|
        0 <= k < rows.len() && #[trigger] rows[k].project_id@ == project_id ==> names_source(
            counts,
            rows[k].source@,
        )
}

proof fn lemma_source_step(rows: Seq<UrlEntry>, project_id: Seq<char>, i: int, source: Seq<char>)
    requires
        0 <= i < rows.len(),
    ensures
        source_count(rows.take(i + 1), project_id, source) == source_count(
            rows.take(i),
            project_id,
            source,
        ) + if rows[i].project_id@ == project_id && rows[i].source@ == source {
            1int
        } else {
            0int
        },
        source_count(rows.take(i), project_id, source) <= i,
{
    let p = |e: UrlEntry| from_source(project_id, source, e);
    lemma_count_step(rows, i, p);
    assert(p(rows[i]) == from_source(project_id, source, rows[i]));
}

proof fn lemma_count_positive(rows: Seq<UrlEntry>, project_id: Seq<char>, source: Seq<char>)
    requires
        source_count(rows, project_id, source) > 0,
    ensures
        exists|k: int|
            0 <= k < rows.len() && #[trigger] rows[k].project_id@ == project_id && rows[k].source@
                == source,
    decreases rows.len(),
{
    let p = |e: UrlEntry| from_source(project_id, source, e);
    if rows.len() == 0 {
        assert(rows.filter(p) =~= Seq::<UrlEntry>::empty());
    } else {
        let q = rows.drop_last();
        assert(rows =~= q.push(rows.last()));
        q.lemma_filter_push(rows.last(), p);
        if from_source(project_id, source, rows.last()) {
            assert(rows[rows.len() - 1].project_id@ == project_id);
        } else {
            lemma_count_positive(q, project_id, source);
            let k = choose|k: int|
                0 <= k < q.len() && #[trigger] q[k].project_id@ == project_id && q[k].source@
                    == source;
            assert(rows[k] == q[k]);
        }
    }
}

/// How many URLs of `project_id` each source gave, one pair per source.
pub fn url_counts_by_source(rows: &Vec<UrlEntry>, project_id: &str) -> (counts: Vec<
    (String, usize),
>)
    ensures
        counts_by_source(rows@, project_id@, counts@),
{
    let pid = String::from_str(project_id);
    let ghost r = rows@;
    let mut counts: Vec<(String, usize)> = Vec::new();
    let mut i: usize = 0;
    while i < rows.len()
        invariant
            i <= rows.len(),
            r == rows@,
            pid@ == project_id@,
            counts_by_source(r.take(i as int), project_id@, counts@),
        decreases rows.len() - i,
    {
        let ghost before = counts@;
        let ghost t = r.take(i as int);
        let ghost t1 = r.take(i + 1);
        assert(t1 =~= t.push(r[i as int]));
        let e = &rows[i];
        if e.project_id == pid {
            let mut j: usize = 0;
            while j < counts.len() && counts[j].0 != e.source
                invariant
                    j <= counts.len(),
                    forall|a: int| 0 <= a < j ==> counts@[a].0@ != e.source@,
                decreases counts.len() - j,
            {
                j += 1;
            }
            if j < counts.len() {
                let n = counts[j].1;
                proof {
                    lemma_source_step(r, project_id@, i as int, e.source@);
                }
                let name = counts[j].0.clone();
                counts.set(j, (name, n + 1));
                proof {
                    assert forall|a: int| 0 <= a < counts.len() implies #[trigger] counts@[a].1
                        == source_count(t1, project_id@, counts@[a].0@) && counts@[a].1 > 0 by {
                        lemma_source_step(r, project_id@, i as int, counts@[a].0@);
                        assert(counts@[a].0@ == before[a].0@);
                        assert(before[a].1 == source_count(t, project_id@, before[a].0@));
                        if a != j {
                            assert(before[a].0@ != before[j as int].0@);
                        }
                    }
                }
            } else {
                proof {
                    if source_count(t, project_id@, e.source@) > 0 {
                        lemma_count_positive(t, project_id@, e.source@);
                        let k = choose|k: int|
                            0 <= k < t.len() && #[trigger] t[k].project_id@ == project_id@
                                && t[k].source@ == e.source@;
                        assert(names_source(before, t[k].source@));
                    }
                    lemma_source_step(r, project_id@, i as int, e.source@);
                }
                counts.push((e.source.clone(), 1));
                proof {
                    assert forall|a: int| 0 <= a < counts.len() implies #[trigger] counts@[a].1
                        == source_count(t1, project_id@, counts@[a].0@) && counts@[a].1 > 0 by {
                        lemma_source_step(r, project_id@, i as int, counts@[a].0@);
                        if a < before.len() {
                            assert(counts@[a] == before[a]);
                            assert(before[a].1 == source_count(t, project_id@, before[a].0@));
                        }
                    }
                }
            }
            proof {
                assert forall|k: int|
                    0 <= k < t1.len() && #[trigger] t1[k].project_id@ == project_id@ implies names_source(
                    counts@,
                    t1[k].source@,
                ) by {
                    if k < i {
                        assert(t1[k] == t[k]);
                        assert(names_source(before, t[k].source@));
                        let w = choose|w: int|
                            0 <= w < before.len() && #[trigger] before[w].0@ == t[k].source@;
                        assert(counts@[w].0@ == before[w].0@);
                    } else {
                        assert(counts@[j as int].0@ == e.source@);
                    }
                }
            }
        } else {
            proof {
                assert forall|a: int| 0 <= a < counts.len() implies #[trigger] counts@[a].1
                    == source_count(t1, project_id@, counts@[a].0@) && counts@[a].1 > 0 by {
                    lemma_source_step(r, project_id@, i as int, counts@[a].0@);
                }
                assert forall|k: int|
                    0 <= k < t1.len() && #[trigger] t1[k].project_id@ == project_id@ implies names_source(
                    counts@,
                    t1[k].source@,
                ) by {
                    assert(t1[k] == t[k]);
                }
            }
        }
        i += 1;
    }
    assert(r.take(rows.len() as int) =~= r);
    counts
}

/// The sum of the counts.
pub open spec fn total_count(counts: Seq<(String, usize)>) -> nat
    decreases counts.len(),
{
    if counts.len() == 0 {
        0
    } else {
        total_count(counts.drop_last()) + counts.last().1 as nat
    }
}

/// The keys of the pairs, as text.
pub open spec fn count_keys(counts: Seq<(String, usize)>) -> Seq<Seq<char>> {
    counts.map_values(|c: (String, usize)| c.0@)
}

/// A row of `project_id` whose source is one of `keys`.
pub open spec fn from_any_source(project_id: Seq<char>, keys: Seq<Seq<char>>, e: UrlEntry) -> bool {
    e.project_id@ == project_id && keys.contains(e.source@)
}

proof fn lemma_filter_same_on(rows: Seq<UrlEntry>, p: spec_fn(UrlEntry) -> bool, q: spec_fn(UrlEntry) -> bool)
    requires
        forall|i: int| 0 <= i < rows.len() ==> p(#[trigger] rows[i]) == q(rows[i]),
    ensures
        rows.filter(p).len() == rows.filter(q).len(),
    decreases rows.len(),
{
    if rows.len() > 0 {
        let init = rows.drop_last();
        assert forall|i: int| 0 <= i < init.len() implies p(#[trigger] init[i]) == q(init[i]) by {
            assert(init[i] == rows[i]);
        }
        lemma_filter_same_on(init, p, q);
        assert(rows =~= init.push(rows.last()));
        assert(rows[rows.len() - 1] == rows.last());
        init.lemma_filter_len_push(p, rows.last());
        init.lemma_filter_len_push(q, rows.last());
    }
}

proof fn lemma_filter_split(
    rows: Seq<UrlEntry>,
    p: spec_fn(UrlEntry) -> bool,
    q: spec_fn(UrlEntry) -> bool,
    r: spec_fn(UrlEntry) -> bool,
)
    requires
        forall|e: UrlEntry| #[trigger] p(e) == (q(e) || r(e)),
        forall|e: UrlEntry| #[trigger] q(e) ==> !r(e),
    ensures
        rows.filter(p).len() == rows.filter(q).len() + rows.filter(r).len(),
    decreases rows.len(),
{
    if rows.len() > 0 {
        let init = rows.drop_last();
        lemma_filter_split(init, p, q, r);
        assert(rows =~= init.push(rows.last()));
        init.lemma_filter_len_push(p, rows.last());
        init.lemma_filter_len_push(q, rows.last());
        init.lemma_filter_len_push(r, rows.last());
    }
}

proof fn lemma_total_over_keys(rows: Seq<UrlEntry>, project_id: Seq<char>, counts: Seq<(String, usize)>)
    requires
        forall|a: int, b: int|
            0 <= a < b < counts.len() ==> #[trigger] counts[a].0@ != #[trigger] counts[b].0@,
        forall|a: int|
            0 <= a < counts.len() ==> #[trigger] counts[a].1 == source_count(
                rows,
                project_id,
                counts[a].0@,
            ),
    ensures
        total_count(counts) == rows.filter(
            |e: UrlEntry| from_any_source(project_id, count_keys(counts), e),
        ).len(),
    decreases counts.len(),
{
    let keys = count_keys(counts);
    if counts.len() == 0 {
        let none = |e: UrlEntry| from_any_source(project_id, keys, e);
        assert(rows.filter(none) =~= Seq::<UrlEntry>::empty()) by {
            rows.lemma_filter_len(none);
            if rows.filter(none).len() > 0 {
                rows.lemma_filter_pred(none, 0);
            }
        }
    } else {
        let init = counts.drop_last();
        let last = counts.last();
        lemma_total_over_keys(rows, project_id, init);
        let ik = count_keys(init);
        assert(keys =~= ik.push(last.0@));
        assert(counts[counts.len() - 1] == last);
        assert forall|x: Seq<char>| ik.contains(x) implies x != last.0@ by {
            let a = choose|a: int| 0 <= a < ik.len() && ik[a] == x;
            assert(init[a] == counts[a]);
        }
        lemma_filter_split(
            rows,
            |e: UrlEntry| from_any_source(project_id, keys, e),
            |e: UrlEntry| from_any_source(project_id, ik, e),
            |e: UrlEntry| from_source(project_id, last.0@, e),
        );
    }
}

/// The counts by source add up to the number of the project's URLs.
pub proof fn law_source_counts_add_up(
    rows: Seq<UrlEntry>,
    project_id: Seq<char>,
    counts: Seq<(String, usize)>,
)
    requires
        counts_by_source(rows, project_id, counts),
    ensures
        total_count(counts) == rows.filter(|e: UrlEntry| e.project_id@ == project_id).len(),
{
    lemma_total_over_keys(rows, project_id, counts);
    let keys = count_keys(counts);
    assert forall|i: int| 0 <= i < rows.len() implies from_any_source(
        project_id,
        keys,
        #[trigger] rows[i],
    ) == (rows[i].project_id@ == project_id) by {
        if rows[i].project_id@ == project_id {
            assert(names_source(counts, rows[i].source@));
            let j = choose|j: int| 0 <= j < counts.len() && #[trigger] counts[j].0@ == rows[i].source@;
            assert(keys[j] == rows[i].source@);
        }
    }
    lemma_filter_same_on(
        rows,
        |e: UrlEntry| from_any_source(project_id, keys, e),
        |e: UrlEntry| e.project_id@ == project_id,
    );
}

// ---------------------------------------------------------------------------
// Deletion
// ---------------------------------------------------------------------------

/// What deleting a project answers: an error when no row was removed.
pub open spec fn deletion_error(id: Seq<char>) -> Seq<char> {
    "Project with id '"@ + id + "' not found"@
}

/// The outcome of deleting the project `id`, given how many project rows the
/// deletion removed.
pub fn deletion_outcome(id: &str, removed: usize) -> (res: Result<(), String>)
    ensures
        removed > 0 <==> res is Ok,
        res matches Err(e) ==> e@ == deletion_error(id@),
{
    if removed == 0 {
        let mut e = String::from_str("Project with id '");
        e.append(id);
        e.append("' not found");
        Err(e)
    } else {
        Ok(())
    }
}

} // verus!
