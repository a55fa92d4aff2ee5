//! Sitemap parsing: the `<loc>` URLs of a `<urlset>` or `<sitemapindex>`
//! document, and whether a document is a sitemap index.
use vstd::prelude::*;
use vstd::string::StringExecFns;
use quick_xml::events::Event;
use quick_xml::name::LocalName;
use std::borrow::Cow;

use crate::text::{chars_of, dec_digits, push_decimal, trim, trim_bounds};

verus! {

/// One event of the XML reader, with what the sitemap logic reads of it.
pub enum XmlEvent {
    /// An opening tag, with its local name (namespace prefix removed).
    Start(String),
    /// A closing tag, with its local name.
    End(String),
    /// A self-closing tag, with its local name.
    Empty(String),
    /// Text content: its unescaped text, or the message of the unescaping error.
    Text(Result<String, String>),
    /// CDATA, a comment, the XML declaration, a processing instruction or a
    /// DOCTYPE, none of which the sitemap logic reads.
    Other,
    /// The end of the document.
    Eof,
    /// A syntax error: the reader's error position and the error's message.
    Failed(u64, String),
}

pub open spec fn is_terminal(e: XmlEvent) -> bool {
    e is Eof || e is Failed
}

/// A finished stream of reader events: it ends with the end of the document
/// or an error, and holds no such event before.
pub open spec fn xml_stream_ends(events: Seq<XmlEvent>) -> bool {
    &&& events.len() > 0
    &&& is_terminal(events.last())
    &&& forall|i: int| 0 <= i < events.len() - 1 ==> !is_terminal(#[trigger] events[i])
}

#[verifier::external_type_specification]
#[verifier::external_body]
#[verifier::reject_recursive_types(R)]
pub struct ExXmlReader<R>(quick_xml::Reader<R>);

/// The events that `quick_xml::Reader::from_str(xml)` with `trim_text(true)`
/// yields through `read_event`, up to and including the first `Eof` or error.
pub uninterp spec fn xml_events(xml: Seq<char>) -> Seq<XmlEvent>;

/// The events that a reader still has to yield, up to and including the
/// first `Eof` or error.
pub uninterp spec fn xml_pending(reader: quick_xml::Reader<&[u8]>) -> Seq<XmlEvent>;

/// `quick_xml::Reader::from_str(xml)` with `config_mut().trim_text(true)`.
/// The reader yields its events and then `Eof` or an error, as a reader on a
/// finite slice does: each event other than `Eof` consumes input.
#[verifier::external_body]
fn open_xml_reader<'a>(xml: &'a str) -> (r: quick_xml::Reader<&'a [u8]>)
    ensures
        xml_pending(r) == xml_events(xml@),
        xml_stream_ends(xml_pending(r)),
{
    let mut reader = quick_xml::Reader::from_str(xml);
    reader.config_mut().trim_text(true);
    reader
}

/// `quick_xml::Reader::read_event`, converted: tag names by `local_name`
/// (UTF-8 of a `&str` input), text by `BytesText::unescape`, an error with
/// `error_position` and its `Display` message; the kinds of event that carry
/// nothing the sitemap logic reads become `Other`.
#[verifier::external_body]
fn next_xml_event(r: &mut quick_xml::Reader<&[u8]>) -> (ev: XmlEvent)
    requires
        xml_pending(*old(r)).len() > 0,
    ensures
        ev == xml_pending(*old(r))[0],
        xml_pending(*final(r)) == xml_pending(*old(r)).drop_first(),
{
    let name = |n: LocalName| String::from_utf8_lossy(n.as_ref()).into_owned();
    match r.read_event() {
        Ok(Event::Start(e)) => XmlEvent::Start(name(e.local_name())),
        Ok(Event::End(e)) => XmlEvent::End(name(e.local_name())),
        Ok(Event::Empty(e)) => XmlEvent::Empty(name(e.local_name())),
        Ok(Event::Text(e)) => XmlEvent::Text(e.unescape().map(Cow::into_owned).map_err(|x| x.to_string())),
        Ok(Event::Eof) => XmlEvent::Eof,
        Ok(_) => XmlEvent::Other,
        Err(e) => XmlEvent::Failed(r.error_position(), e.to_string()),
    }
}

fn is_terminal_event(e: &XmlEvent) -> (b: bool)
    ensures
        b == is_terminal(*e),
{
    match e {
        XmlEvent::Eof => true,
        XmlEvent::Failed(_, _) => true,
        _ => false,
    }
}

/// All events of an XML document, up to and including the end of the
/// document or the first error.
pub fn read_xml_events(xml: &str) -> (events: Vec<XmlEvent>)
    ensures
        events@ == xml_events(xml@),
        xml_stream_ends(events@),
{
    let mut reader = open_xml_reader(xml);
    let ghost all = xml_events(xml@);
    let mut events: Vec<XmlEvent> = Vec::new();
    loop
        invariant_except_break
            events.len() < all.len(),
            events@ == all.take(events.len() as int),
            xml_pending(reader) == all.skip(events.len() as int),
        invariant
            all == xml_events(xml@),
            xml_stream_ends(all),
        ensures
            events@ == all,
        decreases xml_pending(reader).len(),
    {
        let ghost k = events.len() as int;
        let ev = next_xml_event(&mut reader);
        assert(ev == all[k]);
        let stop = is_terminal_event(&ev);
        events.push(ev);
        assert(events@ =~= all.take(k + 1));
        assert(xml_pending(reader) =~= all.skip(k + 1));
        if stop {
            assert(k == all.len() - 1);
            assert(events@ =~= all);
            break;
        }
    }
    events
}

// ---------------------------------------------------------------------------
// <loc> extraction
// ---------------------------------------------------------------------------

/// The message for a text that cannot be unescaped.
pub open spec fn unescape_message(err: Seq<char>) -> Seq<char> {
    "Failed to unescape XML text: "@ + err
}

/// The message for a syntax error of the document.
pub open spec fn parse_error_message(position: u64, err: Seq<char>) -> Seq<char> {
    "XML parse error at position "@ + dec_digits(position as nat) + ": "@ + err
}

/// The `<loc>` texts of `events[i..]`, given whether a `<loc>` is open and
/// the texts found so far: each text inside `<loc>`, trimmed, if not empty.
/// The end of the document gives the texts; an error, its message.
pub open spec fn loc_scan(events: Seq<XmlEvent>, i: int, inside: bool, acc: Seq<Seq<char>>) -> Result<
    Seq<Seq<char>>,
    Seq<char>,
>
    decreases events.len() - i,
{
    if i < 0 || i >= events.len() {
        Ok(acc)
    } else {
        match events[i] {
            XmlEvent::Start(name) => loc_scan(events, i + 1, inside || name@ == "loc"@, acc),
            XmlEvent::End(name) => loc_scan(events, i + 1, inside && name@ != "loc"@, acc),
            XmlEvent::Text(t) => if inside {
                match t {
                    Err(e) => Err(unescape_message(e@)),
                    Ok(text) => {
                        let tt = trim(text@);
                        loc_scan(
                            events,
                            i + 1,
                            inside,
                            if tt.len() > 0 {
                                acc.push(tt)
                            } else {
                                acc
                            },
                        )
                    },
                }
            } else {
                loc_scan(events, i + 1, inside, acc)
            },
            XmlEvent::Eof => Ok(acc),
            XmlEvent::Failed(pos, msg) => Err(parse_error_message(pos, msg@)),
            _ => loc_scan(events, i + 1, inside, acc),
        }
    }
}

/// What `parse_sitemap_xml` gives for a list of reader events.
pub open spec fn spec_sitemap_locs(events: Seq<XmlEvent>) -> Result<Seq<Seq<char>>, Seq<char>> {
    loc_scan(events, 0, false, Seq::empty())
}

pub open spec fn locs_result_view(r: Result<Vec<String>, String>) -> Result<
    Seq<Seq<char>>,
    Seq<char>,
> {
    match r {
        Ok(v) => Ok(v.deep_view()),
        Err(e) => Err(e@),
    }
}

/// `s` trimmed of white space, as a new string.
pub fn trimmed(s: &String) -> (t: String)
    ensures
        t@ == trim(s@),
{
    let chars = chars_of(s.as_str());
    let (a, b) = trim_bounds(&chars, 0, chars.len());
    assert(chars@.subrange(0, chars.len() as int) =~= s@);
    let mut t = String::new();
    let mut k = a;
    while k < b
        invariant
            a <= k <= b <= chars.len(),
            t@ == chars@.subrange(a as int, k as int),
        decreases b - k,
    {
        crate::text::push_char(&mut t, chars[k]);
        assert(t@ =~= chars@.subrange(a as int, k + 1));
        k += 1;
    }
    t
}

/// The `<loc>` URLs of a sitemap's reader events: the trimmed, non-empty
/// text of every `<loc>` element, in document order.
pub fn sitemap_locs(events: &Vec<XmlEvent>) -> (res: Result<Vec<String>, String>)
    ensures
        locs_result_view(res) == spec_sitemap_locs(events@),
{
    let loc = String::from_str("loc");
    let mut urls: Vec<String> = Vec::new();
    let mut inside = false;
    let mut i: usize = 0;
    assert(urls.deep_view() =~= Seq::<Seq<char>>::empty());
    while i < events.len()
        invariant
            i <= events.len(),
            loc@ == "loc"@,
            spec_sitemap_locs(events@) == loc_scan(events@, i as int, inside, urls.deep_view()),
        decreases events.len() - i,
    {
        match &events[i] {
            XmlEvent::Start(name) => {
                if *name == loc {
                    inside = true;
                }
            },
            XmlEvent::End(name) => {
                if *name == loc {
                    inside = false;
                }
            },
            XmlEvent::Text(t) => {
                if inside {
                    match t {
                        Err(e) => {
                            let mut msg = String::from_str("Failed to unescape XML text: ");
                            msg.append(e.as_str());
                            return Err(msg);
                        },
                        Ok(text) => {
                            let tt = trimmed(text);
                            if !tt.as_str().is_empty() {
                                let ghost old_urls = urls.deep_view();
                                urls.push(tt);
                                assert(urls.deep_view() =~= old_urls.push(tt@));
                            }
                        },
                    }
                }
            },
            XmlEvent::Eof => {
                return Ok(urls);
            },
            XmlEvent::Failed(pos, message) => {
                let mut msg = String::from_str("XML parse error at position ");
                push_decimal(&mut msg, *pos);
                msg.append(": ");
                msg.append(message.as_str());
                return Err(msg);
            },
            _ => {},
        }
        i += 1;
    }
    Ok(urls)
}

/// Parse sitemap XML content and extract all `<loc>` URLs.
///
/// Works for both `<urlset>` (standard sitemaps) and `<sitemapindex>` (sitemap
/// index files): the trimmed, non-empty text content of every `<loc>` element.
pub fn parse_sitemap_xml(xml: &str) -> (res: Result<Vec<String>, String>)
    ensures
        locs_result_view(res) == spec_sitemap_locs(xml_events(xml@)),
{
    let events = read_xml_events(xml);
    sitemap_locs(&events)
}

// ---------------------------------------------------------------------------
// Sitemap index detection
// ---------------------------------------------------------------------------

/// Whether the first `<sitemapindex>` or `<urlset>` opening tag among
/// `events[i..]` is `<sitemapindex>`; false when an error or the end of the
/// document comes first.
pub open spec fn index_scan(events: Seq<XmlEvent>, i: int) -> bool
    decreases events.len() - i,
{
    if i < 0 || i >= events.len() {
        false
    } else {
        match events[i] {
            XmlEvent::Start(name) => if name@ == "sitemapindex"@ {
                true
            } else if name@ == "urlset"@ {
                false
            } else {
                index_scan(events, i + 1)
            },
            XmlEvent::Eof => false,
            XmlEvent::Failed(_, _) => false,
            _ => index_scan(events, i + 1),
        }
    }
}

/// Whether reader events describe a sitemap index: `<sitemapindex>` opens
/// before any `<urlset>`, error or end of document.
pub fn starts_as_sitemap_index(events: &Vec<XmlEvent>) -> (b: bool)
    ensures
        b == index_scan(events@, 0),
{
    let index_tag = String::from_str("sitemapindex");
    let urlset_tag = String::from_str("urlset");
    let mut i: usize = 0;
    while i < events.len()
        invariant
            i <= events.len(),
            index_tag@ == "sitemapindex"@,
            urlset_tag@ == "urlset"@,
            index_scan(events@, 0) == index_scan(events@, i as int),
        decreases events.len() - i,
    {
        match &events[i] {
            XmlEvent::Start(name) => {
                if *name == index_tag {
                    return true;
                }
                if *name == urlset_tag {
                    return false;
                }
            },
            XmlEvent::Eof => {
                return false;
            },
            XmlEvent::Failed(_, _) => {
                return false;
            },
            _ => {},
        }
        i += 1;
    }
    false
}

/// Check whether the XML content represents a sitemap index file: its root
/// element is `<sitemapindex>` (holding `<sitemap>` children) rather than
/// `<urlset>`.
pub fn is_sitemap_index(xml: &str) -> (b: bool)
    ensures
        b == index_scan(xml_events(xml@), 0),
{
    let events = read_xml_events(xml);
    starts_as_sitemap_index(&events)
}

// ---------------------------------------------------------------------------
// De-duplication
// ---------------------------------------------------------------------------

/// `s` with each string kept at its first occurrence only.
pub open spec fn dedup(s: Seq<Seq<char>>) -> Seq<Seq<char>>
    decreases s.len(),
{
    if s.len() == 0 {
        Seq::empty()
    } else {
        let prev = dedup(s.drop_last());
        if prev.contains(s.last()) {
            prev
        } else {
            prev.push(s.last())
        }
    }
}

/// De-duplication keeps each string once and loses none: the result repeats
/// no element, and holds exactly the elements of the input.
pub proof fn law_dedup_distinct_and_complete(s: Seq<Seq<char>>)
    ensures
        dedup(s).no_duplicates(),
        forall|x: Seq<char>| dedup(s).contains(x) <==> s.contains(x),
    decreases s.len(),
{
    if s.len() > 0 {
        let prev = dedup(s.drop_last());
        law_dedup_distinct_and_complete(s.drop_last());
        assert(s =~= s.drop_last().push(s.last()));
        assert forall|x: Seq<char>| dedup(s).contains(x) <==> s.contains(x) by {
            if s.contains(x) && x != s.last() {
                let k = choose|k: int| 0 <= k < s.len() && s[k] == x;
                assert(s.drop_last()[k] == x);
            }
            if s.drop_last().contains(x) {
                let k = choose|k: int| 0 <= k < s.drop_last().len() && s.drop_last()[k] == x;
                assert(s[k] == x);
            }
            if !prev.contains(s.last()) {
                assert(prev.push(s.last())[prev.len() as int] == s.last());
                if prev.contains(x) {
                    let k = choose|k: int| 0 <= k < prev.len() && prev[k] == x;
                    assert(prev.push(s.last())[k] == x);
                }
                if prev.push(s.last()).contains(x) && x != s.last() {
                    let k = choose|k: int| 0 <= k < prev.len() + 1 && prev.push(s.last())[k] == x;
                    assert(prev[k] == x);
                }
            }
            assert(s[s.len() - 1] == s.last());
        }
    }
}

/// A finished crawl yields each URL at most once.
pub proof fn law_crawl_urls_distinct(
    pending: Seq<(Seq<char>, nat)>,
    found: Seq<Seq<char>>,
    after: SitemapCrawl,
    action: CrawlAction,
)
    requires
        SitemapCrawl::advanced(pending, found, after, action),
    ensures
        action matches CrawlAction::Done(Ok(urls)) ==> urls.deep_view().no_duplicates(),
{
    law_dedup_distinct_and_complete(found);
}

/// The strings of `v`, each kept once, in the order of first occurrence.
pub fn dedup_strings(v: &Vec<String>) -> (out: Vec<String>)
    ensures
        out.deep_view() == dedup(v.deep_view()),
{
    let ghost vs = v.deep_view();
    let mut out: Vec<String> = Vec::new();
    let mut i: usize = 0;
    assert(out.deep_view() =~= dedup(vs.take(0)));
    while i < v.len()
        invariant
            i <= v.len(),
            vs == v.deep_view(),
            out.deep_view() == dedup(vs.take(i as int)),
        decreases v.len() - i,
    {
        assert(vs.take(i + 1).drop_last() =~= vs.take(i as int));
        assert(vs.take(i + 1).last() == v@[i as int]@);
        if !crate::csv_import::contains_string(&out, &v[i]) {
            let ghost old_out = out.deep_view();
            out.push(v[i].clone());
            assert(out.deep_view() =~= old_out.push(v@[i as int]@));
        }
        i += 1;
    }
    assert(vs.take(v.len() as int) =~= vs);
    out
}

// ---------------------------------------------------------------------------
// Crawling a sitemap and its nested sitemaps
// ---------------------------------------------------------------------------

// ---------------------------------------------------------------------------
// The outcome of a whole crawl
// ---------------------------------------------------------------------------

/// What came back for one sitemap fetch.
pub enum SitemapReply {
    /// The request failed with this message.
    Unreachable(Seq<char>),
    /// A status outside 200-299, with how it prints.
    Status(u16, Seq<char>),
    /// A success status, then the body or the error met reading it.
    Body(Result<Seq<char>, Seq<char>>),
}

/// The outcome of a crawl with the sitemaps `pending` still to fetch (the
/// last first, with their depth) and the URLs `found` so far, when the
/// fetches get `replies` in order: the de-duplicated URLs of every plain
/// sitemap read, in the order read, following sitemap indexes depth first,
/// their children one level deeper and none below level 1; a 404 skips its
/// sitemap; any other failure ends the crawl with its error. Nothing when
/// the replies run out first.
pub open spec fn crawl_outcome(
    pending: Seq<(Seq<char>, nat)>,
    found: Seq<Seq<char>>,
    replies: Seq<SitemapReply>,
) -> Option<Result<Seq<Seq<char>>, Seq<char>>>
    decreases replies.len(),
{
    if pending.len() == 0 {
        Some(Ok(dedup(found)))
    } else if replies.len() == 0 {
        None
    } else {
        let url = pending.last().0;
        let depth = pending.last().1;
        let rest = pending.drop_last();
        let more = replies.drop_first();
        match replies[0] {
            SitemapReply::Unreachable(e) => Some(Err("Failed to fetch "@ + url + ": "@ + e)),
            SitemapReply::Status(code, text) => if code == 404 {
                crawl_outcome(rest, found, more)
            } else {
                Some(Err("HTTP "@ + text + " when fetching "@ + url))
            },
            SitemapReply::Body(Err(e)) => Some(
                Err("Failed to read response body from "@ + url + ": "@ + e),
            ),
            SitemapReply::Body(Ok(text)) => match spec_sitemap_locs(xml_events(text)) {
                Err(m) => Some(Err(m)),
                Ok(urls) => if index_scan(xml_events(text), 0) {
                    crawl_outcome(
                        rest + if depth > 1 {
                            child_frames(urls, (depth - 1) as nat)
                        } else {
                            Seq::empty()
                        },
                        found,
                        more,
                    )
                } else {
                    crawl_outcome(rest, found + urls, more)
                },
            },
        }
    }
}

/// The reply that a body, or the error met reading it, stands for.
pub open spec fn body_reply(body: Result<String, String>) -> SitemapReply {
    SitemapReply::Body(
        match body {
            Ok(t) => Ok(t@),
            Err(e) => Err(e@),
        },
    )
}

/// The outcome of the crawl from where `after` stands, given `action`: the
/// result of a finished crawl, or the outcome of the rest of the replies.
pub open spec fn crawl_next(after: SitemapCrawl, action: CrawlAction, rest: Seq<SitemapReply>) -> Option<
    Result<Seq<Seq<char>>, Seq<char>>,
> {
    match action {
        CrawlAction::Done(r) => Some(
            match r {
                Ok(v) => Ok(v.deep_view()),
                Err(e) => Err(e@),
            },
        ),
        _ => crawl_outcome(after.pending().push(after.current()), after.found(), rest),
    }
}

/// One step keeps the outcome of the crawl: for whatever replies follow,
/// the outcome before the step with `reply` first is the outcome after it.
/// Chained over every step, a crawl driven to its end yields
/// `crawl_outcome` of its root sitemap and all the replies it got.
pub open spec fn keeps_outcome(
    pending: Seq<(Seq<char>, nat)>,
    found: Seq<Seq<char>>,
    reply: SitemapReply,
    after: SitemapCrawl,
    action: CrawlAction,
) -> bool {
    forall|rest: Seq<SitemapReply>|
        #[trigger] crawl_outcome(pending, found, seq![reply] + rest) == crawl_next(after, action, rest)
}

proof fn lemma_advanced_next(
    pending: Seq<(Seq<char>, nat)>,
    found: Seq<Seq<char>>,
    after: SitemapCrawl,
    action: CrawlAction,
    rest: Seq<SitemapReply>,
)
    requires
        SitemapCrawl::advanced(pending, found, after, action),
    ensures
        crawl_next(after, action, rest) == crawl_outcome(pending, found, rest),
{
    if pending.len() > 0 {
        assert(after.pending().push(after.current()) =~= pending);
    }
}

proof fn lemma_unfold_first(
    pending: Seq<(Seq<char>, nat)>,
    current: (Seq<char>, nat),
    found: Seq<Seq<char>>,
    reply: SitemapReply,
    rest: Seq<SitemapReply>,
)
    ensures
        ({
            let all = pending.push(current);
            let rs = seq![reply] + rest;
            &&& all.len() > 0
            &&& all.last() == current
            &&& all.drop_last() == pending
            &&& rs.len() > 0
            &&& rs[0] == reply
            &&& rs.drop_first() == rest
        }),
{
    assert(pending.push(current).drop_last() =~= pending);
    assert((seq![reply] + rest).drop_first() =~= rest);
}

/// A crawl that ends with URLs yields each of them once.
pub proof fn law_crawl_outcome_distinct(
    pending: Seq<(Seq<char>, nat)>,
    found: Seq<Seq<char>>,
    replies: Seq<SitemapReply>,
)
    ensures
        crawl_outcome(pending, found, replies) matches Some(Ok(v)) ==> v.no_duplicates(),
    decreases replies.len(),
{
    if pending.len() == 0 {
        law_dedup_distinct_and_complete(found);
    } else if replies.len() > 0 {
        let depth = pending.last().1;
        let rest = pending.drop_last();
        let more = replies.drop_first();
        match replies[0] {
            SitemapReply::Status(code, _) => {
                law_crawl_outcome_distinct(rest, found, more);
            },
            SitemapReply::Body(Ok(text)) => {
                if let Ok(urls) = spec_sitemap_locs(xml_events(text)) {
                    law_crawl_outcome_distinct(
                        rest + if depth > 1 {
                            child_frames(urls, (depth - 1) as nat)
                        } else {
                            Seq::empty()
                        },
                        found,
                        more,
                    );
                    law_crawl_outcome_distinct(rest, found + urls, more);
                }
            },
            _ => {},
        }
    }
}

/// How deep nested sitemap indexes are followed: the root sitemap is level 1.
pub open spec fn max_sitemap_depth() -> nat {
    3
}

/// Where a crawl stands.
pub enum CrawlPhase {
    /// A sitemap URL has been handed out; its reply is awaited.
    AwaitReply,
    /// The reply was a success; its body is awaited.
    AwaitBody,
    /// The crawl is over.
    Finished,
}

/// What the caller does next for a crawl.
pub enum CrawlAction {
    /// Fetch this sitemap URL and report the reply (`on_status`) or the
    /// request's failure (`on_request_error`).
    Fetch(String),
    /// Read the body of the current reply and report it (`on_body`).
    ReadBody,
    /// The crawl is over: the collected URLs, each once and in the order first
    /// found, or the error that stopped it.
    Done(Result<Vec<String>, String>),
}

/// The decisions of a sitemap crawl: which sitemap to fetch next, how to read
/// each reply, and when to stop. Nested sitemap indexes are followed depth
/// first, in document order, down to `max_sitemap_depth` levels.
pub struct SitemapCrawl {
    stack: Vec<(String, u32)>,
    found: Vec<String>,
    current: (String, u32),
    phase: CrawlPhase,
}

pub open spec fn frames_view(v: Seq<(String, u32)>) -> Seq<(Seq<char>, nat)> {
    v.map_values(|f: (String, u32)| (f.0@, f.1 as nat))
}

/// Sitemap URLs still to fetch with their depth; the last one is next.
pub open spec fn child_frames(urls: Seq<Seq<char>>, depth: nat) -> Seq<(Seq<char>, nat)> {
    Seq::new(urls.len(), |i: int| (urls[urls.len() - 1 - i], depth))
}

impl SitemapCrawl {
    /// The sitemaps still to fetch, with their depth; the last is fetched next.
    pub closed spec fn pending(self) -> Seq<(Seq<char>, nat)> {
        frames_view(self.stack@)
    }

    /// The URLs collected so far from plain sitemaps, in document order.
    pub closed spec fn found(self) -> Seq<Seq<char>> {
        self.found.deep_view()
    }

    /// The sitemap being fetched, with its depth.
    pub closed spec fn current(self) -> (Seq<char>, nat) {
        (self.current.0@, self.current.1 as nat)
    }

    pub closed spec fn phase(self) -> CrawlPhase {
        self.phase
    }

    /// Every sitemap handed out or pending has a depth from 1 to the maximum.
    pub open spec fn wf(self) -> bool {
        &&& 1 <= self.current().1 <= max_sitemap_depth()
        &&& forall|i: int|
            0 <= i < self.pending().len() ==> 1 <= #[trigger] self.pending()[i].1
                <= max_sitemap_depth()
    }

    /// The crawl after moving on from `pending` and `found`: the next pending
    /// sitemap is handed out, or, with none left, the crawl ends with the
    /// de-duplicated URLs.
    pub open spec fn advanced(
        pending: Seq<(Seq<char>, nat)>,
        found: Seq<Seq<char>>,
        after: SitemapCrawl,
        action: CrawlAction,
    ) -> bool {
        &&& after.found() == found
        &&& if pending.len() == 0 {
            &&& after.phase() is Finished
            &&& action matches CrawlAction::Done(Ok(urls))
            &&& urls.deep_view() == dedup(found)
        } else {
            &&& after.phase() is AwaitReply
            &&& after.current() == pending.last()
            &&& after.pending() == pending.drop_last()
            &&& action matches CrawlAction::Fetch(url)
            &&& url@ == pending.last().0
        }
    }

    fn advance(&mut self) -> (action: CrawlAction)
        requires
            forall|i: int|
                0 <= i < old(self).pending().len() ==> 1 <= #[trigger] old(self).pending()[i].1
                    <= max_sitemap_depth(),
            1 <= old(self).current().1 <= max_sitemap_depth(),
        ensures
            final(self).wf(),
            Self::advanced(old(self).pending(), old(self).found(), *final(self), action),
    {
        let ghost old_pending = self.pending();
        match self.stack.pop() {
            Some(frame) => {
                assert(self.stack@ =~= old(self).stack@.drop_last());
                assert(old_pending.last() == (frame.0@, frame.1 as nat));
                assert(self.pending() =~= old_pending.drop_last());
                let url = frame.0.clone();
                self.current = frame;
                self.phase = CrawlPhase::AwaitReply;
                CrawlAction::Fetch(url)
            },
            None => {
                self.phase = CrawlPhase::Finished;
                CrawlAction::Done(Ok(dedup_strings(&self.found)))
            },
        }
    }

    /// Begins the crawl of `https://{domain}/sitemap.xml`.
    pub fn start(domain: &str) -> (res: (SitemapCrawl, CrawlAction))
        ensures
            res.0.wf(),
            res.0.phase() is AwaitReply,
            res.0.pending().len() == 0,
            res.0.found().len() == 0,
            res.0.current() == ("https://"@ + domain@ + "/sitemap.xml"@, max_sitemap_depth()),
            res.0.pending().push(res.0.current()) == seq![
                ("https://"@ + domain@ + "/sitemap.xml"@, max_sitemap_depth()),
            ],
            res.1 matches CrawlAction::Fetch(url) && url@ == res.0.current().0,
    {
        let mut root = String::from_str("https://");
        root.append(domain);
        root.append("/sitemap.xml");
        let crawl = SitemapCrawl {
            stack: Vec::new(),
            found: Vec::new(),
            current: (root.clone(), 3),
            phase: CrawlPhase::AwaitReply,
        };
        assert(crawl.pending() =~= Seq::<(Seq<char>, nat)>::empty());
        assert(crawl.found() =~= Seq::<Seq<char>>::empty());
        assert(crawl.pending().push(crawl.current()) =~= seq![crawl.current()]);
        (crawl, CrawlAction::Fetch(root))
    }

    /// The request for the current sitemap failed with `error`: the crawl
    /// ends with that error.
    pub fn on_request_error(&mut self, error: &str) -> (action: CrawlAction)
        requires
            old(self).phase() is AwaitReply,
        ensures
            final(self).phase() is Finished,
            action matches CrawlAction::Done(Err(msg)) && msg@ == "Failed to fetch "@ + old(
                self,
            ).current().0 + ": "@ + error@,
            keeps_outcome(
                old(self).pending().push(old(self).current()),
                old(self).found(),
                SitemapReply::Unreachable(error@),
                *final(self),
                action,
            ),
    {
        let mut msg = String::from_str("Failed to fetch ");
        msg.append(self.current.0.as_str());
        msg.append(": ");
        msg.append(error);
        self.phase = CrawlPhase::Finished;
        proof {
            assert forall|rest: Seq<SitemapReply>|
                #[trigger] crawl_outcome(
                    old(self).pending().push(old(self).current()),
                    old(self).found(),
                    seq![SitemapReply::Unreachable(error@)] + rest,
                ) == Some(Err::<Seq<Seq<char>>, Seq<char>>(msg@)) by {
                lemma_unfold_first(
                    old(self).pending(),
                    old(self).current(),
                    old(self).found(),
                    SitemapReply::Unreachable(error@),
                    rest,
                );
            }
        }
        CrawlAction::Done(Err(msg))
    }

    /// The reply for the current sitemap has `status` (`status_text` is how
    /// it prints, such as `500 Internal Server Error`). A 404 skips this
    /// sitemap; another status outside 200-299 ends the crawl with an error; a
    /// success asks for the body.
    pub fn on_status(&mut self, status: u16, status_text: &str) -> (action: CrawlAction)
        requires
            old(self).phase() is AwaitReply,
            old(self).wf(),
        ensures
            final(self).wf(),
            status == 404 ==> Self::advanced(
                old(self).pending(),
                old(self).found(),
                *final(self),
                action,
            ),
            status != 404 && 200 <= status <= 299 ==> {
                &&& final(self).phase() is AwaitBody
                &&& final(self).pending() == old(self).pending()
                &&& final(self).found() == old(self).found()
                &&& final(self).current() == old(self).current()
                &&& action is ReadBody
            },
            status != 404 && !(200 <= status <= 299) ==> {
                &&& final(self).phase() is Finished
                &&& action matches CrawlAction::Done(Err(msg))
                &&& msg@ == "HTTP "@ + status_text@ + " when fetching "@ + old(self).current().0
            },
            !(status != 404 && 200 <= status <= 299) ==> keeps_outcome(
                old(self).pending().push(old(self).current()),
                old(self).found(),
                SitemapReply::Status(status, status_text@),
                *final(self),
                action,
            ),
    {
        let ghost reply = SitemapReply::Status(status, status_text@);
        if status == 404 {
            let action = self.advance();
            proof {
                assert forall|rest: Seq<SitemapReply>|
                    #[trigger] crawl_outcome(
                        old(self).pending().push(old(self).current()),
                        old(self).found(),
                        seq![reply] + rest,
                    ) == crawl_next(*self, action, rest) by {
                    lemma_unfold_first(
                        old(self).pending(),
                        old(self).current(),
                        old(self).found(),
                        reply,
                        rest,
                    );
                    lemma_advanced_next(old(self).pending(), old(self).found(), *self, action, rest);
                }
            }
            action
        } else if 200 <= status && status <= 299 {
            self.phase = CrawlPhase::AwaitBody;
            assert(self.pending() == old(self).pending());
            assert(self.wf());
            CrawlAction::ReadBody
        } else {
            let mut msg = String::from_str("HTTP ");
            msg.append(status_text);
            msg.append(" when fetching ");
            msg.append(self.current.0.as_str());
            self.phase = CrawlPhase::Finished;
            assert(self.pending() == old(self).pending());
            proof {
                assert forall|rest: Seq<SitemapReply>|
                    #[trigger] crawl_outcome(
                        old(self).pending().push(old(self).current()),
                        old(self).found(),
                        seq![reply] + rest,
                    ) == Some(Err::<Seq<Seq<char>>, Seq<char>>(msg@)) by {
                    lemma_unfold_first(
                        old(self).pending(),
                        old(self).current(),
                        old(self).found(),
                        reply,
                        rest,
                    );
                }
            }
            CrawlAction::Done(Err(msg))
        }
    }

    /// The body of the current sitemap, or the error met reading it. A
    /// sitemap index queues its `<loc>` sitemaps one level deeper (none past
    /// the maximum depth); a plain sitemap adds its `<loc>` URLs to the
    /// result; a body that does not parse ends the crawl with the parse error.
    pub fn on_body(&mut self, body: Result<String, String>) -> (action: CrawlAction)
        requires
            old(self).phase() is AwaitBody,
            old(self).wf(),
        ensures
            final(self).wf(),
            match body {
                Err(e) => {
                    &&& final(self).phase() is Finished
                    &&& action matches CrawlAction::Done(Err(msg))
                    &&& msg@ == "Failed to read response body from "@ + old(self).current().0
                        + ": "@ + e@
                },
                Ok(text) => match spec_sitemap_locs(xml_events(text@)) {
                    Err(m) => {
                        &&& final(self).phase() is Finished
                        &&& action matches CrawlAction::Done(Err(msg))
                        &&& msg@ == m
                    },
                    Ok(urls) => if index_scan(xml_events(text@), 0) {
                        Self::advanced(
                            old(self).pending() + if old(self).current().1 > 1 {
                                child_frames(urls, (old(self).current().1 - 1) as nat)
                            } else {
                                Seq::empty()
                            },
                            old(self).found(),
                            *final(self),
                            action,
                        )
                    } else {
                        Self::advanced(
                            old(self).pending(),
                            old(self).found() + urls,
                            *final(self),
                            action,
                        )
                    },
                },
            },
            keeps_outcome(
                old(self).pending().push(old(self).current()),
                old(self).found(),
                body_reply(body),
                *final(self),
                action,
            ),

    {
        let ghost reply = body_reply(body);
        let ghost body_view = body;
        let action = self.take_body(body);
        proof {
            assert forall|rest: Seq<SitemapReply>|
                #[trigger] crawl_outcome(
                    old(self).pending().push(old(self).current()),
                    old(self).found(),
                    seq![reply] + rest,
                ) == crawl_next(*self, action, rest) by {
                lemma_unfold_first(
                    old(self).pending(),
                    old(self).current(),
                    old(self).found(),
                    reply,
                    rest,
                );
                match body_view {
                    Err(e) => {},
                    Ok(text) => match spec_sitemap_locs(xml_events(text@)) {
                        Err(m) => {},
                        Ok(urls) => if index_scan(xml_events(text@), 0) {
                            lemma_advanced_next(
                                old(self).pending() + if old(self).current().1 > 1 {
                                    child_frames(urls, (old(self).current().1 - 1) as nat)
                                } else {
                                    Seq::empty()
                                },
                                old(self).found(),
                                *self,
                                action,
                                rest,
                            );
                        } else {
                            lemma_advanced_next(
                                old(self).pending(),
                                old(self).found() + urls,
                                *self,
                                action,
                                rest,
                            );
                        },
                    },
                }
            }
        }
        action
    }

    /// Reads the body of the current sitemap (see `on_body`).
    fn take_body(&mut self, body: Result<String, String>) -> (action: CrawlAction)
        requires
            old(self).phase() is AwaitBody,
            old(self).wf(),
        ensures
            final(self).wf(),
            match body {
                Err(e) => {
                    &&& final(self).phase() is Finished
                    &&& action matches CrawlAction::Done(Err(msg))
                    &&& msg@ == "Failed to read response body from "@ + old(self).current().0
                        + ": "@ + e@
                },
                Ok(text) => match spec_sitemap_locs(xml_events(text@)) {
                    Err(m) => {
                        &&& final(self).phase() is Finished
                        &&& action matches CrawlAction::Done(Err(msg))
                        &&& msg@ == m
                    },
                    Ok(urls) => if index_scan(xml_events(text@), 0) {
                        Self::advanced(
                            old(self).pending() + if old(self).current().1 > 1 {
                                child_frames(urls, (old(self).current().1 - 1) as nat)
                            } else {
                                Seq::empty()
                            },
                            old(self).found(),
                            *final(self),
                            action,
                        )
                    } else {
                        Self::advanced(
                            old(self).pending(),
                            old(self).found() + urls,
                            *final(self),
                            action,
                        )
                    },
                },
            },
    {
        let text = match body {
            Err(e) => {
                let mut msg = String::from_str("Failed to read response body from ");
                msg.append(self.current.0.as_str());
                msg.append(": ");
                msg.append(e.as_str());
                self.phase = CrawlPhase::Finished;
                assert(msg@ == "Failed to read response body from "@ + old(self).current().0 + ": "@ + e@);
                return CrawlAction::Done(Err(msg));
            },
            Ok(t) => t,
        };
        let events = read_xml_events(text.as_str());
        let urls = match sitemap_locs(&events) {
            Err(m) => {
                self.phase = CrawlPhase::Finished;
                return CrawlAction::Done(Err(m));
            },
            Ok(u) => u,
        };
        if starts_as_sitemap_index(&events) {
            let depth = self.current.1;
            if depth > 1 {
                let ghost base = self.pending();
                let ghost uv = urls.deep_view();
                let mut k = urls.len();
                while k > 0
                    invariant
                        k <= urls.len(),
                        uv == urls.deep_view(),
                        1 < depth <= 3,
                        self.current.1 == depth,
                        self.pending() == base + child_frames(uv, (depth - 1) as nat).take(
                            (urls.len() - k) as int,
                        ),
                        forall|i: int|
                            0 <= i < base.len() ==> 1 <= #[trigger] base[i].1
                                <= max_sitemap_depth(),
                        forall|i: int|
                            0 <= i < self.pending().len() ==> 1 <= #[trigger] self.pending()[i].1
                                <= max_sitemap_depth(),
                        self.current == old(self).current,
                        self.found() == old(self).found(),
                    decreases k,
                {
                    k -= 1;
                    let ghost before = self.pending();
                    self.stack.push((urls[k].clone(), depth - 1));
                    assert(self.pending() =~= before.push((uv[k as int], (depth - 1) as nat)));
                    assert(child_frames(uv, (depth - 1) as nat).take((urls.len() - k) as int)
                        =~= child_frames(uv, (depth - 1) as nat).take(
                        (urls.len() - k - 1) as int,
                    ).push((uv[k as int], (depth - 1) as nat)));
                }
                assert(child_frames(uv, (depth - 1) as nat).take(urls.len() as int) =~= child_frames(
                    uv,
                    (depth - 1) as nat,
                ));
            } else {
                assert(self.pending() =~= self.pending() + Seq::<(Seq<char>, nat)>::empty());
            }
        } else {
            let ghost before = self.found();
            let ghost stack_before = self.pending();
            let mut k: usize = 0;
            while k < urls.len()
                invariant
                    k <= urls.len(),
                    self.pending() == stack_before,
                    self.current == old(self).current,
                    forall|i: int|
                        0 <= i < stack_before.len() ==> 1 <= #[trigger] stack_before[i].1
                            <= max_sitemap_depth(),
                    self.found() == before + urls.deep_view().take(k as int),
                decreases urls.len() - k,
            {
                let ghost prev = self.found();
                self.found.push(urls[k].clone());
                assert(self.found() =~= prev.push(urls@[k as int]@));
                assert(urls.deep_view().take(k + 1) =~= urls.deep_view().take(k as int).push(
                    urls@[k as int]@,
                ));
                k += 1;
            }
            assert(urls.deep_view().take(urls.len() as int) =~= urls.deep_view());
        }
        self.advance()
    }
}

} // verus!
