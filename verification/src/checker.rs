//! URL health checks: title extraction from HTML and the decisions of the
//! redirect-following check.
use vstd::prelude::*;
use vstd::string::{StrSliceExecFns, StringExecFns};

use crate::text::{
    chars_of, find_ci, find_ci_exec, is_ws, lemma_find_ci_from_bounds, lemma_trim_ends, trim,
    trim_bounds,
};

verus! {

/// The opening title tag, in lower case.
pub open spec fn title_open() -> Seq<char> {
    seq!['<', 't', 'i', 't', 'l', 'e', '>']
}

/// The closing title tag, in lower case.
pub open spec fn title_close() -> Seq<char> {
    seq!['<', '/', 't', 'i', 't', 'l', 'e', '>']
}

/// The title of an HTML page: the text between the first `<title>` and the
/// first `</title>` (tags matched without regard to ASCII case), trimmed of
/// white space; nothing when a tag is missing, when the closing tag does not
/// come after the opening one, or when the trimmed text is empty.
pub open spec fn spec_extract_title(html: Seq<char>) -> Option<Seq<char>> {
    match (find_ci(html, title_open()), find_ci(html, title_close())) {
        (Some(start), Some(end)) => if end > start + 7 {
            let t = trim(html.subrange(start + 7, end));
            if t.len() == 0 {
                None
            } else {
                Some(t)
            }
        } else {
            None
        },
        _ => None,
    }
}

/// A title, when a page has one, is never empty and has no white space at
/// either end: trimming it again leaves it as it is.
pub proof fn law_title_trimmed(html: Seq<char>)
    ensures
        spec_extract_title(html) matches Some(t) ==> {
            &&& t.len() > 0
            &&& !is_ws(t[0])
            &&& !is_ws(t.last())
            &&& trim(t) == t
        },
{
    if let (Some(start), Some(end)) = (find_ci(html, title_open()), find_ci(html, title_close())) {
        lemma_trim_ends(html.subrange(start + 7, end));
    }
}

/// Extract `<title>` from HTML using a simple string search (no heavy parser).
pub fn extract_title(html: &str) -> (res: Option<String>)
    ensures
        res.deep_view() == spec_extract_title(html@),
{
    let chars = chars_of(html);
    let open: Vec<char> = vec!['<', 't', 'i', 't', 'l', 'e', '>'];
    let close: Vec<char> = vec!['<', '/', 't', 'i', 't', 'l', 'e', '>'];
    assert(open@ == title_open());
    assert(close@ == title_close());
    let start = match find_ci_exec(&chars, &open) {
        Some(i) => i,
        None => {
            return None;
        },
    };
    let end = match find_ci_exec(&chars, &close) {
        Some(i) => i,
        None => {
            return None;
        },
    };
    proof {
        lemma_find_ci_from_bounds(html@, title_open(), 0);
        lemma_find_ci_from_bounds(html@, title_close(), 0);
    }
    if end > start + 7 {
        let (a, b) = trim_bounds(&chars, start + 7, end);
        if a == b {
            None
        } else {
            let t = html.substring_char(a, b).to_string();
            Some(t)
        }
    } else {
        None
    }
}

// ---------------------------------------------------------------------------
// The redirect-following check of one URL
// ---------------------------------------------------------------------------

/// The health of one URL: the final status (0 when no response came), the
/// time taken, the page title (status 200 only), the URLs that redirected,
/// in order, and the error that stopped the check, if any.
pub struct CheckResult {
    pub url: String,
    pub http_status: i32,
    pub response_time_ms: i64,
    pub title: Option<String>,
    pub redirect_chain: Vec<String>,
    pub error: Option<String>,
}

/// At most this many redirects are followed.
pub open spec fn max_redirects() -> nat {
    10
}

/// The scheme of `url` and its host, if any, as `url::Url::parse` reads
/// them; nothing when the URL does not parse.
pub uninterp spec fn url_scheme_host(url: Seq<char>) -> Option<(Seq<char>, Option<Seq<char>>)>;

/// `url::Url::parse(url)`, then `scheme()` and `host_str()` of the result.
#[verifier::external_body]
fn scheme_and_host(url: &str) -> (res: Option<(String, Option<String>)>)
    ensures
        res.deep_view() == url_scheme_host(url@),
{
    url::Url::parse(url).ok().map(|u| (u.scheme().to_string(), u.host_str().map(|h| h.to_string())))
}

/// Where a `Location` header leads from `current`: a path starting with `/`
/// is resolved against the scheme and host of `current` (kept as it is when
/// `current` does not parse); anything else is taken as it stands.
pub open spec fn next_location(current: Seq<char>, location: Seq<char>) -> Seq<char> {
    if location.len() > 0 && location[0] == '/' {
        match url_scheme_host(current) {
            Some((scheme, host)) => scheme + "://"@ + match host {
                Some(h) => h,
                None => Seq::empty(),
            } + location,
            None => location,
        }
    } else {
        location
    }
}

/// The URL that a redirect from `current` to `location` leads to.
pub fn resolve_location(current: &str, location: &str) -> (next: String)
    ensures
        next@ == next_location(current@, location@),
{
    let starts_with_slash = !location.is_empty() && location.get_char(0) == '/';
    if starts_with_slash {
        match scheme_and_host(current) {
            Some((scheme, host)) => {
                let mut next = scheme;
                next.append("://");
                match host {
                    Some(h) => next.append(h.as_str()),
                    None => {},
                }
                next.append(location);
                next
            },
            None => String::from_str(location),
        }
    } else {
        String::from_str(location)
    }
}

/// Where a URL check stands.
pub enum WalkPhase {
    /// A request has been handed out; its response or failure is awaited.
    AwaitResponse,
    /// A response that is not a followed redirect came: the check is complete.
    Final,
    /// The check stopped without such a response: the request failed, a
    /// redirect led back to a URL already visited, or the redirect limit was
    /// reached.
    Stopped,
}

/// What the caller does next for a URL check.
pub enum WalkStep {
    /// Request this URL (without following redirects) and report the
    /// response (`on_response`) or the failure (`on_error`).
    Request(String),
    /// The last response is final; when the flag is set (status 200 with an
    /// HTML content type), read its body for the title. Then call `finish`.
    Final(bool),
    /// The check stopped; call `finish`.
    Stopped,
}

/// A `Content-Type` that announces HTML: it holds `html`, in any ASCII case
/// (`text/html`, `application/xhtml+xml`, with or without parameters).
pub open spec fn is_html_type(content_type: Option<Seq<char>>) -> bool {
    match content_type {
        Some(t) => find_ci(t, seq!['h', 't', 'm', 'l']) is Some,
        None => false,
    }
}

fn is_html_type_exec(content_type: &Option<String>) -> (b: bool)
    ensures
        b == is_html_type(content_type.deep_view()),
{
    match content_type {
        Some(t) => {
            let chars = chars_of(t.as_str());
            let pat: Vec<char> = vec!['h', 't', 'm', 'l'];
            assert(pat@ == seq!['h', 't', 'm', 'l']);
            find_ci_exec(&chars, &pat).is_some()
        },
        None => false,
    }
}

/// The error of a check stopped by a redirect back to a URL already visited.
pub open spec fn loop_error() -> Seq<char> {
    "Redirect loop detected (URL already visited)"@
}

/// The error of a check stopped at the redirect limit.
pub open spec fn too_many_redirects_error() -> Seq<char> {
    "Too many redirects (possible redirect loop)"@
}

/// Over a whole check: the URLs requested number one to ten, start with the
/// URL checked and never repeat; the redirect chain is, in order, the URLs
/// requested that answered with a followed redirect, which is all of them but
/// the last unless the check stopped on a redirect (a loop or the limit).
pub proof fn law_check_requests(w: RedirectWalk)
    requires
        w.wf(),
    ensures
        1 <= w.requested().len() <= max_redirects(),
        w.requested()[0] == w.url(),
        w.requested().no_duplicates(),
        w.chain() == w.requested().take(w.chain().len() as int),
        w.stopped_on_redirect() ==> w.chain() == w.requested(),
        !w.stopped_on_redirect() ==> w.chain().len() + 1 == w.requested().len(),
{
    if w.stopped_on_redirect() {
        assert(w.requested().take(w.chain().len() as int) =~= w.chain());
    } else {
        assert(w.requested().take(w.chain().len() as int) =~= w.chain());
        if w.chain().len() > 0 {
            assert(w.requested()[0] == w.chain()[0]);
        }
    }
}

/// The decisions of a URL check: follow redirects by hand, record each hop,
/// stop when a redirect leads back to a URL already visited, at the redirect
/// limit, or at a failed request.
pub struct RedirectWalk {
    url: String,
    current: String,
    chain: Vec<String>,
    status: i32,
    html: bool,
    error: Option<String>,
    looped: bool,
    phase: WalkPhase,
    requested: Ghost<Seq<Seq<char>>>,
}

impl RedirectWalk {
    /// The URL being checked.
    pub closed spec fn url(self) -> Seq<char> {
        self.url@
    }

    /// The URL requested last, or, after a redirect that stopped the check,
    /// the URL it pointed to.
    pub closed spec fn current(self) -> Seq<char> {
        self.current@
    }

    /// The URLs that answered with a followed redirect, in order.
    pub closed spec fn chain(self) -> Seq<Seq<char>> {
        self.chain.deep_view()
    }

    /// The status of the last response, 0 before any.
    pub closed spec fn status(self) -> i32 {
        self.status
    }

    /// The last response announced HTML.
    pub closed spec fn html(self) -> bool {
        self.html
    }

    /// The failure of the last request, if it failed.
    pub closed spec fn error(self) -> Option<Seq<char>> {
        self.error.deep_view()
    }

    /// The check stopped on a redirect back to a URL already visited.
    pub closed spec fn looped(self) -> bool {
        self.looped
    }

    pub closed spec fn phase(self) -> WalkPhase {
        self.phase
    }

    /// The URLs requested so far, in order.
    pub closed spec fn requested(self) -> Seq<Seq<char>> {
        self.requested@
    }

    /// The check stopped on a redirect (a loop or the limit), so the last
    /// location was not requested.
    pub open spec fn stopped_on_redirect(self) -> bool {
        self.phase() is Stopped && self.error() is None
    }

    /// The chain never exceeds the limit, visits no URL twice and starts with
    /// the URL checked; the URLs requested are the chain and, unless the check
    /// stopped on a redirect, the URL requested last, which is then not in
    /// the chain. While a request is awaited the limit is not reached.
    pub open spec fn wf(self) -> bool {
        &&& self.chain().len() <= max_redirects()
        &&& self.chain().no_duplicates()
        &&& self.requested().no_duplicates()
        &&& self.chain().len() > 0 ==> self.chain()[0] == self.url()
        &&& self.chain().len() == 0 ==> self.current() == self.url()
        &&& if self.stopped_on_redirect() {
            &&& self.requested() == self.chain()
            &&& self.chain().len() > 0
        } else {
            &&& self.requested() == self.chain().push(self.current())
            &&& self.chain().len() < max_redirects()
            &&& !self.chain().contains(self.current())
        }
        &&& self.phase() is AwaitResponse ==> {
            &&& !self.looped()
            &&& self.error() is None
        }
    }

    /// Begins the check of `url` with a request for it.
    pub fn new(url: &str) -> (res: (RedirectWalk, WalkStep))
        ensures
            res.0.wf(),
            res.0.phase() is AwaitResponse,
            res.0.url() == url@,
            res.0.current() == url@,
            res.0.chain().len() == 0,
            res.0.status() == 0,
            res.0.error() is None,
            !res.0.looped(),
            res.0.requested() == seq![url@],
            res.1 matches WalkStep::Request(u) && u@ == url@,
    {
        let ghost first = seq![url@];
        let walk = RedirectWalk {
            url: String::from_str(url),
            current: String::from_str(url),
            chain: Vec::new(),
            status: 0,
            html: false,
            error: None,
            looped: false,
            phase: WalkPhase::AwaitResponse,
            requested: Ghost(first),
        };
        assert(walk.chain() =~= Seq::<Seq<char>>::empty());
        assert(walk.chain().push(walk.current()) =~= seq![url@]);
        (walk, WalkStep::Request(String::from_str(url)))
    }

    /// A response to the last request with `status`, its `Location` header
    /// and its `Content-Type` header, where it had them. A status from 300 to
    /// 399 with a location is a redirect: the requested URL joins the chain;
    /// when the location leads back to a URL of the chain the check stops as
    /// a loop, when the chain reached the limit it stops there, and otherwise
    /// the location is requested next. Anything else is the final response,
    /// whose body is read for the title when it is a 200 announcing HTML.
    pub fn on_response(&mut self, status: i32, location: Option<String>, content_type: Option<String>) -> (step: WalkStep)
        requires
            old(self).phase() is AwaitResponse,
            old(self).wf(),
        ensures
            final(self).wf(),
            final(self).url() == old(self).url(),
            final(self).status() == status,
            final(self).error() == old(self).error(),
            match location {
                Some(loc) if 300 <= status < 400 => {
                    &&& final(self).chain() == old(self).chain().push(old(self).current())
                    &&& final(self).current() == next_location(old(self).current(), loc@)
                    &&& !final(self).html()
                    &&& if final(self).chain().contains(final(self).current()) {
                        &&& final(self).phase() is Stopped
                        &&& final(self).looped()
                        &&& final(self).requested() == old(self).requested()
                        &&& step is Stopped
                    } else if final(self).chain().len() >= max_redirects() {
                        &&& final(self).phase() is Stopped
                        &&& !final(self).looped()
                        &&& final(self).requested() == old(self).requested()
                        &&& step is Stopped
                    } else {
                        &&& final(self).phase() is AwaitResponse
                        &&& !final(self).looped()
                        &&& final(self).requested() == old(self).requested().push(
                            final(self).current(),
                        )
                        &&& step matches WalkStep::Request(u) && u@ == final(self).current()
                    }
                },
                _ => {
                    &&& final(self).chain() == old(self).chain()
                    &&& final(self).current() == old(self).current()
                    &&& final(self).phase() is Final
                    &&& final(self).requested() == old(self).requested()
                    &&& final(self).html() == is_html_type(content_type.deep_view())
                    &&& !final(self).looped()
                    &&& step matches WalkStep::Final(read) && read == (status == 200
                        && final(self).html())
                },
            },
    {
        self.status = status;
        match location {
            Some(loc) if 300 <= status && status < 400 => {
                let mut hop = resolve_location(self.current.as_str(), loc.as_str());
                std::mem::swap(&mut self.current, &mut hop);
                let ghost old_chain = self.chain();
                self.chain.push(hop);
                self.html = false;
                assert(self.chain() =~= old_chain.push(old(self).current()));
                proof {
                    if old_chain.len() == 0 {
                        assert(self.chain()[0] == old(self).current());
                    } else {
                        assert(self.chain()[0] == old_chain[0]);
                    }
                    assert forall|a: int, b: int|
                        0 <= a < self.chain().len() && 0 <= b < self.chain().len() && a != b implies
                        self.chain()[a] != self.chain()[b] by {
                        if a < old_chain.len() && b < old_chain.len() {
                            assert(self.chain()[a] == old_chain[a]);
                            assert(self.chain()[b] == old_chain[b]);
                        } else if a < old_chain.len() {
                            assert(self.chain()[a] == old_chain[a]);
                            assert(old_chain.contains(old_chain[a]));
                        } else {
                            assert(self.chain()[b] == old_chain[b]);
                            assert(old_chain.contains(old_chain[b]));
                        }
                    }
                }
                if crate::csv_import::contains_string(&self.chain, &self.current) {
                    self.looped = true;
                    self.phase = WalkPhase::Stopped;
                    WalkStep::Stopped
                } else if self.chain.len() >= 10 {
                    self.phase = WalkPhase::Stopped;
                    WalkStep::Stopped
                } else {
                    proof {
                        let nr = old(self).requested().push(self.current());
                        assert(old(self).requested() == self.chain());
                        assert forall|a: int, b: int|
                            0 <= a < nr.len() && 0 <= b < nr.len() && a != b implies nr[a]
                            != nr[b] by {
                            if a < self.chain().len() && b < self.chain().len() {
                                assert(nr[a] == self.chain()[a]);
                                assert(nr[b] == self.chain()[b]);
                            } else if a < self.chain().len() {
                                assert(nr[a] == self.chain()[a]);
                                assert(self.chain().contains(nr[a]));
                            } else {
                                assert(nr[b] == self.chain()[b]);
                                assert(self.chain().contains(nr[b]));
                            }
                        }
                        self.requested = Ghost(nr);
                    }
                    WalkStep::Request(self.current.clone())
                }
            },
            _ => {
                self.html = is_html_type_exec(&content_type);
                self.phase = WalkPhase::Final;
                WalkStep::Final(status == 200 && self.html)
            },
        }
    }

    /// The last request failed with `error`: the check stops.
    pub fn on_error(&mut self, error: &str)
        requires
            old(self).phase() is AwaitResponse,
            old(self).wf(),
        ensures
            final(self).wf(),
            final(self).phase() is Stopped,
            final(self).url() == old(self).url(),
            final(self).current() == old(self).current(),
            final(self).chain() == old(self).chain(),
            final(self).status() == old(self).status(),
            final(self).error() == Some(error@),
            final(self).requested() == old(self).requested(),
            !final(self).looped(),
    {
        self.error = Some(String::from_str(error));
        self.phase = WalkPhase::Stopped;
    }

    /// The result of the check, given the time it took and, for a final
    /// status 200 announcing HTML, the page body if it could be read. A
    /// completed check has no error and, for such a response, the body's
    /// title; a stopped one has no title and either the loop error, the
    /// redirect-limit error or the request's failure.
    pub fn finish(self, elapsed_ms: i64, body: Option<String>) -> (r: CheckResult)
        requires
            !(self.phase() is AwaitResponse),
            self.wf(),
        ensures
            r.url@ == self.url(),
            r.http_status == self.status(),
            r.response_time_ms == elapsed_ms,
            r.redirect_chain.deep_view() == self.chain(),
            r.redirect_chain.len() <= max_redirects(),
            r.redirect_chain.deep_view().no_duplicates(),
            r.redirect_chain.len() > 0 ==> r.redirect_chain@[0]@ == self.url(),
            r.redirect_chain.deep_view() == self.requested().take(self.chain().len() as int),
            self.phase() is Final ==> {
                &&& r.error is None
                &&& r.title.deep_view() == if self.status() == 200 && self.html() {
                    match body {
                        Some(b) => spec_extract_title(b@),
                        None => None,
                    }
                } else {
                    None
                }
            },
            self.phase() is Stopped ==> {
                &&& r.title is None
                &&& r.error.deep_view() == if self.looped() {
                    Some(loop_error())
                } else if self.chain().len() >= max_redirects() {
                    Some(too_many_redirects_error())
                } else {
                    self.error()
                }
            },
    {
        match self.phase {
            WalkPhase::Final => {
                let title = if self.status == 200 && self.html {
                    match body {
                        Some(b) => extract_title(b.as_str()),
                        None => None,
                    }
                } else {
                    None
                };
                CheckResult {
                    url: self.url,
                    http_status: self.status,
                    response_time_ms: elapsed_ms,
                    title,
                    redirect_chain: self.chain,
                    error: None,
                }
            },
            _ => {
                let error = if self.looped {
                    Some(String::from_str("Redirect loop detected (URL already visited)"))
                } else if self.chain.len() >= 10 {
                    Some(String::from_str("Too many redirects (possible redirect loop)"))
                } else {
                    self.error
                };
                CheckResult {
                    url: self.url,
                    http_status: self.status,
                    response_time_ms: elapsed_ms,
                    title: None,
                    redirect_chain: self.chain,
                    error,
                }
            },
        }
    }
}

} // verus!
