//! The HTTP audit of a project's confirmed URLs: the running tallies, the
//! chunked schedule with its pause/cancel decisions, and what is stored per
//! checked URL.
use vstd::prelude::*;
use vstd::string::StringExecFns;

use crate::checker::CheckResult;
use crate::registry::Registry;

verus! {

/// Tallies of an audit run.
pub struct AuditStats {
    /// Statuses 200-299.
    pub ok_count: usize,
    /// URLs that redirected at least once.
    pub redirect_count: usize,
    /// Status 404.
    pub not_found_count: usize,
    /// An error, a status of 500 or more, or a check task that failed.
    pub error_count: usize,
    /// Status 200 without a title.
    pub empty_title_count: usize,
    /// Responses slower than 2000 ms.
    pub slow_count: usize,
}

impl Clone for AuditStats {
    fn clone(&self) -> (s: Self)
        ensures
            s == *self,
    {
        AuditStats {
            ok_count: self.ok_count,
            redirect_count: self.redirect_count,
            not_found_count: self.not_found_count,
            error_count: self.error_count,
            empty_title_count: self.empty_title_count,
            slow_count: self.slow_count,
        }
    }
}

/// Responses slower than this many milliseconds count as slow.
pub open spec fn slow_threshold_ms() -> int {
    2000
}

pub open spec fn one_if(b: bool) -> nat {
    if b {
        1
    } else {
        0
    }
}

impl AuditStats {
    /// All tallies at zero.
    pub fn new() -> (s: AuditStats)
        ensures
            s.ok_count == 0 && s.redirect_count == 0 && s.not_found_count == 0 && s.error_count
                == 0 && s.empty_title_count == 0 && s.slow_count == 0,
    {
        AuditStats {
            ok_count: 0,
            redirect_count: 0,
            not_found_count: 0,
            error_count: 0,
            empty_title_count: 0,
            slow_count: 0,
        }
    }

    /// Every tally is at most `n`.
    pub open spec fn bounded_by(self, n: nat) -> bool {
        &&& self.ok_count <= n
        &&& self.redirect_count <= n
        &&& self.not_found_count <= n
        &&& self.error_count <= n
        &&& self.empty_title_count <= n
        &&& self.slow_count <= n
    }

    /// The tallies after counting the result of one check.
    pub open spec fn counted(self, r: CheckResult) -> AuditStats {
        AuditStats {
            ok_count: (self.ok_count + one_if(200 <= r.http_status < 300)) as usize,
            redirect_count: (self.redirect_count + one_if(r.redirect_chain.len() > 0)) as usize,
            not_found_count: (self.not_found_count + one_if(r.http_status == 404)) as usize,
            error_count: (self.error_count + one_if(r.error is Some || r.http_status >= 500)) as usize,
            empty_title_count: (self.empty_title_count + one_if(
                r.http_status == 200 && r.title is None,
            )) as usize,
            slow_count: (self.slow_count + one_if(r.response_time_ms > slow_threshold_ms())) as usize,
        }
    }

    /// Counts the result of one check.
    pub fn count(&mut self, r: &CheckResult, checked: usize)
        requires
            old(self).bounded_by(checked as nat),
            checked < usize::MAX,
        ensures
            *final(self) == old(self).counted(*r),
            final(self).bounded_by((checked + 1) as nat),
    {
        let status = r.http_status;
        if 200 <= status && status < 300 {
            self.ok_count += 1;
        }
        if r.redirect_chain.len() > 0 {
            self.redirect_count += 1;
        }
        if status == 404 {
            self.not_found_count += 1;
        }
        if r.error.is_some() || status >= 500 {
            self.error_count += 1;
        }
        if status == 200 && r.title.is_none() {
            self.empty_title_count += 1;
        }
        if r.response_time_ms > 2000 {
            self.slow_count += 1;
        }
    }
}

/// Counting one result raises each tally by one exactly when the result has
/// its outcome, and leaves it as it was otherwise: ok for a status from 200
/// to 299, redirect for a non-empty chain, not found for status 404 and no
/// other, error for an error or a status of 500 or more, empty title for a
/// 200 without a title, slow for more than 2000 ms.
pub proof fn law_count_one_result(stats: AuditStats, r: CheckResult, n: nat)
    requires
        stats.bounded_by(n),
        n < usize::MAX,
    ensures
        stats.counted(r).ok_count == stats.ok_count + if 200 <= r.http_status && r.http_status <= 299 {
            1int
        } else {
            0int
        },
        stats.counted(r).redirect_count == stats.redirect_count + if r.redirect_chain@.len() > 0 {
            1int
        } else {
            0int
        },
        r.http_status == 404 ==> stats.counted(r).not_found_count == stats.not_found_count + 1,
        r.http_status != 404 ==> stats.counted(r).not_found_count == stats.not_found_count,
        stats.counted(r).error_count == stats.error_count + if r.error is Some || r.http_status >= 500 {
            1int
        } else {
            0int
        },
        stats.counted(r).empty_title_count == stats.empty_title_count + if r.http_status == 200
            && r.title is None {
            1int
        } else {
            0int
        },
        stats.counted(r).slow_count == stats.slow_count + if r.response_time_ms > 2000 {
            1int
        } else {
            0int
        },
        stats.counted(r).bounded_by(n + 1),
{
}

/// The state an audit reports.
pub enum AuditStatus {
    Running,
    Paused,
    Done,
    Cancelled,
}

impl AuditStatus {
    pub open spec fn spec_name(self) -> Seq<char> {
        match self {
            AuditStatus::Running => "running"@,
            AuditStatus::Paused => "paused"@,
            AuditStatus::Done => "done"@,
            AuditStatus::Cancelled => "cancelled"@,
        }
    }

    /// The name the front end receives.
    pub fn name(&self) -> (s: String)
        ensures
            s@ == self.spec_name(),
    {
        match self {
            AuditStatus::Running => String::from_str("running"),
            AuditStatus::Paused => String::from_str("paused"),
            AuditStatus::Done => String::from_str("done"),
            AuditStatus::Cancelled => String::from_str("cancelled"),
        }
    }
}

/// A progress report of an audit.
pub struct AuditProgress {
    pub project_id: String,
    pub checked: usize,
    pub total: usize,
    pub current_url: String,
    pub status: AuditStatus,
    pub stats: AuditStats,
}

/// What the caller does next in an audit.
pub enum AuditDecision {
    /// Check `urls[start..end]` concurrently, then record each outcome.
    Check(usize, usize),
    /// The audit is paused: report it, wait a little, and ask again.
    Paused,
    /// The audit was cancelled: report it and stop.
    Cancelled,
    /// Every URL is checked: report it and stop.
    Done,
}

/// The bookkeeping of one audit run over `total` URLs, checked in chunks of
/// the current concurrency.
pub struct AuditRun {
    total: usize,
    next: usize,
    in_flight: usize,
    checked: usize,
    stats: AuditStats,
    finished: bool,
}

impl AuditRun {
    pub closed spec fn total(self) -> nat {
        self.total as nat
    }

    /// The index of the first URL not handed out yet.
    pub closed spec fn next(self) -> nat {
        self.next as nat
    }

    /// URLs handed out whose outcome is not recorded yet.
    pub closed spec fn in_flight(self) -> nat {
        self.in_flight as nat
    }

    /// URLs whose outcome is recorded.
    pub closed spec fn checked(self) -> nat {
        self.checked as nat
    }

    pub closed spec fn stats(self) -> AuditStats {
        self.stats
    }

    pub closed spec fn finished(self) -> bool {
        self.finished
    }

    /// Every URL handed out is recorded or in flight, no more than the total
    /// is handed out, and no tally exceeds the number of recorded URLs.
    pub open spec fn wf(self) -> bool {
        &&& self.checked() + self.in_flight() == self.next()
        &&& self.next() <= self.total()
        &&& self.stats().bounded_by(self.checked())
    }

    /// A run over `total` URLs, none handed out.
    pub fn new(total: usize) -> (run: AuditRun)
        ensures
            run.wf(),
            run.total() == total,
            run.next() == 0,
            run.checked() == 0,
            run.in_flight() == 0,
            !run.finished(),
            run.stats() == AuditStats::new_spec(),
    {
        AuditRun {
            total,
            next: 0,
            in_flight: 0,
            checked: 0,
            stats: AuditStats::new(),
            finished: false,
        }
    }

    /// The next step, given the cancel and pause flags and the concurrency
    /// now set. With every URL handed out the run is done; otherwise a
    /// cancelled run stops, a paused one waits, and a running one hands out
    /// the next chunk of `max(concurrency, 1)` URLs (fewer at the end).
    pub fn decide(&mut self, cancel: bool, pause: bool, concurrency: u32) -> (d: AuditDecision)
        requires
            old(self).wf(),
            old(self).in_flight() == 0,
            !old(self).finished(),
        ensures
            final(self).wf(),
            final(self).total() == old(self).total(),
            final(self).checked() == old(self).checked(),
            final(self).stats() == old(self).stats(),
            if old(self).next() >= old(self).total() {
                &&& d is Done
                &&& final(self).finished()
                &&& final(self).checked() == final(self).total()
                &&& final(self).next() == old(self).next()
                &&& final(self).in_flight() == 0
            } else if cancel {
                &&& d is Cancelled
                &&& final(self).finished()
                &&& final(self).next() == old(self).next()
                &&& final(self).in_flight() == 0
            } else if pause {
                &&& d is Paused
                &&& !final(self).finished()
                &&& final(self).next() == old(self).next()
                &&& final(self).in_flight() == 0
            } else {
                let size = if concurrency < 1 {
                    1
                } else {
                    concurrency as nat
                };
                let end = if old(self).next() + size < old(self).total() {
                    old(self).next() + size
                } else {
                    old(self).total()
                };
                &&& d matches AuditDecision::Check(start, stop) && start == old(self).next()
                    && stop == end
                &&& !final(self).finished()
                &&& final(self).next() == end
                &&& final(self).in_flight() == end - old(self).next()
            },
    {
        if self.next >= self.total {
            self.finished = true;
            AuditDecision::Done
        } else if cancel {
            self.finished = true;
            AuditDecision::Cancelled
        } else if pause {
            AuditDecision::Paused
        } else {
            let size: usize = if concurrency < 1 {
                1
            } else {
                concurrency as usize
            };
            let end = if size < self.total - self.next {
                self.next + size
            } else {
                self.total
            };
            let start = self.next;
            self.in_flight = end - start;
            self.next = end;
            AuditDecision::Check(start, end)
        }
    }

    /// Records the result of one check of the chunk.
    pub fn record(&mut self, r: &CheckResult)
        requires
            old(self).wf(),
            old(self).in_flight() > 0,
        ensures
            final(self).wf(),
            final(self).total() == old(self).total(),
            final(self).next() == old(self).next(),
            final(self).finished() == old(self).finished(),
            final(self).in_flight() == old(self).in_flight() - 1,
            final(self).checked() == old(self).checked() + 1,
            final(self).stats() == old(self).stats().counted(*r),
    {
        self.stats.count(r, self.checked);
        self.checked += 1;
        self.in_flight -= 1;
    }

    /// Records a check of the chunk whose task failed: it counts as an error.
    pub fn record_failure(&mut self)
        requires
            old(self).wf(),
            old(self).in_flight() > 0,
        ensures
            final(self).wf(),
            final(self).total() == old(self).total(),
            final(self).next() == old(self).next(),
            final(self).finished() == old(self).finished(),
            final(self).in_flight() == old(self).in_flight() - 1,
            final(self).checked() == old(self).checked() + 1,
            final(self).stats() == (AuditStats {
                error_count: (old(self).stats().error_count + 1) as usize,
                ..old(self).stats()
            }),
    {
        self.stats.error_count += 1;
        self.checked += 1;
        self.in_flight -= 1;
    }

    /// A progress report for `project_id` with the run's counts and tallies.
    pub fn progress(&self, project_id: &str, current_url: String, status: AuditStatus) -> (p:
        AuditProgress)
        ensures
            p.project_id@ == project_id@,
            p.checked == self.checked(),
            p.total == self.total(),
            p.current_url == current_url,
            p.status == status,
            p.stats == self.stats(),
    {
        AuditProgress {
            project_id: String::from_str(project_id),
            checked: self.checked,
            total: self.total,
            current_url,
            status,
            stats: self.stats.clone(),
        }
    }
}

impl AuditStats {
    pub open spec fn new_spec() -> AuditStats {
        AuditStats {
            ok_count: 0,
            redirect_count: 0,
            not_found_count: 0,
            error_count: 0,
            empty_title_count: 0,
            slow_count: 0,
        }
    }
}

/// What a progress report names as the current URL when a check task failed.
pub fn task_error_label(message: &str) -> (s: String)
    ensures
        s@ == "(task error: "@ + message@ + ")"@,
{
    let mut s = String::from_str("(task error: ");
    s.append(message);
    s.append(")");
    s
}

/// Registers the controls of a new audit of `project_id`, unless one is
/// already registered.
pub fn begin_audit<C>(registry: &mut Registry<C>, project_id: &str, control: C) -> (res: Result<
    (),
    String,
>)
    requires
        old(registry).wf(),
    ensures
        final(registry).wf(),
        old(registry).view().contains_key(project_id@) ==> {
            &&& res matches Err(e) && e@ == "Audit already running for this project"@
            &&& final(registry).view() == old(registry).view()
        },
        !old(registry).view().contains_key(project_id@) ==> {
            &&& res is Ok
            &&& final(registry).view() == old(registry).view().insert(project_id@, control)
        },
{
    if registry.contains(project_id) {
        Err(String::from_str("Audit already running for this project"))
    } else {
        registry.insert(String::from_str(project_id), control);
        Ok(())
    }
}

/// Forgets the controls of the audit of `project_id`, once it is over, so
/// that a new audit of the project can start.
pub fn cleanup_state<C>(registry: &mut Registry<C>, project_id: &str)
    requires
        old(registry).wf(),
    ensures
        final(registry).wf(),
        final(registry).view() == old(registry).view().remove(project_id@),
{
    let _ = registry.remove(project_id);
}

/// Takes out the controls of the audit of `project_id`, for the caller to
/// raise its cancel flag; a new audit of the project can then start.
pub fn stop_audit<C>(registry: &mut Registry<C>, project_id: &str) -> (control: Option<C>)
    requires
        old(registry).wf(),
    ensures
        final(registry).wf(),
        final(registry).view() == old(registry).view().remove(project_id@),
        control == old(registry).view().get(project_id@),
{
    registry.remove(project_id)
}

/// One audit per project: once an audit of a project is registered, starting
/// another is refused; once it is stopped or cleaned up, a new one starts.
pub proof fn law_one_audit_per_project<C>(controls: Map<Seq<char>, C>, project_id: Seq<char>, control: C)
    ensures
        controls.insert(project_id, control).contains_key(project_id),
        !controls.insert(project_id, control).remove(project_id).contains_key(project_id),
        forall|other: Seq<char>|
            other != project_id ==> (controls.insert(project_id, control).remove(
                project_id,
            ).contains_key(other) <==> #[trigger] controls.contains_key(other)),
{
}

/// The concurrency an audit uses for a requested value: at least one.
pub fn effective_concurrency(requested: u32) -> (c: u32)
    ensures
        c >= 1,
        requested >= 1 ==> c == requested,
        requested < 1 ==> c == 1,
{
    if requested < 1 {
        1
    } else {
        requested
    }
}

/// A lower-case hexadecimal digit.
pub open spec fn hex_lower(d: nat) -> char {
    if d < 10 {
        crate::text::digit_char(d)
    } else if d == 10 {
        'a'
    } else if d == 11 {
        'b'
    } else if d == 12 {
        'c'
    } else if d == 13 {
        'd'
    } else if d == 14 {
        'e'
    } else {
        'f'
    }
}

/// How `serde_json` writes one character inside a JSON string: quote and
/// backslash escaped, the control characters `\b \t \n \f \r` by name and
/// the other ones below U+0020 as `\u00XX`; everything else as it is.
pub open spec fn json_escape(c: char) -> Seq<char> {
    if c == '"' {
        seq!['\\', '"']
    } else if c == '\\' {
        seq!['\\', '\\']
    } else if c == '\u{8}' {
        seq!['\\', 'b']
    } else if c == '\t' {
        seq!['\\', 't']
    } else if c == '\n' {
        seq!['\\', 'n']
    } else if c == '\u{c}' {
        seq!['\\', 'f']
    } else if c == '\r' {
        seq!['\\', 'r']
    } else if (c as u32) < 0x20 {
        seq!['\\', 'u', '0', '0', hex_lower((c as u32 / 16) as nat), hex_lower((c as u32 % 16) as nat)]
    } else {
        seq![c]
    }
}

/// The escaped characters of a JSON string, without the quotes.
pub open spec fn json_escaped(s: Seq<char>) -> Seq<char>
    decreases s.len(),
{
    if s.len() == 0 {
        Seq::empty()
    } else {
        json_escaped(s.drop_last()) + json_escape(s.last())
    }
}

/// The comma-separated JSON strings of `items`.
pub open spec fn json_string_list(items: Seq<Seq<char>>) -> Seq<char>
    decreases items.len(),
{
    if items.len() == 0 {
        Seq::empty()
    } else if items.len() == 1 {
        seq!['"'] + json_escaped(items[0]) + seq!['"']
    } else {
        json_string_list(items.drop_last()) + seq![','] + seq!['"'] + json_escaped(items.last())
            + seq!['"']
    }
}

/// The compact JSON array of strings that `serde_json::to_string` writes.
pub open spec fn json_string_array(items: Seq<Seq<char>>) -> Seq<char> {
    seq!['['] + json_string_list(items) + seq![']']
}

/// `serde_json::to_string` of a list of strings: a compact JSON array, each
/// string escaped as above. Serializing strings into memory does not fail;
/// an error would give the empty text.
#[verifier::external_body]
fn to_json_array(items: &Vec<String>) -> (json: String)
    ensures
        json@ == json_string_array(items.deep_view()),
{
    serde_json::to_string(items).unwrap_or_default()
}

/// What is stored as the redirect chain of a checked URL: nothing for an
/// empty chain, else the chain as a JSON array of strings.
pub fn redirect_chain_json(chain: &Vec<String>) -> (res: Option<String>)
    ensures
        chain.len() == 0 ==> res is None,
        chain.len() > 0 ==> (res matches Some(j) && j@ == json_string_array(chain.deep_view())),
{
    if chain.len() == 0 {
        None
    } else {
        Some(to_json_array(chain))
    }
}

} // verus!
