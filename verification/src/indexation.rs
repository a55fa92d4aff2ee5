//! The bookkeeping of an indexation run: each URL of unknown indexation is
//! looked up in the search index, one at a time, and marked `confirmed` or
//! `not_indexed`; the run can be cancelled before or after each lookup.
use vstd::prelude::*;
use vstd::string::StringExecFns;

verus! {

/// A progress report of an indexation run.
pub struct IndexationProgress {
    pub project_id: String,
    pub checked: usize,
    pub total: usize,
    pub current_url: String,
    pub status: String,
}

/// What the caller does next in an indexation run.
pub enum IndexationStep {
    /// Look this URL up in the search index, then report the answer.
    Lookup(String),
    /// Store `status` as the indexation status of the URL with id `url_id`,
    /// then send the progress report.
    Store { url_id: String, status: String, progress: IndexationProgress },
    /// Stop: release the project's cancel token, send the progress report and
    /// return `confirmed`, the number of URLs marked as indexed.
    Finish { progress: IndexationProgress, confirmed: usize },
}

/// The number of `true` answers.
pub open spec fn count_indexed(answers: Seq<bool>) -> nat
    decreases answers.len(),
{
    if answers.len() == 0 {
        0
    } else {
        count_indexed(answers.drop_last()) + if answers.last() {
            1nat
        } else {
            0nat
        }
    }
}

/// A run never reports more URLs as indexed than it has looked up.
pub proof fn law_confirmed_within_checked(answers: Seq<bool>)
    ensures
        count_indexed(answers) <= answers.len(),
    decreases answers.len(),
{
    if answers.len() > 0 {
        law_confirmed_within_checked(answers.drop_last());
    }
}

/// The status stored for a URL: `confirmed` when the search index lists it.
pub open spec fn status_for(indexed: bool) -> Seq<char> {
    if indexed {
        "confirmed"@
    } else {
        "not_indexed"@
    }
}

/// A run over the (id, URL) pairs of a project whose indexation is unknown.
pub struct IndexationRun {
    project_id: String,
    urls: Vec<(String, String)>,
    next: usize,
    confirmed: usize,
    looking_up: bool,
    finished: bool,
    answers: Ghost<Seq<bool>>,
}

impl IndexationRun {
    pub closed spec fn project(self) -> Seq<char> {
        self.project_id@
    }

    /// The (id, URL) pairs, in the order they are looked up.
    pub closed spec fn targets(self) -> Seq<(Seq<char>, Seq<char>)> {
        self.urls.deep_view()
    }

    /// The answers of the lookups stored so far, one per URL, in order.
    pub closed spec fn answers(self) -> Seq<bool> {
        self.answers@
    }

    /// A lookup was asked for and its answer is awaited.
    pub closed spec fn looking_up(self) -> bool {
        self.looking_up
    }

    pub closed spec fn finished(self) -> bool {
        self.finished
    }

    pub closed spec fn wf(self) -> bool {
        &&& self.answers@.len() <= self.urls@.len()
        &&& self.next == self.answers@.len()
        &&& self.confirmed == count_indexed(self.answers@)
        &&& self.confirmed <= self.answers@.len()
        &&& self.looking_up ==> self.answers@.len() < self.urls@.len()
    }

    /// The URL that the next lookup is about.
    pub open spec fn current(self) -> (Seq<char>, Seq<char>) {
        self.targets()[self.answers().len() as int]
    }

    /// A run over `urls` for `project_id`; none when there is nothing to look
    /// up (the run then ends at once with no URL confirmed).
    pub fn new(project_id: &str, urls: Vec<(String, String)>) -> (run: Option<IndexationRun>)
        ensures
            urls@.len() == 0 <==> run is None,
            run matches Some(r) ==> {
                &&& r.wf()
                &&& r.project() == project_id@
                &&& r.targets() == urls.deep_view()
                &&& r.answers() == Seq::<bool>::empty()
                &&& !r.looking_up()
                &&& !r.finished()
            },
    {
        if urls.len() == 0 {
            None
        } else {
            Some(
                IndexationRun {
                    project_id: String::from_str(project_id),
                    urls,
                    next: 0,
                    confirmed: 0,
                    looking_up: false,
                    finished: false,
                    answers: Ghost(Seq::empty()),
                },
            )
        }
    }

    fn report(&self, checked: usize, current_url: String, status: &str) -> (p: IndexationProgress)
        ensures
            p.project_id@ == self.project(),
            p.checked == checked,
            p.total == self.targets().len(),
            p.current_url == current_url,
            p.status@ == status@,
    {
        IndexationProgress {
            project_id: self.project_id.clone(),
            checked,
            total: self.urls.len(),
            current_url,
            status: String::from_str(status),
        }
    }

    /// The next step before a lookup, given the project's cancel flag. With
    /// every URL looked up the run is done (reported with an empty current
    /// URL); a cancelled run stops; otherwise the next URL is looked up.
    pub fn advance(&mut self, cancelled: bool) -> (step: IndexationStep)
        requires
            old(self).wf(),
            !old(self).looking_up(),
            !old(self).finished(),
        ensures
            final(self).wf(),
            final(self).project() == old(self).project(),
            final(self).targets() == old(self).targets(),
            final(self).answers() == old(self).answers(),
            if old(self).answers().len() == old(self).targets().len() {
                &&& step matches IndexationStep::Finish { progress, confirmed }
                &&& progress.checked == old(self).targets().len()
                &&& progress.total == old(self).targets().len()
                &&& progress.current_url@ == Seq::<char>::empty()
                &&& progress.status@ == "done"@
                &&& progress.project_id@ == old(self).project()
                &&& confirmed == count_indexed(old(self).answers())
                &&& final(self).finished()
            } else if cancelled {
                &&& step matches IndexationStep::Finish { progress, confirmed }
                &&& progress.checked == old(self).answers().len()
                &&& progress.total == old(self).targets().len()
                &&& progress.current_url@ == old(self).current().1
                &&& progress.status@ == "cancelled"@
                &&& progress.project_id@ == old(self).project()
                &&& confirmed == count_indexed(old(self).answers())
                &&& final(self).finished()
            } else {
                &&& step matches IndexationStep::Lookup(url) && url@ == old(self).current().1
                &&& final(self).looking_up()
                &&& !final(self).finished()
            },
    {
        let i = self.next;
        if i == self.urls.len() {
            self.finished = true;
            let progress = self.report(i, String::new(), "done");
            IndexationStep::Finish { progress, confirmed: self.confirmed }
        } else if cancelled {
            self.finished = true;
            let progress = self.report(i, self.urls[i].1.clone(), "cancelled");
            IndexationStep::Finish { progress, confirmed: self.confirmed }
        } else {
            self.looking_up = true;
            IndexationStep::Lookup(self.urls[i].1.clone())
        }
    }

    /// The step after a lookup, given its answer and the cancel flag read
    /// after it. A cancelled run stops without storing the answer; otherwise
    /// the URL is marked `confirmed` or `not_indexed` and the run moves on.
    pub fn on_lookup(&mut self, indexed: bool, cancelled: bool) -> (step: IndexationStep)
        requires
            old(self).wf(),
            old(self).looking_up(),
            !old(self).finished(),
        ensures
            final(self).wf(),
            final(self).project() == old(self).project(),
            final(self).targets() == old(self).targets(),
            !final(self).looking_up(),
            if cancelled {
                &&& step matches IndexationStep::Finish { progress, confirmed }
                &&& progress.checked == old(self).answers().len()
                &&& progress.total == old(self).targets().len()
                &&& progress.current_url@ == old(self).current().1
                &&& progress.status@ == "cancelled"@
                &&& progress.project_id@ == old(self).project()
                &&& confirmed == count_indexed(old(self).answers())
                &&& final(self).answers() == old(self).answers()
                &&& final(self).finished()
            } else {
                &&& step matches IndexationStep::Store { url_id, status, progress }
                &&& url_id@ == old(self).current().0
                &&& status@ == status_for(indexed)
                &&& progress.checked == old(self).answers().len() + 1
                &&& progress.total == old(self).targets().len()
                &&& progress.current_url@ == old(self).current().1
                &&& progress.status@ == "running"@
                &&& progress.project_id@ == old(self).project()
                &&& final(self).answers() == old(self).answers().push(indexed)
                &&& !final(self).finished()
            },
    {
        let i = self.next;
        assert(i < self.urls.len());
        self.looking_up = false;
        if cancelled {
            self.finished = true;
            let progress = self.report(i, self.urls[i].1.clone(), "cancelled");
            IndexationStep::Finish { progress, confirmed: self.confirmed }
        } else {
            let ghost before = self.answers@;
            if indexed {
                self.confirmed += 1;
            }
            self.answers = Ghost(before.push(indexed));
            self.next = i + 1;
            assert(self.answers@.drop_last() =~= before);
            let status = if indexed {
                String::from_str("confirmed")
            } else {
                String::from_str("not_indexed")
            };
            let progress = self.report(i + 1, self.urls[i].1.clone(), "running");
            IndexationStep::Store { url_id: self.urls[i].0.clone(), status, progress }
        }
    }
}

} // verus!
