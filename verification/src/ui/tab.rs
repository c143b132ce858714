//! The tabs of the terminal interface.

use vstd::prelude::*;

use crate::ipc::message;
use crate::ipc::message::JobSummary;
use crate::queue::job;
use crate::text;

verus! {

/// A tab, which shows the jobs of one status, or all of them.
#[derive(Debug, Clone, Copy, PartialEq, Eq, Structural)]
pub enum Tab {
    All,
    Active,
    Pending,
    Paused,
    Done,
    Failed,
}

impl Tab {
    /// Whether the tab shows jobs of this status.
    pub open spec fn shows(self, status: Seq<char>) -> bool {
        match self {
            Tab::All => true,
            Tab::Active => status == "Active"@,
            Tab::Pending => status == "Pending"@,
            Tab::Paused => status == "Paused"@,
            Tab::Done => status == "Done"@,
            Tab::Failed => text::begins_with(status, "Failed"@),
        }
    }

    /// Whether the tab shows jobs of this status.
    pub fn filter(&self, status: &str) -> (r: bool)
        ensures
            r == self.shows(status@),
    {
        match self {
            Tab::All => true,
            Tab::Active => text::same_text(status, "Active"),
            Tab::Pending => text::same_text(status, "Pending"),
            Tab::Paused => text::same_text(status, "Paused"),
            Tab::Done => text::same_text(status, "Done"),
            Tab::Failed => text::starts_with(status, "Failed"),
        }
    }

    /// The name of the tab.
    pub open spec fn name(self) -> Seq<char> {
        match self {
            Tab::All => "All"@,
            Tab::Active => "Active"@,
            Tab::Pending => "Pending"@,
            Tab::Paused => "Paused"@,
            Tab::Done => "Done"@,
            Tab::Failed => "Failed"@,
        }
    }

    /// The name of the tab.
    pub fn label(&self) -> (r: &'static str)
        ensures
            r@ == self.name(),
    {
        match self {
            Tab::All => "All",
            Tab::Active => "Active",
            Tab::Pending => "Pending",
            Tab::Paused => "Paused",
            Tab::Done => "Done",
            Tab::Failed => "Failed",
        }
    }

    /// The symbol of the tab.
    pub open spec fn symbol(self) -> Seq<char> {
        match self {
            Tab::All => "◉"@,
            Tab::Active => "↓"@,
            Tab::Pending => "◌"@,
            Tab::Paused => "⏸"@,
            Tab::Done => "✓"@,
            Tab::Failed => "✕"@,
        }
    }

    /// The symbol of the tab.
    pub fn icon(&self) -> (r: &'static str)
        ensures
            r@ == self.symbol(),
    {
        match self {
            Tab::All => "◉",
            Tab::Active => "↓",
            Tab::Pending => "◌",
            Tab::Paused => "⏸",
            Tab::Done => "✓",
            Tab::Failed => "✕",
        }
    }

    /// The tab after this one; the first one comes after the last.
    pub open spec fn following(self) -> Tab {
        match self {
            Tab::All => Tab::Active,
            Tab::Active => Tab::Pending,
            Tab::Pending => Tab::Paused,
            Tab::Paused => Tab::Done,
            Tab::Done => Tab::Failed,
            Tab::Failed => Tab::All,
        }
    }

    /// The tab after this one; the first one comes after the last.
    pub fn next(self) -> (r: Tab)
        ensures
            r == self.following(),
    {
        match self {
            Tab::All => Tab::Active,
            Tab::Active => Tab::Pending,
            Tab::Pending => Tab::Paused,
            Tab::Paused => Tab::Done,
            Tab::Done => Tab::Failed,
            Tab::Failed => Tab::All,
        }
    }
}

/// The jobs that `tab` shows, in order.
pub open spec fn shown(jobs: Seq<message::SummaryView>, tab: Tab) -> Seq<message::SummaryView> {
    jobs.filter(|j: message::SummaryView| tab.shows(j.status))
}

/// The jobs that `tab` shows, in order.
pub fn shown_jobs(jobs: &Vec<JobSummary>, tab: Tab) -> (r: Vec<JobSummary>)
    ensures
        message::summaries(r@) == shown(message::summaries(jobs@), tab),
{
    let mut r: Vec<JobSummary> = Vec::new();
    let ghost views = message::summaries(jobs@);
    let mut i: usize = 0;
    proof {
        reveal(Seq::filter);
        assert(views.take(0) =~= Seq::empty());
        assert(message::summaries(r@) =~= shown(views.take(0), tab));
    }
    while i < jobs.len()
        invariant
            i <= jobs@.len(),
            views == message::summaries(jobs@),
            message::summaries(r@) == shown(views.take(i as int), tab),
        decreases jobs@.len() - i,
    {
        let ghost before = r@;
        proof {
            reveal(Seq::filter);
            assert(views.take(i + 1).drop_last() =~= views.take(i as int));
            assert(views.take(i + 1).last() == jobs@[i as int]@);
        }
        if tab.filter(jobs[i].status.as_str()) {
            r.push(jobs[i].clone());
            assert(message::summaries(r@) =~= message::summaries(before).push(jobs@[i as int]@));
        }
        i += 1;
    }
    assert(views.take(jobs@.len() as int) =~= views);
    r
}

/// How many jobs `tab` shows.
pub fn count_shown(jobs: &Vec<JobSummary>, tab: Tab) -> (r: usize)
    ensures
        r == shown(message::summaries(jobs@), tab).len(),
{
    let mut n: usize = 0;
    let ghost views = message::summaries(jobs@);
    let mut i: usize = 0;
    proof {
        reveal(Seq::filter);
        assert(views.take(0) =~= Seq::empty());
    }
    while i < jobs.len()
        invariant
            n <= i <= jobs@.len(),
            views == message::summaries(jobs@),
            n == shown(views.take(i as int), tab).len(),
        decreases jobs@.len() - i,
    {
        proof {
            reveal(Seq::filter);
            assert(views.take(i + 1).drop_last() =~= views.take(i as int));
            assert(views.take(i + 1).last() == jobs@[i as int]@);
        }
        if tab.filter(jobs[i].status.as_str()) {
            n += 1;
        }
        i += 1;
    }
    assert(views.take(jobs@.len() as int) =~= views);
    n
}

/// Every status of a job is shown by the tab for all jobs and by exactly one other tab.
pub proof fn law_every_status_has_one_tab(status: job::StatusView, a: Tab, b: Tab)
    requires
        !(a is All),
        !(b is All),
    ensures
        Tab::All.shows(status.text()),
        a.shows(status.text()) && b.shows(status.text()) ==> a == b,
        exists|t: Tab| !(t is All) && #[trigger] t.shows(status.text()),
{
    reveal_strlit("Pending");
    reveal_strlit("Active");
    reveal_strlit("Paused");
    reveal_strlit("Done");
    reveal_strlit("Failed");
    reveal_strlit("Failed: ");
    let s = status.text();
    assert("Failed"@[0] == 'F' && "Done"@[0] == 'D' && "Active"@[0] == 'A');
    assert("Pending"@[0] == 'P' && "Pending"@[1] == 'e');
    assert("Paused"@[0] == 'P' && "Paused"@[1] == 'a');
    if text::begins_with(s, "Failed"@) {
        assert(s.subrange(0, 6)[0] == s[0]);
    }
    match status {
        job::StatusView::Pending => assert(Tab::Pending.shows(s)),
        job::StatusView::Active => assert(Tab::Active.shows(s)),
        job::StatusView::Paused => assert(Tab::Paused.shows(s)),
        job::StatusView::Done => assert(Tab::Done.shows(s)),
        job::StatusView::Failed(e) => {
            assert(s.subrange(0, 6) =~= "Failed"@);
            assert(Tab::Failed.shows(s));
        },
    }
}

/// Going to the next tab six times comes back to the same one, and not sooner.
pub proof fn law_tabs_go_round(tab: Tab)
    ensures
        tab.following().following().following().following().following().following() == tab,
        tab.following() != tab,
        tab.following().following() != tab,
        tab.following().following().following() != tab,
        tab.following().following().following().following() != tab,
        tab.following().following().following().following().following() != tab,
{
}

/// Whether every job has a status that a `JobStatus` writes.
pub open spec fn known_statuses(jobs: Seq<message::SummaryView>) -> bool {
    forall|i: int|
        0 <= i < jobs.len() ==> exists|s: job::StatusView|
            (#[trigger] jobs[i]).status == #[trigger] s.text()
}

/// The tabs but the first divide the jobs among themselves: their counts add up to all jobs.
pub proof fn law_counts_add_up(jobs: Seq<message::SummaryView>)
    requires
        known_statuses(jobs),
    ensures
        shown(jobs, Tab::All) == jobs,
        shown(jobs, Tab::Active).len() + shown(jobs, Tab::Pending).len() + shown(
            jobs,
            Tab::Paused,
        ).len() + shown(jobs, Tab::Done).len() + shown(jobs, Tab::Failed).len() == jobs.len(),
    decreases jobs.len(),
{
    reveal(Seq::filter);
    if jobs.len() > 0 {
        let rest = jobs.drop_last();
        assert forall|i: int| 0 <= i < rest.len() implies exists|s: job::StatusView|
            (#[trigger] rest[i]).status == #[trigger] s.text() by {
            assert(rest[i] == jobs[i]);
        }
        law_counts_add_up(rest);
        let last = jobs[jobs.len() - 1];
        let s = choose|s: job::StatusView| last.status == #[trigger] s.text();
        assert forall|a: Tab, b: Tab|
            !(a is All) && !(b is All) && #[trigger] a.shows(last.status) && #[trigger] b.shows(
                last.status,
            ) implies a == b by {
            law_every_status_has_one_tab(s, a, b);
        }
        law_every_status_has_one_tab(s, Tab::Active, Tab::Active);
        let t = choose|t: Tab| !(t is All) && #[trigger] t.shows(last.status);
        assert(t is Active || t is Pending || t is Paused || t is Done || t is Failed);
        assert(Tab::Active.shows(last.status) == (t is Active));
        assert(Tab::Pending.shows(last.status) == (t is Pending));
        assert(Tab::Paused.shows(last.status) == (t is Paused));
        assert(Tab::Done.shows(last.status) == (t is Done));
        assert(Tab::Failed.shows(last.status) == (t is Failed));
        assert(shown(jobs, Tab::All) =~= jobs);
    } else {
        assert(shown(jobs, Tab::All) =~= jobs);
    }
}

/// Each tab but the first shows the jobs of the status that it is named after, and no others.
pub proof fn law_tabs_show_their_status(status: job::StatusView)
    ensures
        Tab::Active.shows(status.text()) <==> status is Active,
        Tab::Pending.shows(status.text()) <==> status is Pending,
        Tab::Paused.shows(status.text()) <==> status is Paused,
        Tab::Done.shows(status.text()) <==> status is Done,
        Tab::Failed.shows(status.text()) <==> status is Failed,
{
    reveal_strlit("Pending");
    reveal_strlit("Active");
    reveal_strlit("Paused");
    reveal_strlit("Done");
    reveal_strlit("Failed");
    reveal_strlit("Failed: ");
    let s = status.text();
    assert("Failed"@[0] == 'F' && "Done"@[0] == 'D' && "Active"@[0] == 'A');
    assert("Pending"@[0] == 'P' && "Pending"@[1] == 'e');
    assert("Paused"@[0] == 'P' && "Paused"@[1] == 'a');
    if text::begins_with(s, "Failed"@) {
        assert(s.subrange(0, 6)[0] == s[0]);
    }
    if let job::StatusView::Failed(e) = status {
        assert(s[0] == 'F');
        assert(s.subrange(0, 6) =~= "Failed"@);
    }
}

/// A tab shows the jobs of its status in the order of the queue, and leaves out the others.
pub proof fn law_tabs_keep_the_order(jobs: Seq<message::SummaryView>, j: message::SummaryView, t: Tab)
    ensures
        t.shows(j.status) ==> shown(jobs.push(j), t) == shown(jobs, t).push(j),
        !t.shows(j.status) ==> shown(jobs.push(j), t) == shown(jobs, t),
        shown(Seq::empty(), t) == Seq::<message::SummaryView>::empty(),
{
    reveal(Seq::filter);
    assert(jobs.push(j).drop_last() =~= jobs);
}

} // verus!
