//! The state of the terminal interface, and what keys and the daemon do to it.

use vstd::prelude::*;
use vstd::string::*;

use crate::cli;
use crate::clock;
use crate::ipc::message;
use crate::ipc::message::{JobSummary, Request};
use crate::text;
use crate::ui::tab;
use crate::ui::tab::Tab;

verus! {

/// The state of the terminal interface. Moments are readings of the monotonic clock.
#[derive(Debug)]
pub struct App {
    /// All jobs.
    pub jobs: Vec<JobSummary>,
    /// The jobs of the current tab.
    pub filtered_jobs: Vec<JobSummary>,
    /// The row that is highlighted.
    pub selected: Option<usize>,
    /// The job that is selected, whatever its row.
    pub selected_job_id: Option<u64>,
    pub last_poll: i64,
    pub last_update: i64,
    pub animation_tick: usize,
    pub error: Option<String>,
    pub should_quit: bool,
    pub current_tab: Tab,
    /// Whether the dialog for a URL is open.
    pub input_mode: bool,
    pub input_buffer: String,
    pub max_connections: u8,
}

/// What an `App` holds.
pub struct AppView {
    pub jobs: Seq<message::SummaryView>,
    pub filtered: Seq<message::SummaryView>,
    pub selected: Option<usize>,
    pub selected_job_id: Option<u64>,
    pub last_poll: i64,
    pub last_update: i64,
    pub animation_tick: usize,
    pub error: Option<Seq<char>>,
    pub should_quit: bool,
    pub current_tab: Tab,
    pub input_mode: bool,
    pub input_buffer: Seq<char>,
    pub max_connections: u8,
}

impl View for App {
    type V = AppView;

    open spec fn view(&self) -> AppView {
        AppView {
            jobs: message::summaries(self.jobs@),
            filtered: message::summaries(self.filtered_jobs@),
            selected: self.selected,
            selected_job_id: self.selected_job_id,
            last_poll: self.last_poll,
            last_update: self.last_update,
            animation_tick: self.animation_tick,
            error: text::text_opt(self.error),
            should_quit: self.should_quit,
            current_tab: self.current_tab,
            input_mode: self.input_mode,
            input_buffer: self.input_buffer@,
            max_connections: self.max_connections,
        }
    }
}

/// The first row at or after `from` with the job `id`.
pub open spec fn row_from(jobs: Seq<message::SummaryView>, id: u64, from: int) -> Option<int>
    decreases jobs.len() - from,
{
    if from < 0 || from >= jobs.len() {
        None
    } else if jobs[from].id == id {
        Some(from)
    } else {
        row_from(jobs, id, from + 1)
    }
}

/// The first row with the job `id`.
pub open spec fn row_of(jobs: Seq<message::SummaryView>, id: u64) -> Option<int> {
    row_from(jobs, id, 0)
}

proof fn lemma_row_from(jobs: Seq<message::SummaryView>, id: u64, from: int)
    requires
        0 <= from,
    ensures
        match row_from(jobs, id, from) {
            Some(at) => from <= at < jobs.len() && jobs[at].id == id && forall|j: int|
                from <= j < at ==> (#[trigger] jobs[j]).id != id,
            None => forall|j: int| from <= j < jobs.len() ==> (#[trigger] jobs[j]).id != id,
        },
    decreases jobs.len() - from,
{
    if from < jobs.len() && jobs[from].id != id {
        lemma_row_from(jobs, id, from + 1);
    }
}

fn find_row(jobs: &Vec<JobSummary>, id: u64) -> (r: Option<usize>)
    ensures
        match r {
            Some(at) => row_of(message::summaries(jobs@), id) == Some(at as int) && at < jobs@.len(),
            None => row_of(message::summaries(jobs@), id) is None,
        },
{
    let ghost views = message::summaries(jobs@);
    let mut i: usize = 0;
    while i < jobs.len()
        invariant
            i <= jobs@.len(),
            views == message::summaries(jobs@),
            row_from(views, id, 0) == row_from(views, id, i as int),
        decreases jobs@.len() - i,
    {
        assert(views[i as int] == jobs@[i as int]@);
        if jobs[i].id == id {
            return Some(i);
        }
        i += 1;
    }
    None
}

/// What a line of the dialog asks for.
pub struct Parsed {
    pub urls: Seq<Seq<char>>,
    pub connections: u8,
    pub headers: Seq<(Seq<char>, Seq<char>)>,
}

/// A word of the dialog without the quotes around it.
pub open spec fn unquoted(word: Seq<char>) -> Seq<char> {
    text::strip(text::strip(word, seq!['"']), seq!['\''])
}

/// Whether `s` is an address that can be downloaded.
pub open spec fn is_web_url(s: Seq<char>) -> bool {
    text::begins_with(s, "http://"@) || text::begins_with(s, "https://"@)
}

/// What the words of a line ask for, from the word `i` on, after `so_far`. A number of connections
/// that cannot be read counts as `default`; headers that cannot be read, and words that are no
/// addresses, are left out.
pub open spec fn parsed_from(
    words: Seq<Seq<char>>,
    i: int,
    so_far: Parsed,
    default: u8,
) -> Parsed
    decreases words.len() - i,
{
    if i < 0 || i >= words.len() {
        so_far
    } else if words[i] == "-c"@ || words[i] == "--connections"@ {
        if i + 1 < words.len() {
            let connections = match text::parse_up_to(words[i + 1], 255) {
                Some(n) => n as u8,
                None => default,
            };
            parsed_from(words, i + 2, Parsed { connections, ..so_far }, default)
        } else {
            so_far
        }
    } else if words[i] == "-H"@ || words[i] == "--header"@ {
        if i + 1 < words.len() {
            let headers = match cli::parsed_header(words[i + 1]) {
                Some(h) => so_far.headers.push(h),
                None => so_far.headers,
            };
            parsed_from(words, i + 2, Parsed { headers, ..so_far }, default)
        } else {
            so_far
        }
    } else {
        let urls = if is_web_url(unquoted(words[i])) {
            so_far.urls.push(unquoted(words[i]))
        } else {
            so_far.urls
        };
        parsed_from(words, i + 1, Parsed { urls, ..so_far }, default)
    }
}

/// The request that the line `input` makes, with `default` connections unless it says otherwise;
/// none where it holds no address.
pub open spec fn submission(input: Seq<char>, default: u8) -> Option<message::RequestView> {
    let p = parsed_from(
        text::words(text::trim(input)),
        0,
        Parsed { urls: Seq::empty(), connections: default, headers: Seq::empty() },
        default,
    );
    if text::trim(input).len() > 0 && p.urls.len() > 0 {
        Some(
            message::RequestView::Add {
                urls: p.urls,
                output_dir: None,
                connections: p.connections,
                headers: p.headers,
            },
        )
    } else {
        None
    }
}

fn is_url_word(word: &str) -> (r: bool)
    ensures
        r == is_web_url(word@),
{
    text::starts_with(word, "http://") || text::starts_with(word, "https://")
}

fn unquote(word: &str) -> (r: String)
    ensures
        r@ == unquoted(word@),
{
    let double: Vec<char> = vec!['"'];
    let single: Vec<char> = vec!['\''];
    assert(double@ =~= seq!['"']);
    assert(single@ =~= seq!['\'']);
    text::strip_text(text::strip_text(word, &double).as_str(), &single)
}

/// The request that the line `input` makes: `URL [-c N] [-H key:val]*`.
pub fn read_submission(input: &str, default: u8) -> (r: Option<Request>)
    ensures
        match r {
            Some(request) => submission(input@, default) == Some(request@),
            None => submission(input@, default) is None,
        },
{
    let raw = text::trim_text(input);
    if raw.as_str().is_empty() {
        return None;
    }
    let words = text::split_words(raw.as_str());
    let ghost all = text::texts(words@);
    let mut urls: Vec<String> = Vec::new();
    let mut connections: u8 = default;
    let mut headers: Vec<(String, String)> = Vec::new();
    let mut i: usize = 0;
    let ghost start = Parsed { urls: Seq::empty(), connections: default, headers: Seq::empty() };
    proof {
        assert(text::texts(urls@) =~= Seq::empty());
        assert(text::text_pairs(headers@) =~= Seq::empty());
    }
    while i < words.len()
        invariant
            i <= words@.len(),
            all == text::texts(words@),
            parsed_from(all, 0, start, default) == parsed_from(
                all,
                i as int,
                Parsed {
                    urls: text::texts(urls@),
                    connections,
                    headers: text::text_pairs(headers@),
                },
                default,
            ),
        decreases words@.len() - i,
    {
        let word: &str = words[i].as_str();
        let ghost urls_before = urls@;
        let ghost headers_before = headers@;
        assert(all[i as int] == word@);
        if text::same_text(word, "-c") || text::same_text(word, "--connections") {
            if i + 1 < words.len() {
                i += 1;
                assert(all[i as int] == words@[i as int]@);
                connections = match text::parse_text(words[i].as_str(), 255) {
                    Some(n) => n as u8,
                    None => default,
                };
            }
        } else if text::same_text(word, "-H") || text::same_text(word, "--header") {
            if i + 1 < words.len() {
                i += 1;
                assert(all[i as int] == words@[i as int]@);
                match cli::parse_header(words[i].as_str()) {
                    Some(h) => {
                        headers.push(h);
                        assert(text::text_pairs(headers@) =~= text::text_pairs(headers_before).push(
                            (h.0@, h.1@),
                        ));
                    },
                    None => {},
                }
            }
        } else {
            let url = unquote(word);
            if is_url_word(url.as_str()) {
                let ghost held = url@;
                urls.push(url);
                assert(text::texts(urls@) =~= text::texts(urls_before).push(held));
            }
        }
        i += 1;
    }
    assert(text::texts(urls@).len() == urls@.len());
    if urls.len() > 0 {
        Some(Request::Add { urls, output_dir: None, connections, headers })
    } else {
        None
    }
}

impl AppView {
    /// The state with the jobs of the current tab picked anew. The selected job stays selected
    /// where it is still shown; else the job in the highlighted row is selected, where there is
    /// one.
    pub open spec fn refiltered(self) -> AppView {
        let filtered = tab::shown(self.jobs, self.current_tab);
        let row = match self.selected_job_id {
            Some(id) => row_of(filtered, id),
            None => None,
        };
        match row {
            Some(at) => AppView { filtered, selected: Some(at as usize), ..self },
            None => match self.selected {
                Some(sel) if sel < filtered.len() => AppView {
                    filtered,
                    selected_job_id: Some(filtered[sel as int].id),
                    ..self
                },
                _ => AppView { filtered, selected: None, selected_job_id: None, ..self },
            },
        }
    }

    /// The state after a look at the daemon at the moment `now`, which found `jobs`.
    pub open spec fn polled(
        self,
        jobs: Seq<message::SummaryView>,
        connected: bool,
        now: i64,
    ) -> AppView {
        let stale = clock::elapsed(now as int, self.last_update as int) > 3_000_000_000;
        AppView {
            last_poll: now,
            ..(AppView {
                jobs,
                error: if !connected && stale {
                    Some("Daemon unreachable"@)
                } else {
                    None
                },
                last_update: if connected || jobs.len() > 0 {
                    now
                } else {
                    self.last_update
                },
                ..self
            }).refiltered()
        }
    }

    /// The row of the selected job.
    pub open spec fn row(self) -> Option<int> {
        match self.selected_job_id {
            Some(id) => row_of(self.filtered, id),
            None => None,
        }
    }

    /// The selected job, where it is shown.
    pub open spec fn chosen(self) -> Option<message::SummaryView> {
        match self.row() {
            Some(at) => Some(self.filtered[at]),
            None => None,
        }
    }

    /// The state with the job `id` selected, or none.
    pub open spec fn with_selection(self, id: Option<u64>) -> AppView {
        AppView {
            selected_job_id: id,
            selected: match id {
                Some(i) => match row_of(self.filtered, i) {
                    Some(at) => Some(at as usize),
                    None => None,
                },
                None => None,
            },
            ..self
        }
    }

    /// The row below the selected one; the first row comes after the last.
    pub open spec fn row_below(self) -> int {
        match self.row() {
            Some(at) => (at + 1) % (self.filtered.len() as int),
            None => 0,
        }
    }

    /// The row above the selected one; the last row comes before the first.
    pub open spec fn row_above(self) -> int {
        match self.row() {
            Some(at) => if at == 0 {
                self.filtered.len() - 1
            } else {
                at - 1
            },
            None => self.filtered.len() - 1,
        }
    }

    /// The state with the job in the row `at` selected; without jobs, no row is highlighted.
    pub open spec fn at_row(self, at: int) -> AppView {
        if self.filtered.len() == 0 {
            AppView { selected: None, ..self }
        } else {
            self.with_selection(Some(self.filtered[at].id))
        }
    }

    /// The state in the next tab, with its first row highlighted unless the selected job is shown
    /// there too.
    pub open spec fn tabbed(self) -> AppView {
        (AppView {
            current_tab: self.current_tab.following(),
            selected: Some(0),
            ..self
        }).refiltered()
    }

    /// The selected job is the one in the highlighted row.
    pub open spec fn coherent(self) -> bool {
        match (self.selected, self.selected_job_id) {
            (Some(at), Some(id)) => at < self.filtered.len() && self.filtered[at as int].id == id,
            (None, None) => true,
            _ => false,
        }
    }
}

impl App {
    /// The state at the start. `max_connections` is the configured number, where there is one.
    pub fn new(max_connections: Option<u8>, now: i64) -> (r: App)
        requires
            now >= i64::MIN + 10_000_000_000,
        ensures
            r@ == (AppView {
                jobs: Seq::empty(),
                filtered: Seq::empty(),
                selected: Some(0),
                selected_job_id: None,
                last_poll: (now - 2_000_000_000) as i64,
                last_update: (now - 10_000_000_000) as i64,
                animation_tick: 0,
                error: None,
                should_quit: false,
                current_tab: Tab::All,
                input_mode: false,
                input_buffer: Seq::empty(),
                max_connections: match max_connections {
                    Some(n) => n,
                    None => 4,
                },
            }),
    {
        let r = App {
            jobs: Vec::new(),
            filtered_jobs: Vec::new(),
            selected: Some(0),
            selected_job_id: None,
            last_poll: now - 2_000_000_000,
            last_update: now - 10_000_000_000,
            animation_tick: 0,
            error: None,
            should_quit: false,
            current_tab: Tab::All,
            input_mode: false,
            input_buffer: String::new(),
            max_connections: match max_connections {
                Some(n) => n,
                None => 4,
            },
        };
        assert(r@.jobs =~= Seq::empty());
        assert(r@.filtered =~= Seq::empty());
        assert(r@.input_buffer =~= Seq::empty());
        r
    }

    /// Picks the jobs of the current tab anew.
    pub fn filter_jobs(&mut self)
        ensures
            final(self)@ == old(self)@.refiltered(),
    {
        self.filtered_jobs = tab::shown_jobs(&self.jobs, self.current_tab);
        assert(self@.filtered == tab::shown(self@.jobs, self@.current_tab));
        match self.selected_job_id {
            Some(id) => {
                match find_row(&self.filtered_jobs, id) {
                    Some(at) => {
                        self.selected = Some(at);
                        return;
                    },
                    None => {},
                }
            },
            None => {},
        }
        match self.selected {
            Some(sel) => {
                if sel < self.filtered_jobs.len() {
                    assert(self@.filtered[sel as int] == self.filtered_jobs@[sel as int]@);
                    self.selected_job_id = Some(self.filtered_jobs[sel].id);
                    return;
                }
            },
            None => {},
        }
        self.selected = None;
        self.selected_job_id = None;
    }

    /// How many jobs each tab shows, in the order of the tabs.
    pub fn tab_counts(&self) -> (r: (usize, usize, usize, usize, usize, usize))
        ensures
            r.0 == self@.jobs.len(),
            r.1 == tab::shown(self@.jobs, Tab::Active).len(),
            r.2 == tab::shown(self@.jobs, Tab::Pending).len(),
            r.3 == tab::shown(self@.jobs, Tab::Paused).len(),
            r.4 == tab::shown(self@.jobs, Tab::Done).len(),
            r.5 == tab::shown(self@.jobs, Tab::Failed).len(),
    {
        (
            self.jobs.len(),
            tab::count_shown(&self.jobs, Tab::Active),
            tab::count_shown(&self.jobs, Tab::Pending),
            tab::count_shown(&self.jobs, Tab::Paused),
            tab::count_shown(&self.jobs, Tab::Done),
            tab::count_shown(&self.jobs, Tab::Failed),
        )
    }

    fn selected_row(&self) -> (r: Option<usize>)
        ensures
            match r {
                Some(at) => self@.row() == Some(at as int) && at < self@.filtered.len(),
                None => self@.row() is None,
            },
    {
        match self.selected_job_id {
            Some(id) => find_row(&self.filtered_jobs, id),
            None => None,
        }
    }

    /// The selected job, where it is shown.
    pub fn selected_job(&self) -> (r: Option<&JobSummary>)
        ensures
            match r {
                Some(j) => self@.chosen() == Some(j@),
                None => self@.chosen() is None,
            },
    {
        match self.selected_row() {
            Some(at) => {
                assert(self@.filtered[at as int] == self.filtered_jobs@[at as int]@);
                Some(&self.filtered_jobs[at])
            },
            None => None,
        }
    }

    /// Whether it is time to look at the daemon again.
    pub fn poll_due(&self, now: i64) -> (r: bool)
        ensures
            r == (clock::elapsed(now as int, self@.last_poll as int) >= 200_000_000),
    {
        now > self.last_poll && now as i128 - self.last_poll as i128 >= 200_000_000
    }

    /// A look at the daemon at the moment `now` found `jobs`, and whether the subscription stands.
    pub fn poll_daemon(&mut self, jobs: Vec<JobSummary>, connected: bool, now: i64)
        ensures
            final(self)@ == old(self)@.polled(message::summaries(jobs@), connected, now),
    {
        if connected {
            self.last_update = now;
            self.error = None;
        } else if now > self.last_update && now as i128 - self.last_update as i128 > 3_000_000_000 {
            self.error = Some("Daemon unreachable".to_owned());
        } else {
            self.error = None;
        }
        if jobs.len() > 0 {
            self.last_update = now;
        }
        self.jobs = jobs;
        self.filter_jobs();
        self.last_poll = now;
    }

    /// The request that the open dialog makes.
    pub fn submit_url(&self) -> (r: Option<Request>)
        ensures
            match r {
                Some(request) => submission(self@.input_buffer, self@.max_connections) == Some(
                    request@,
                ),
                None => submission(self@.input_buffer, self@.max_connections) is None,
            },
    {
        read_submission(self.input_buffer.as_str(), self.max_connections)
    }

    /// Selects the job `id`, or none.
    pub fn select_by_id(&mut self, id: Option<u64>)
        ensures
            final(self)@ == old(self)@.with_selection(id),
    {
        self.selected_job_id = id;
        match id {
            Some(i) => {
                self.selected = find_row(&self.filtered_jobs, i);
            },
            None => {
                self.selected = None;
            },
        }
    }

    /// Selects the job in the row below.
    pub fn next_row(&mut self)
        ensures
            final(self)@ == old(self)@.at_row(old(self)@.row_below()),
    {
        if self.filtered_jobs.len() == 0 {
            self.selected = None;
            return;
        }
        let at: usize = match self.selected_row() {
            Some(pos) => {
                if pos + 1 < self.filtered_jobs.len() {
                    pos + 1
                } else {
                    0
                }
            },
            None => 0,
        };
        proof {
            let n = self@.filtered.len() as int;
            if self@.row() is Some {
                let pos = self@.row()->0;
                if pos + 1 < n {
                    assert((pos + 1) % n == pos + 1) by (nonlinear_arith)
                        requires
                            0 <= pos + 1 < n,
                    ;
                } else {
                    assert((pos + 1) % n == 0) by (nonlinear_arith)
                        requires
                            pos + 1 == n,
                            n > 0,
                    ;
                }
            }
            assert(self@.filtered[at as int] == self.filtered_jobs@[at as int]@);
        }
        let id: u64 = self.filtered_jobs[at].id;
        self.select_by_id(Some(id));
    }

    /// Selects the job in the row above.
    pub fn prev_row(&mut self)
        ensures
            final(self)@ == old(self)@.at_row(old(self)@.row_above()),
    {
        if self.filtered_jobs.len() == 0 {
            self.selected = None;
            return;
        }
        let at: usize = match self.selected_row() {
            Some(pos) => {
                if pos == 0 {
                    self.filtered_jobs.len() - 1
                } else {
                    pos - 1
                }
            },
            None => self.filtered_jobs.len() - 1,
        };
        assert(self@.filtered[at as int] == self.filtered_jobs@[at as int]@);
        let id: u64 = self.filtered_jobs[at].id;
        self.select_by_id(Some(id));
    }

    /// Goes to the next tab.
    pub fn next_tab(&mut self)
        ensures
            final(self)@ == old(self)@.tabbed(),
    {
        self.current_tab = self.current_tab.next();
        self.selected = Some(0);
        self.filter_jobs();
    }

    /// Moves the animations on.
    pub fn tick(&mut self)
        ensures
            final(self)@ == (AppView {
                animation_tick: old(self)@.animation_tick.wrapping_add(1),
                ..old(self)@
            }),
    {
        self.animation_tick = self.animation_tick.wrapping_add(1);
    }
}

/// A key press, as far as the interface tells them apart.
#[derive(Debug, Clone, Copy, PartialEq, Eq, Structural)]
pub enum Key {
    Enter,
    Esc,
    Char(char),
    Backspace,
    Down,
    Up,
    Tab,
    Other,
}

/// What is to be done after a key press.
#[derive(Debug)]
pub enum KeyAction {
    Nothing,
    /// Look at the daemon.
    Poll,
    /// Send the request, whatever comes of it, then look at the daemon.
    Send(Request),
}

/// What a `KeyAction` says.
pub enum ActionView {
    Nothing,
    Poll,
    Send(message::RequestView),
}

impl View for KeyAction {
    type V = ActionView;

    open spec fn view(&self) -> ActionView {
        match *self {
            KeyAction::Nothing => ActionView::Nothing,
            KeyAction::Poll => ActionView::Poll,
            KeyAction::Send(request) => ActionView::Send(request@),
        }
    }
}

impl AppView {
    /// The state with the dialog open or closed, and nothing typed.
    pub open spec fn with_dialog(self, open: bool) -> AppView {
        AppView { input_mode: open, input_buffer: Seq::empty(), ..self }
    }

    /// The state after a key was typed into the dialog.
    pub open spec fn typed(self, key: Key) -> AppView {
        match key {
            Key::Enter | Key::Esc => self.with_dialog(false),
            Key::Char(c) => AppView { input_buffer: self.input_buffer.push(c), ..self },
            Key::Backspace => if self.input_buffer.len() > 0 {
                AppView { input_buffer: self.input_buffer.drop_last(), ..self }
            } else {
                self
            },
            _ => self,
        }
    }

    /// The state after a key was pressed; `control` tells whether the control key, and no other
    /// such key, was held.
    pub open spec fn pressed(self, key: Key, control: bool) -> AppView {
        if self.input_mode {
            self.typed(key)
        } else if key == Key::Char('q') || (key == Key::Char('c') && control) {
            AppView { should_quit: true, ..self }
        } else if key == Key::Down || key == Key::Char('j') {
            self.at_row(self.row_below())
        } else if key == Key::Up || key == Key::Char('k') {
            self.at_row(self.row_above())
        } else if key == Key::Tab {
            self.tabbed()
        } else if key == Key::Char('a') {
            self.with_dialog(true)
        } else {
            self
        }
    }

    /// What is to be done after a key was pressed.
    pub open spec fn action(self, key: Key) -> ActionView {
        if self.input_mode {
            match (key, submission(self.input_buffer, self.max_connections)) {
                (Key::Enter, Some(request)) => ActionView::Send(request),
                _ => ActionView::Nothing,
            }
        } else {
            match self.chosen() {
                Some(job) => if key == Key::Char('p') {
                    if job.status == "Paused"@ {
                        ActionView::Send(message::RequestView::Resume { id: job.id })
                    } else if job.status == "Active"@ {
                        ActionView::Send(message::RequestView::Pause { id: job.id })
                    } else {
                        ActionView::Poll
                    }
                } else if key == Key::Char('x') {
                    ActionView::Send(message::RequestView::Cancel { id: job.id })
                } else {
                    ActionView::Nothing
                },
                None => ActionView::Nothing,
            }
        }
    }
}

impl App {
    fn type_key(&mut self, key: Key) -> (r: KeyAction)
        requires
            old(self)@.input_mode,
        ensures
            final(self)@ == old(self)@.typed(key),
            r@ == old(self)@.action(key),
    {
        match key {
            Key::Enter => {
                let request = self.submit_url();
                self.input_mode = false;
                self.input_buffer = String::new();
                assert(self@.input_buffer =~= Seq::empty());
                match request {
                    Some(request) => KeyAction::Send(request),
                    None => KeyAction::Nothing,
                }
            },
            Key::Esc => {
                self.input_mode = false;
                self.input_buffer = String::new();
                assert(self@.input_buffer =~= Seq::empty());
                KeyAction::Nothing
            },
            Key::Char(c) => {
                self.input_buffer.push(c);
                KeyAction::Nothing
            },
            Key::Backspace => {
                let typed = text::chars_of(self.input_buffer.as_str());
                if typed.len() > 0 {
                    self.input_buffer = text::string_of_range(&typed, 0, typed.len() - 1);
                    assert(self@.input_buffer =~= old(self)@.input_buffer.drop_last());
                }
                KeyAction::Nothing
            },
            _ => KeyAction::Nothing,
        }
    }

    fn pause_or_resume(&self) -> (r: KeyAction)
        requires
            !self@.input_mode,
        ensures
            r@ == self@.action(Key::Char('p')),
    {
        match self.selected_job() {
            Some(job) => {
                if text::same_text(job.status.as_str(), "Paused") {
                    KeyAction::Send(Request::Resume { id: job.id })
                } else if text::same_text(job.status.as_str(), "Active") {
                    KeyAction::Send(Request::Pause { id: job.id })
                } else {
                    KeyAction::Poll
                }
            },
            None => KeyAction::Nothing,
        }
    }

    /// A key was pressed; `control` tells whether the control key, and no other such key, was
    /// held. Tells what is to be done.
    pub fn handle_key(&mut self, key: Key, control: bool) -> (r: KeyAction)
        ensures
            final(self)@ == old(self)@.pressed(key, control),
            r@ == old(self)@.action(key),
    {
        if self.input_mode {
            return self.type_key(key);
        }
        match key {
            Key::Char('q') => {
                self.should_quit = true;
                KeyAction::Nothing
            },
            Key::Char('c') => {
                if control {
                    self.should_quit = true;
                }
                KeyAction::Nothing
            },
            Key::Down | Key::Char('j') => {
                self.next_row();
                KeyAction::Nothing
            },
            Key::Up | Key::Char('k') => {
                self.prev_row();
                KeyAction::Nothing
            },
            Key::Tab => {
                self.next_tab();
                KeyAction::Nothing
            },
            Key::Char('a') => {
                self.input_mode = true;
                self.input_buffer = String::new();
                assert(self@.input_buffer =~= Seq::empty());
                KeyAction::Nothing
            },
            Key::Char('p') => self.pause_or_resume(),
            Key::Char('x') => match self.selected_job() {
                Some(job) => KeyAction::Send(Request::Cancel { id: job.id }),
                None => KeyAction::Nothing,
            },
            _ => KeyAction::Nothing,
        }
    }
}

/// No two rows show the same job.
pub open spec fn distinct_rows(jobs: Seq<message::SummaryView>) -> bool {
    forall|i: int, j: int|
        0 <= i < j < jobs.len() ==> (#[trigger] jobs[i]).id != (#[trigger] jobs[j]).id
}

proof fn lemma_row_of_distinct(jobs: Seq<message::SummaryView>, at: int)
    requires
        distinct_rows(jobs),
        0 <= at < jobs.len(),
    ensures
        row_of(jobs, jobs[at].id) == Some(at),
{
    lemma_row_from(jobs, jobs[at].id, 0);
}

/// Going down one row and up again comes back to the selected job, and so does going up and down.
pub proof fn law_rows_go_both_ways(a: AppView)
    requires
        distinct_rows(a.filtered),
        a.filtered.len() <= usize::MAX,
        a.coherent(),
        a.selected is Some,
    ensures
        ({
            let down = a.at_row(a.row_below());
            down.at_row(down.row_above()) == a
        }),
        ({
            let up = a.at_row(a.row_above());
            up.at_row(up.row_below()) == a
        }),
{
    let n = a.filtered.len() as int;
    let at = a.selected->0 as int;
    lemma_row_of_distinct(a.filtered, at);
    assert(a.row() == Some(at));
    let below = a.row_below();
    let above = a.row_above();
    if at + 1 < n {
        assert((at + 1) % n == at + 1) by (nonlinear_arith)
            requires
                0 <= at + 1 < n,
        ;
    } else {
        assert((at + 1) % n == 0) by (nonlinear_arith)
            requires
                at + 1 == n,
                n > 0,
        ;
    }
    lemma_row_of_distinct(a.filtered, below);
    lemma_row_of_distinct(a.filtered, above);
    let up = a.at_row(above);
    assert(up.row() == Some(above));
    if above + 1 < n {
        assert((above + 1) % n == above + 1) by (nonlinear_arith)
            requires
                0 <= above + 1 < n,
        ;
    } else {
        assert((above + 1) % n == 0) by (nonlinear_arith)
            requires
                above + 1 == n,
                n > 0,
        ;
    }
}

proof fn lemma_refiltered_is_coherent(a: AppView)
    requires
        tab::shown(a.jobs, a.current_tab).len() <= usize::MAX,
    ensures
        a.refiltered().coherent(),
{
    let filtered = tab::shown(a.jobs, a.current_tab);
    match a.selected_job_id {
        Some(id) => {
            lemma_row_from(filtered, id, 0);
        },
        None => {},
    }
}

/// A look at the daemon and a change of tab leave the selected job in the highlighted row, and no
/// key takes it away from there.
pub proof fn law_selection_is_coherent(
    a: AppView,
    jobs: Seq<message::SummaryView>,
    connected: bool,
    now: i64,
    key: Key,
    control: bool,
)
    requires
        jobs.len() <= usize::MAX,
        a.jobs.len() <= usize::MAX,
        a.filtered.len() <= usize::MAX,
    ensures
        a.polled(jobs, connected, now).coherent(),
        a.tabbed().coherent(),
        a.coherent() ==> a.pressed(key, control).coherent(),
{
    let tabbed = AppView {
        current_tab: a.current_tab.following(),
        selected: Some(0),
        ..a
    };
    jobs.lemma_filter_len(|j: message::SummaryView| a.current_tab.shows(j.status));
    a.jobs.lemma_filter_len(|j: message::SummaryView| tabbed.current_tab.shows(j.status));
    lemma_refiltered_is_coherent(tabbed);
    lemma_refiltered_is_coherent(AppView { jobs, ..a });
    let after = a.polled(jobs, connected, now);
    assert(after.coherent()) by {
        match a.selected_job_id {
            Some(id) => {
                lemma_row_from(tab::shown(jobs, a.current_tab), id, 0);
            },
            None => {},
        }
    }
    if a.filtered.len() > 0 {
        let n = a.filtered.len() as int;
        match a.selected_job_id {
            Some(id) => {
                lemma_row_from(a.filtered, id, 0);
            },
            None => {},
        }
        let below = a.row_below();
        if a.row() is Some {
            let at = a.row()->0;
            assert(0 <= (at + 1) % n < n) by (nonlinear_arith)
                requires
                    n > 0,
            ;
        }
        assert(0 <= below < n);
        lemma_row_from(a.filtered, a.filtered[below].id, 0);
        lemma_row_from(a.filtered, a.filtered[a.row_above()].id, 0);
    }
}

/// A selected job stays selected as long as the current tab shows it.
pub proof fn law_selection_follows_the_job(
    a: AppView,
    jobs: Seq<message::SummaryView>,
    connected: bool,
    now: i64,
    id: u64,
)
    requires
        a.selected_job_id == Some(id),
        row_of(tab::shown(jobs, a.current_tab), id) is Some,
    ensures
        a.polled(jobs, connected, now).selected_job_id == Some(id),
        a.polled(jobs, connected, now).row() == row_of(tab::shown(jobs, a.current_tab), id),
{
}

/// An interface that hears from its daemon never reports it as unreachable.
pub proof fn law_connected_means_no_error(
    a: AppView,
    jobs: Seq<message::SummaryView>,
    now: i64,
)
    ensures
        a.polled(jobs, true, now).error is None,
        a.polled(jobs, true, now).last_update == now,
{
}

/// While the dialog is open, letters are typed into it: none of them quits, or asks anything of the
/// daemon.
pub proof fn law_typing_commands_nothing(a: AppView, c: char, control: bool)
    requires
        a.input_mode,
    ensures
        a.pressed(Key::Char(c), control) == (AppView { input_buffer: a.input_buffer.push(c), ..a }),
        a.action(Key::Char(c)) == ActionView::Nothing,
{
}

/// Whether all of `urls` are addresses that can be downloaded.
pub open spec fn all_web_urls(urls: Seq<Seq<char>>) -> bool {
    forall|i: int| 0 <= i < urls.len() ==> is_web_url(#[trigger] urls[i])
}

/// A line makes a request only for addresses, which begin with `http://` or `https://`.
pub proof fn law_only_web_urls_are_submitted(input: Seq<char>, default: u8)
    ensures
        match submission(input, default) {
            Some(message::RequestView::Add { urls, .. }) => urls.len() > 0
                && all_web_urls(urls),
            Some(_) => false,
            None => true,
        },
{
    lemma_only_web_urls(
        text::words(text::trim(input)),
        0,
        Parsed { urls: Seq::empty(), connections: default, headers: Seq::empty() },
        default,
    );
}

proof fn lemma_only_web_urls(words: Seq<Seq<char>>, i: int, so_far: Parsed, default: u8)
    requires
        all_web_urls(so_far.urls),
    ensures
        all_web_urls(parsed_from(words, i, so_far, default).urls),
    decreases words.len() - i,
{
    if i < 0 || i >= words.len() {
    } else if words[i] == "-c"@ || words[i] == "--connections"@ {
        if i + 1 < words.len() {
            let connections = match text::parse_up_to(words[i + 1], 255) {
                Some(n) => n as u8,
                None => default,
            };
            lemma_only_web_urls(words, i + 2, Parsed { connections, ..so_far }, default);
        }
    } else if words[i] == "-H"@ || words[i] == "--header"@ {
        if i + 1 < words.len() {
            let headers = match cli::parsed_header(words[i + 1]) {
                Some(h) => so_far.headers.push(h),
                None => so_far.headers,
            };
            lemma_only_web_urls(words, i + 2, Parsed { headers, ..so_far }, default);
        }
    } else {
        let urls = if is_web_url(unquoted(words[i])) {
            so_far.urls.push(unquoted(words[i]))
        } else {
            so_far.urls
        };
        lemma_only_web_urls(words, i + 1, Parsed { urls, ..so_far }, default);
    }
}

/// The row of a job is the first one that shows it; a job without a row is shown nowhere.
pub proof fn law_rows_show_their_job(jobs: Seq<message::SummaryView>, id: u64, i: int)
    requires
        0 <= i < jobs.len(),
    ensures
        jobs[i].id == id ==> row_of(jobs, id) is Some && row_of(jobs, id)->0 <= i,
        row_of(jobs, id) is Some ==> 0 <= row_of(jobs, id)->0 < jobs.len() && jobs[row_of(
            jobs,
            id,
        )->0].id == id,
{
    lemma_row_from(jobs, id, 0);
}

/// Jobs picked anew are those of the current tab, and nothing but the selection changes with them.
/// The selection passes to the job in the highlighted row only where the selected job is not shown,
/// and is lost only where there is no such row.
pub proof fn law_refiltering_changes_the_selection_only(a: AppView)
    requires
        a.jobs.len() <= usize::MAX,
    ensures
        ({
            let after = a.refiltered();
            let rows = after.filtered;
            let kept = a.selected_job_id is Some && row_of(rows, a.selected_job_id->0) is Some;
            &&& rows == tab::shown(a.jobs, a.current_tab)
            &&& after == (AppView {
                filtered: after.filtered,
                selected: after.selected,
                selected_job_id: after.selected_job_id,
                ..a
            })
            &&& kept ==> after.selected_job_id == a.selected_job_id && after.selected is Some
                && after.selected->0 == row_of(rows, a.selected_job_id->0)->0
            &&& !kept && a.selected is Some && a.selected->0 < rows.len() ==> after.selected
                == a.selected && after.selected_job_id == Some(rows[a.selected->0 as int].id)
            &&& !kept && (a.selected is None || a.selected->0 >= rows.len())
                ==> after.selected is None && after.selected_job_id is None
        }),
{
    let rows = tab::shown(a.jobs, a.current_tab);
    a.jobs.lemma_filter_len(|j: message::SummaryView| a.current_tab.shows(j.status));
    if a.selected_job_id is Some {
        lemma_row_from(rows, a.selected_job_id->0, 0);
    }
}

/// A look at the daemon takes over what it found. The daemon counts as unreachable only when nothing
/// was heard of it for more than three seconds, and jobs are a sign of it too.
pub proof fn law_polls_take_over_the_jobs(
    a: AppView,
    jobs: Seq<message::SummaryView>,
    connected: bool,
    now: i64,
)
    ensures
        ({
            let after = a.polled(jobs, connected, now);
            &&& after.jobs == jobs
            &&& after.filtered == tab::shown(jobs, a.current_tab)
            &&& after.last_poll == now
            &&& after.error is Some <==> !connected && now - a.last_update > 3_000_000_000
            &&& after.error is Some ==> after.error->0 == "Daemon unreachable"@
            &&& connected || jobs.len() > 0 ==> after.last_update == now
            &&& !connected && jobs.len() == 0 ==> after.last_update == a.last_update
            &&& after.current_tab == a.current_tab && after.should_quit == a.should_quit
            &&& after.input_mode == a.input_mode && after.input_buffer == a.input_buffer
            &&& after.animation_tick == a.animation_tick
            &&& after.max_connections == a.max_connections
        }),
{
}

/// A selection selects the job and highlights the row that shows it, and changes nothing else.
pub proof fn law_selections_highlight_the_row(a: AppView, id: u64, i: int)
    requires
        0 <= i < a.filtered.len() <= usize::MAX,
        distinct_rows(a.filtered),
        a.filtered[i].id == id,
    ensures
        a.with_selection(Some(id)) == (AppView {
            selected: Some(i as usize),
            selected_job_id: Some(id),
            ..a
        }),
        a.with_selection(None) == (AppView { selected: None, selected_job_id: None, ..a }),
        a.with_selection(Some(id)).chosen() == Some(a.filtered[i]),
        a.with_selection(None).chosen() is None,
{
    lemma_row_of_distinct(a.filtered, i);
}

/// The row below is the next one, and after the last the first; the row above is the one before, and
/// before the first the last. Where no job is selected, going down starts with the first row, and
/// going up with the last. Without rows there is nothing to select.
pub proof fn law_rows_step_by_one(a: AppView)
    requires
        a.filtered.len() <= usize::MAX,
    ensures
        ({
            let n = a.filtered.len() as int;
            let down = a.at_row(a.row_below());
            let up = a.at_row(a.row_above());
            &&& n > 0 && a.row() is None ==> down.selected_job_id == Some(a.filtered[0].id)
                && up.selected_job_id == Some(a.filtered[n - 1].id)
            &&& a.row() is Some ==> {
                let at = a.row()->0;
                &&& at + 1 < n ==> down.selected_job_id == Some(a.filtered[at + 1].id)
                &&& at + 1 == n ==> down.selected_job_id == Some(a.filtered[0].id)
                &&& at > 0 ==> up.selected_job_id == Some(a.filtered[at - 1].id)
                &&& at == 0 ==> up.selected_job_id == Some(a.filtered[n - 1].id)
                &&& 0 <= at < n
            }
            &&& n == 0 ==> down == (AppView { selected: None, ..a }) && up == down
            &&& down == (AppView {
                selected: down.selected,
                selected_job_id: down.selected_job_id,
                ..a
            })
            &&& up == (AppView {
                selected: up.selected,
                selected_job_id: up.selected_job_id,
                ..a
            })
        }),
{
    let n = a.filtered.len() as int;
    if a.selected_job_id is Some {
        lemma_row_from(a.filtered, a.selected_job_id->0, 0);
    }
    if a.row() is Some {
        let at = a.row()->0;
        if at + 1 < n {
            assert((at + 1) % n == at + 1) by (nonlinear_arith)
                requires
                    0 <= at + 1 < n,
            ;
        } else {
            assert((at + 1) % n == 0) by (nonlinear_arith)
                requires
                    at + 1 == n,
                    n > 0,
            ;
        }
    }
}

/// The next tab shows its own jobs. Its first row is highlighted where it does not show the selected
/// job.
pub proof fn law_next_tab_shows_its_jobs(a: AppView)
    requires
        a.jobs.len() <= usize::MAX,
    ensures
        ({
            let after = a.tabbed();
            let rows = tab::shown(a.jobs, a.current_tab.following());
            let kept = a.selected_job_id is Some && row_of(rows, a.selected_job_id->0) is Some;
            &&& after.current_tab == a.current_tab.following()
            &&& after.filtered == rows
            &&& after.jobs == a.jobs
            &&& kept ==> after.selected_job_id == a.selected_job_id
            &&& !kept && rows.len() > 0 ==> after.selected == Some(0usize)
                && after.selected_job_id == Some(rows[0].id)
            &&& rows.len() == 0 ==> after.selected is None && after.selected_job_id is None
        }),
{
    let turned = AppView { current_tab: a.current_tab.following(), selected: Some(0), ..a };
    law_refiltering_changes_the_selection_only(turned);
    let rows = tab::shown(a.jobs, a.current_tab.following());
    if a.selected_job_id is Some {
        lemma_row_from(rows, a.selected_job_id->0, 0);
    }
}

/// Outside the dialog each key does its own thing, whatever is shown: `q`, and `c` with the control
/// key, quit; `j` and `k` move like the arrows; `a` opens an empty dialog; other keys change
/// nothing. The control key matters for `c` alone.
pub proof fn law_keys_move_the_interface(a: AppView, key: Key, control: bool)
    requires
        !a.input_mode,
    ensures
        a.pressed(Key::Char('q'), control) == (AppView { should_quit: true, ..a }),
        a.pressed(Key::Char('c'), true) == (AppView { should_quit: true, ..a }),
        a.pressed(Key::Char('c'), false) == a,
        a.pressed(Key::Char('j'), control) == a.pressed(Key::Down, control),
        a.pressed(Key::Char('k'), control) == a.pressed(Key::Up, control),
        a.pressed(Key::Down, control) == a.at_row(a.row_below()),
        a.pressed(Key::Up, control) == a.at_row(a.row_above()),
        a.pressed(Key::Tab, control) == a.tabbed(),
        a.pressed(Key::Char('a'), control) == (AppView {
            input_mode: true,
            input_buffer: Seq::empty(),
            ..a
        }),
        a.pressed(Key::Char('p'), control) == a,
        a.pressed(Key::Char('x'), control) == a,
        a.pressed(Key::Enter, control) == a,
        a.pressed(Key::Esc, control) == a,
        a.pressed(Key::Backspace, control) == a,
        a.pressed(Key::Other, control) == a,
        key != Key::Char('c') ==> a.pressed(key, true) == a.pressed(key, false),
        a.pressed(key, control).should_quit ==> a.should_quit || key == Key::Char('q') || (key
            == Key::Char('c') && control),
        a.pressed(key, control).input_mode ==> key == Key::Char('a'),
        a.pressed(key, control).jobs == a.jobs,
{
}

/// Outside the dialog `p` pauses the selected job while it runs, takes it up again where it is
/// paused, and looks at the daemon otherwise; `x` cancels it. No other key asks anything, nor any
/// key where no job is selected.
pub proof fn law_keys_act_on_the_selected_job(a: AppView, key: Key)
    requires
        !a.input_mode,
    ensures
        match a.chosen() {
            Some(j) => {
                &&& j.status == "Active"@ ==> a.action(Key::Char('p')) == ActionView::Send(
                    message::RequestView::Pause { id: j.id },
                )
                &&& j.status == "Paused"@ ==> a.action(Key::Char('p')) == ActionView::Send(
                    message::RequestView::Resume { id: j.id },
                )
                &&& j.status != "Active"@ && j.status != "Paused"@ ==> a.action(Key::Char('p'))
                    == ActionView::Poll
                &&& a.action(Key::Char('x')) == ActionView::Send(
                    message::RequestView::Cancel { id: j.id },
                )
                &&& a.selected_job_id == Some(j.id)
            },
            None => a.action(key) is Nothing,
        },
        key != Key::Char('p') && key != Key::Char('x') ==> a.action(key) is Nothing,
{
    reveal_strlit("Active");
    reveal_strlit("Paused");
    assert("Active"@[0] == 'A' && "Paused"@[0] == 'P');
    if a.selected_job_id is Some {
        lemma_row_from(a.filtered, a.selected_job_id->0, 0);
    }
}

/// In the dialog the backspace key takes back the last letter, if there is one; the enter and the
/// escape key close the dialog and forget what was typed; other keys do nothing.
pub proof fn law_typing_can_be_taken_back(a: AppView, c: char, control: bool)
    requires
        a.input_mode,
    ensures
        a.pressed(Key::Char(c), control).pressed(Key::Backspace, control) == a,
        a.input_buffer.len() == 0 ==> a.pressed(Key::Backspace, control) == a,
        a.pressed(Key::Enter, control) == (AppView {
            input_mode: false,
            input_buffer: Seq::empty(),
            ..a
        }),
        a.pressed(Key::Esc, control) == a.pressed(Key::Enter, control),
        a.pressed(Key::Down, control) == a,
        a.pressed(Key::Up, control) == a,
        a.pressed(Key::Tab, control) == a,
        a.pressed(Key::Other, control) == a,
        a.action(Key::Esc) is Nothing,
        a.action(Key::Backspace) is Nothing,
        a.action(Key::Down) is Nothing,
        a.action(Key::Up) is Nothing,
        a.action(Key::Tab) is Nothing,
        a.action(Key::Other) is Nothing,
{
    assert(a.input_buffer.push(c).drop_last() =~= a.input_buffer);
}

/// The enter key sends what the dialog asks for, with the configured number of connections unless
/// it says otherwise.
pub proof fn law_enter_submits_the_dialog(a: AppView)
    requires
        a.input_mode,
    ensures
        match submission(a.input_buffer, a.max_connections) {
            Some(request) => a.action(Key::Enter) == ActionView::Send(request),
            None => a.action(Key::Enter) is Nothing,
        },
{
}

/// Whether `word` is an address without quotes around it.
pub open spec fn plain_url(word: Seq<char>) -> bool {
    &&& is_web_url(word)
    &&& word.last() != '"'
    &&& word.last() != '\''
}

/// Whether all of `words` are addresses without quotes.
pub open spec fn plain_urls(words: Seq<Seq<char>>) -> bool {
    forall|i: int| 0 <= i < words.len() ==> plain_url(#[trigger] words[i])
}

/// Addresses begin with a letter.
proof fn lemma_plain_url(word: Seq<char>)
    requires
        plain_url(word),
    ensures
        unquoted(word) == word,
        word != "-c"@,
        word != "--connections"@,
        word != "-H"@,
        word != "--header"@,
{
    reveal_strlit("http://");
    reveal_strlit("https://");
    reveal_strlit("-c");
    reveal_strlit("--connections");
    reveal_strlit("-H");
    reveal_strlit("--header");
    if text::begins_with(word, "http://"@) {
        assert(word.subrange(0, 7)[0] == word[0]);
    } else {
        assert(word.subrange(0, 8)[0] == word[0]);
    }
    assert(word[0] == 'h');
    assert("-c"@[0] == '-' && "--connections"@[0] == '-' && "-H"@[0] == '-' && "--header"@[0]
        == '-');
    text::lemma_nothing_to_strip(word, seq!['"']);
    text::lemma_nothing_to_strip(word, seq!['\'']);
}

/// Addresses from the word `i` to before the word `k` are added in their order.
proof fn lemma_plain_urls(words: Seq<Seq<char>>, i: int, k: int, so_far: Parsed, default: u8)
    requires
        0 <= i <= k <= words.len(),
        forall|j: int| i <= j < k ==> plain_url(#[trigger] words[j]),
    ensures
        parsed_from(words, i, so_far, default) == parsed_from(
            words,
            k,
            Parsed { urls: so_far.urls + words.subrange(i, k), ..so_far },
            default,
        ),
    decreases k - i,
{
    if i < k {
        lemma_plain_url(words[i]);
        let next = Parsed { urls: so_far.urls.push(words[i]), ..so_far };
        lemma_plain_urls(words, i + 1, k, next, default);
        assert(next.urls + words.subrange(i + 1, k) =~= so_far.urls + words.subrange(i, k));
    } else {
        assert(so_far.urls + words.subrange(i, k) =~= so_far.urls);
    }
}

/// What the line `input` asks for, where it asks for anything.
pub open spec fn asked(
    input: Seq<char>,
    default: u8,
    urls: Seq<Seq<char>>,
    connections: u8,
    headers: Seq<(Seq<char>, Seq<char>)>,
) -> bool {
    submission(input, default) == if urls.len() > 0 {
        Some(message::RequestView::Add { urls, output_dir: None, connections, headers })
    } else {
        None
    }
}

/// A line of addresses asks for these, in their order and with the default number of connections.
pub proof fn law_lines_ask_for_their_urls(input: Seq<char>, default: u8)
    requires
        text::trim(input).len() > 0,
        plain_urls(text::words(text::trim(input))),
    ensures
        asked(input, default, text::words(text::trim(input)), default, Seq::empty()),
{
    let words = text::words(text::trim(input));
    let start = Parsed { urls: Seq::empty(), connections: default, headers: Seq::empty() };
    lemma_plain_urls(words, 0, words.len() as int, start, default);
    assert(start.urls + words.subrange(0, words.len() as int) =~= words);
}

/// A number after `-c` or `--connections`, wherever it stands among the addresses, is the number of
/// connections that is asked for; where it cannot be read, the default stays.
pub proof fn law_lines_ask_for_connections(
    input: Seq<char>,
    default: u8,
    a: Seq<Seq<char>>,
    option: Seq<char>,
    number: Seq<char>,
    b: Seq<Seq<char>>,
)
    requires
        text::trim(input).len() > 0,
        text::words(text::trim(input)) == a + seq![option, number] + b,
        option == "-c"@ || option == "--connections"@,
        plain_urls(a),
        plain_urls(b),
    ensures
        match text::parse_up_to(number, 255) {
            Some(n) => asked(input, default, a + b, n as u8, Seq::empty()),
            None => asked(input, default, a + b, default, Seq::empty()),
        },
{
    let words = text::words(text::trim(input));
    let n = a.len() as int;
    let start = Parsed { urls: Seq::empty(), connections: default, headers: Seq::empty() };
    lemma_around_an_option(words, a, option, number, b);
    lemma_plain_urls(words, 0, n, start, default);
    let connections = match text::parse_up_to(number, 255) {
        Some(n) => n as u8,
        None => default,
    };
    let after = Parsed { urls: start.urls + words.subrange(0, n), connections, ..start };
    lemma_plain_urls(words, n + 2, words.len() as int, after, default);
    assert(after.urls + words.subrange(n + 2, words.len() as int) =~= a + b);
}

/// A header after `-H` or `--header`, wherever it stands among the addresses, is sent along; one
/// that cannot be read is left out.
pub proof fn law_lines_ask_for_headers(
    input: Seq<char>,
    default: u8,
    a: Seq<Seq<char>>,
    option: Seq<char>,
    header: Seq<char>,
    b: Seq<Seq<char>>,
)
    requires
        text::trim(input).len() > 0,
        text::words(text::trim(input)) == a + seq![option, header] + b,
        option == "-H"@ || option == "--header"@,
        plain_urls(a),
        plain_urls(b),
    ensures
        match cli::parsed_header(header) {
            Some(h) => asked(input, default, a + b, default, seq![h]),
            None => asked(input, default, a + b, default, Seq::empty()),
        },
{
    reveal_strlit("-c");
    reveal_strlit("--connections");
    reveal_strlit("-H");
    reveal_strlit("--header");
    assert("-c"@[1] == 'c' && "-H"@[1] == 'H');
    assert("--connections"@.len() == 13 && "--header"@.len() == 8);
    let words = text::words(text::trim(input));
    let n = a.len() as int;
    let start = Parsed { urls: Seq::empty(), connections: default, headers: Seq::empty() };
    lemma_around_an_option(words, a, option, header, b);
    lemma_plain_urls(words, 0, n, start, default);
    let headers = match cli::parsed_header(header) {
        Some(h) => start.headers.push(h),
        None => start.headers,
    };
    let after = Parsed { urls: start.urls + words.subrange(0, n), headers, ..start };
    lemma_plain_urls(words, n + 2, words.len() as int, after, default);
    assert(after.urls + words.subrange(n + 2, words.len() as int) =~= a + b);
    assert(cli::parsed_header(header) matches Some(h) ==> headers =~= seq![h]);
}

proof fn lemma_around_an_option(
    words: Seq<Seq<char>>,
    a: Seq<Seq<char>>,
    option: Seq<char>,
    value: Seq<char>,
    b: Seq<Seq<char>>,
)
    requires
        words == a + seq![option, value] + b,
        plain_urls(a),
        plain_urls(b),
    ensures
        words.len() == a.len() + 2 + b.len(),
        words[a.len() as int] == option,
        words[a.len() + 1int] == value,
        words.subrange(0, a.len() as int) == a,
        words.subrange(a.len() + 2int, words.len() as int) == b,
        forall|j: int| 0 <= j < a.len() ==> plain_url(#[trigger] words[j]),
        forall|j: int| a.len() + 2 <= j < words.len() ==> plain_url(#[trigger] words[j]),
{
    let n = a.len() as int;
    assert(words.subrange(0, n) =~= a);
    assert(words.subrange(n + 2, words.len() as int) =~= b);
    assert forall|j: int| 0 <= j < n implies plain_url(#[trigger] words[j]) by {
        assert(words[j] == a[j]);
    }
    assert forall|j: int| n + 2 <= j < words.len() implies plain_url(#[trigger] words[j]) by {
        assert(words[j] == b[j - n - 2]);
    }
}

/// Quotes around an address are no part of it, whichever they are.
pub proof fn law_quotes_are_taken_off(url: Seq<char>, quote: char)
    requires
        plain_url(url),
        quote == '"' || quote == '\'',
    ensures
        unquoted(seq![quote] + url + seq![quote]) == url,
{
    lemma_plain_url(url);
    let quoted = seq![quote] + url + seq![quote];
    let double = seq!['"'];
    let single = seq!['\''];
    assert(url.len() > 0 && url[0] == 'h') by {
        reveal_strlit("http://");
        reveal_strlit("https://");
        if text::begins_with(url, "http://"@) {
            assert(url.subrange(0, 7)[0] == url[0]);
        } else {
            assert(url.subrange(0, 8)[0] == url[0]);
        }
    }
    if quote == '"' {
        text::lemma_strip_one(url, '"');
        text::lemma_nothing_to_strip(url, single);
    } else {
        text::lemma_nothing_to_strip(quoted, double);
        text::lemma_strip_one(url, '\'');
    }
}

/// Addresses that can be downloaded are those that begin with one of the two schemes.
pub proof fn law_web_urls_have_a_scheme(rest: Seq<char>, s: Seq<char>)
    ensures
        is_web_url("http://"@ + rest),
        is_web_url("https://"@ + rest),
        is_web_url(s) ==> s == "http://"@ + s.skip(7) || s == "https://"@ + s.skip(8),
{
    reveal_strlit("http://");
    reveal_strlit("https://");
    text::law_beginnings_stand_first("http://"@ + rest, "http://"@);
    text::law_beginnings_stand_first("https://"@ + rest, "https://"@);
    if text::begins_with(s, "http://"@) {
        assert(s =~= "http://"@ + s.skip(7));
    } else if text::begins_with(s, "https://"@) {
        assert(s =~= "https://"@ + s.skip(8));
    }
}

} // verus!
