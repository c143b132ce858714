//! The command line: what each command does, and how answers are printed.

use vstd::prelude::*;
use vstd::string::*;

use crate::clock::Clock;
use crate::config::Settings;
use crate::daemon::handler;
use crate::daemon::laws as daemon_laws;
use crate::ipc::message;
use crate::ipc::message::{JobSummary, Request, Response};
use crate::listing;
use crate::paths;
use crate::queue::manager;
use crate::text;
use crate::utils;

verus! {

/// A parsed command line.
#[derive(Debug)]
pub struct Cli {
    pub command: Commands,
}

/// The commands.
#[derive(Debug)]
pub enum Commands {
    /// Download a single file immediately (bypasses queue and daemon)
    Get { url: String, output: Option<String>, connections: u8 },
    /// Start the background daemon (run this first)
    Daemon { concurrent: usize },
    /// Add one or more URLs to the queue
    Add { urls: Vec<String>, dir: Option<String>, connections: u8, header: Vec<String> },
    /// Show current queue status (active and pending only)
    Queue { all: bool },
    /// Pause a running job by ID
    Pause { id: u64 },
    /// Cancel a job by ID
    Cancel { id: u64 },
    /// Open the live TUI (daemon must be running)
    Tui,
    /// Dev mode: auto-start daemon, open TUI, kill daemon on exit
    Dev { concurrent: usize },
    /// Shut the daemon down
    Shutdown,
    /// Show current config
    Config,
    /// Show completed job history
    History { limit: u32 },
    /// Prune old job history
    Prune { dry_run: bool, days: Option<u32> },
}

/// What a command comes down to.
#[derive(Debug)]
pub enum Plan {
    /// Download one file, without the daemon.
    Download { url: String, output_path: String, connections: u8 },
    /// Print `banner`, then be the daemon.
    RunDaemon { banner: String, concurrent: usize },
    /// Print `warnings` as errors, send `request` to the daemon, and print its response.
    Send { warnings: Vec<String>, request: Request },
    /// Open the terminal interface.
    Tui,
    /// Open the terminal interface with a daemon of its own.
    Dev { concurrent: usize },
    /// Print the settings.
    ShowConfig,
}

/// What a `Plan` says.
pub enum PlanView {
    Download { url: Seq<char>, output_path: Seq<char>, connections: u8 },
    RunDaemon { banner: Seq<char>, concurrent: usize },
    Send { warnings: Seq<Seq<char>>, request: message::RequestView },
    Tui,
    Dev { concurrent: usize },
    ShowConfig,
}

impl View for Plan {
    type V = PlanView;

    open spec fn view(&self) -> PlanView {
        match *self {
            Plan::Download { url, output_path, connections } => PlanView::Download {
                url: url@,
                output_path: output_path@,
                connections,
            },
            Plan::RunDaemon { banner, concurrent } => PlanView::RunDaemon {
                banner: banner@,
                concurrent,
            },
            Plan::Send { warnings, request } => PlanView::Send {
                warnings: text::texts(warnings@),
                request: request@,
            },
            Plan::Tui => PlanView::Tui,
            Plan::Dev { concurrent } => PlanView::Dev { concurrent },
            Plan::ShowConfig => PlanView::ShowConfig,
        }
    }
}

/// Where the file of `url` goes: to `output`, or under its own name into `download_dir`.
pub open spec fn output_for(
    url: Seq<char>,
    output: Option<Seq<char>>,
    download_dir: Seq<char>,
) -> Seq<char> {
    match output {
        Some(path) => path,
        None => paths::joined_path(download_dir, utils::filename(url)),
    }
}

/// Where the file of `url` goes: to `output`, or under its own name into `download_dir`.
pub fn resolve_output(url: &str, output: Option<String>, download_dir: &str) -> (r: String)
    ensures
        r@ == output_for(url@, text::text_opt(output), download_dir@),
{
    match output {
        Some(path) => path,
        None => paths::join_path(download_dir, utils::filename_from_url(url).as_str()),
    }
}

/// The header that `h` writes as `Key: Value`: what stands before the first colon, and what stands
/// after it.
pub open spec fn parsed_header(h: Seq<char>) -> Option<(Seq<char>, Seq<char>)> {
    match text::find(h, seq![':']) {
        Some(at) => Some((text::trim(h.take(at)), text::trim(h.skip(at + 1)))),
        None => None,
    }
}

/// The header that `h` writes as `Key: Value`.
pub fn parse_header(h: &str) -> (r: Option<(String, String)>)
    ensures
        match r {
            Some(p) => parsed_header(h@) == Some((p.0@, p.1@)),
            None => parsed_header(h@) is None,
        },
{
    let chars = text::chars_of(h);
    let colon: Vec<char> = vec![':'];
    assert(colon@ =~= seq![':']);
    match text::find_chars(&chars, &colon) {
        Some(at) => {
            let key = text::string_of_range(&chars, 0, at);
            let value = text::string_of_range(&chars, at + 1, chars.len());
            assert(key@ =~= h@.take(at as int));
            assert(value@ =~= h@.skip(at + 1));
            Some((text::trim_text(key.as_str()), text::trim_text(value.as_str())))
        },
        None => None,
    }
}

/// The headers among `hs`, in order.
pub open spec fn parsed_headers(hs: Seq<Seq<char>>) -> Seq<(Seq<char>, Seq<char>)>
    decreases hs.len(),
{
    if hs.len() == 0 {
        Seq::empty()
    } else {
        match parsed_header(hs.last()) {
            Some(p) => parsed_headers(hs.drop_last()).push(p),
            None => parsed_headers(hs.drop_last()),
        }
    }
}

/// The warning about a header that cannot be read.
pub open spec fn header_warning(h: Seq<char>) -> Seq<char> {
    "Warning: invalid header format '"@ + h + "', expected 'Key: Value'"@
}

/// The warnings about those of `hs` that are no headers, in order.
pub open spec fn header_warnings(hs: Seq<Seq<char>>) -> Seq<Seq<char>>
    decreases hs.len(),
{
    if hs.len() == 0 {
        Seq::empty()
    } else {
        match parsed_header(hs.last()) {
            Some(_) => header_warnings(hs.drop_last()),
            None => header_warnings(hs.drop_last()).push(header_warning(hs.last())),
        }
    }
}

/// Reads the headers `hs`; those that cannot be read are left out, with a warning each.
pub fn parse_headers(hs: &Vec<String>) -> (r: (Vec<(String, String)>, Vec<String>))
    ensures
        text::text_pairs(r.0@) == parsed_headers(text::texts(hs@)),
        text::texts(r.1@) == header_warnings(text::texts(hs@)),
{
    let mut headers: Vec<(String, String)> = Vec::new();
    let mut warnings: Vec<String> = Vec::new();
    let ghost all = text::texts(hs@);
    let mut i: usize = 0;
    proof {
        assert(all.take(0) =~= Seq::empty());
        assert(text::text_pairs(headers@) =~= parsed_headers(all.take(0)));
        assert(text::texts(warnings@) =~= header_warnings(all.take(0)));
    }
    while i < hs.len()
        invariant
            i <= hs@.len(),
            all == text::texts(hs@),
            text::text_pairs(headers@) == parsed_headers(all.take(i as int)),
            text::texts(warnings@) == header_warnings(all.take(i as int)),
        decreases hs@.len() - i,
    {
        let ghost before = headers@;
        let ghost warned = warnings@;
        proof {
            assert(all.take(i + 1).drop_last() =~= all.take(i as int));
            assert(all.take(i + 1).last() == hs@[i as int]@);
        }
        match parse_header(hs[i].as_str()) {
            Some(p) => {
                headers.push(p);
                assert(text::text_pairs(headers@) =~= text::text_pairs(before).push((p.0@, p.1@)));
            },
            None => {
                let mut w = "Warning: invalid header format '".to_owned();
                w.append(hs[i].as_str());
                w.append("', expected 'Key: Value'");
                let ghost written = w@;
                warnings.push(w);
                assert(text::texts(warnings@) =~= text::texts(warned).push(written));
            },
        }
        i += 1;
    }
    assert(all.take(hs@.len() as int) =~= all);
    (headers, warnings)
}

/// What `command` comes down to.
pub open spec fn plan_of(command: Commands, settings: Settings) -> PlanView {
    match command {
        Commands::Get { url, output, connections } => PlanView::Download {
            url: url@,
            output_path: output_for(url@, text::text_opt(output), settings.download_dir@),
            connections,
        },
        Commands::Daemon { concurrent } => PlanView::RunDaemon {
            banner: "Starting shard daemon (max "@ + text::decimal(concurrent as nat)
                + " concurrent)…"@,
            concurrent,
        },
        Commands::Add { urls, dir, connections, header } => PlanView::Send {
            warnings: header_warnings(text::texts(header@)),
            request: message::RequestView::Add {
                urls: text::texts(urls@),
                output_dir: Some(
                    match dir {
                        Some(d) => d@,
                        None => settings.download_dir@,
                    },
                ),
                connections,
                headers: parsed_headers(text::texts(header@)),
            },
        },
        Commands::Queue { all } => send(message::RequestView::Status { all }),
        Commands::Pause { id } => send(message::RequestView::Pause { id }),
        Commands::Cancel { id } => send(message::RequestView::Cancel { id }),
        Commands::Tui => PlanView::Tui,
        Commands::Dev { concurrent } => PlanView::Dev { concurrent },
        Commands::Shutdown => send(message::RequestView::Shutdown),
        Commands::Config => PlanView::ShowConfig,
        Commands::History { limit } => send(message::RequestView::History { limit }),
        Commands::Prune { dry_run, days } => send(
            message::RequestView::Prune {
                days: match days {
                    Some(d) => d,
                    None => settings.prune_days,
                },
                statuses: text::texts(settings.prune_statuses@),
                dry_run,
            },
        ),
    }
}

/// Send `request`, without warnings.
pub open spec fn send(request: message::RequestView) -> PlanView {
    PlanView::Send { warnings: Seq::empty(), request }
}

fn send_plan(request: Request) -> (r: Plan)
    ensures
        r@ == send(request@),
{
    let warnings: Vec<String> = Vec::new();
    assert(text::texts(warnings@) =~= Seq::empty());
    Plan::Send { warnings, request }
}

impl Cli {
    /// What the command comes down to.
    pub fn plan(self, settings: &Settings) -> (r: Plan)
        ensures
            r@ == plan_of(self.command, *settings),
    {
        match self.command {
            Commands::Get { url, output, connections } => {
                let output_path = resolve_output(
                    url.as_str(),
                    output,
                    settings.download_dir.as_str(),
                );
                Plan::Download { url, output_path, connections }
            },
            Commands::Daemon { concurrent } => {
                let mut banner = "Starting shard daemon (max ".to_owned();
                banner.append(text::decimal_text(concurrent as u64).as_str());
                banner.append(" concurrent)…");
                Plan::RunDaemon { banner, concurrent }
            },
            Commands::Add { urls, dir, connections, header } => {
                let output_dir = match dir {
                    Some(d) => d,
                    None => settings.download_dir.clone(),
                };
                let (headers, warnings) = parse_headers(&header);
                Plan::Send {
                    warnings,
                    request: Request::Add {
                        urls,
                        output_dir: Some(output_dir),
                        connections,
                        headers,
                    },
                }
            },
            Commands::Queue { all } => send_plan(Request::Status { all }),
            Commands::Pause { id } => send_plan(Request::Pause { id }),
            Commands::Cancel { id } => send_plan(Request::Cancel { id }),
            Commands::Tui => Plan::Tui,
            Commands::Dev { concurrent } => Plan::Dev { concurrent },
            Commands::Shutdown => send_plan(Request::Shutdown),
            Commands::Config => Plan::ShowConfig,
            Commands::History { limit } => send_plan(Request::History { limit }),
            Commands::Prune { dry_run, days } => {
                let days: u32 = match days {
                    Some(d) => d,
                    None => settings.prune_days,
                };
                send_plan(
                    Request::Prune {
                        days,
                        statuses: text::copy_texts(&settings.prune_statuses),
                        dry_run,
                    },
                )
            },
        }
    }
}

/// What is printed for a response.
#[derive(Debug)]
pub struct Printed {
    /// To the standard output.
    pub out: String,
    /// To the standard error.
    pub err: String,
}

/// The lines of the first `n` jobs, each with its percentage.
pub open spec fn job_rows(
    jobs: Seq<message::SummaryView>,
    percents: Seq<Seq<char>>,
    n: nat,
) -> Seq<char>
    decreases n,
{
    if n == 0 {
        Seq::empty()
    } else {
        job_rows(jobs, percents, (n - 1) as nat) + listing::row(
            jobs[n - 1].id,
            jobs[n - 1].url,
            text::padded(jobs[n - 1].status, 12),
            percents[n - 1],
        )
    }
}

/// The table of `jobs`, each with its percentage.
pub open spec fn job_table(jobs: Seq<message::SummaryView>, percents: Seq<Seq<char>>) -> Seq<char> {
    if jobs.len() == 0 {
        "Queue is empty.\n"@
    } else {
        listing::head(12, 82) + job_rows(jobs, percents, jobs.len()) + "\n"@
    }
}

/// Whether the URL of every job has a place in the table.
pub open spec fn all_fit(jobs: Seq<message::SummaryView>) -> bool {
    forall|i: int| 0 <= i < jobs.len() ==> listing::fits_column((#[trigger] jobs[i]).url)
}

fn do_all_fit(jobs: &Vec<JobSummary>) -> (r: bool)
    ensures
        r == all_fit(message::summaries(jobs@)),
{
    let mut i: usize = 0;
    while i < jobs.len()
        invariant
            i <= jobs@.len(),
            forall|k: int|
                0 <= k < i ==> listing::fits_column(
                    (#[trigger] message::summaries(jobs@)[k]).url,
                ),
        decreases jobs@.len() - i,
    {
        assert(message::summaries(jobs@)[i as int] == jobs@[i as int]@);
        if !listing::can_shorten(jobs[i].url.as_str()) {
            return false;
        }
        i += 1;
    }
    true
}

fn job_table_text(jobs: &Vec<JobSummary>, percents: &Vec<String>) -> (r: String)
    requires
        jobs@.len() == percents@.len(),
        all_fit(message::summaries(jobs@)),
    ensures
        r@ == job_table(message::summaries(jobs@), text::texts(percents@)),
{
    if jobs.len() == 0 {
        return "Queue is empty.\n".to_owned();
    }
    let mut rows = String::new();
    let ghost views = message::summaries(jobs@);
    let mut i: usize = 0;
    while i < jobs.len()
        invariant
            i <= jobs@.len() == percents@.len(),
            views == message::summaries(jobs@),
            all_fit(views),
            rows@ == job_rows(views, text::texts(percents@), i as nat),
        decreases jobs@.len() - i,
    {
        let j: &JobSummary = &jobs[i];
        assert(views[i as int] == j@);
        rows.append(
            listing::row_text(
                j.id,
                j.url.as_str(),
                text::pad_right(j.status.as_str(), 12).as_str(),
                percents[i].as_str(),
            ).as_str(),
        );
        i += 1;
    }
    let mut r = listing::head_text(12, 82);
    r.append(rows.as_str());
    r.append("\n");
    r
}

/// The jobs that a response lists.
pub open spec fn listed_jobs(response: message::ResponseView) -> Seq<message::SummaryView> {
    match response {
        message::ResponseView::JobList { jobs } => jobs,
        message::ResponseView::Update { jobs } => jobs,
        _ => Seq::empty(),
    }
}

/// Whether `print_response` has a place for every job of `response`.
pub fn can_print(response: &Response) -> (r: bool)
    ensures
        r == all_fit(listed_jobs(response@)),
{
    match response {
        Response::JobList { jobs } => do_all_fit(jobs),
        Response::Update { jobs } => do_all_fit(jobs),
        _ => true,
    }
}

/// One line for each of the first `n` numbers.
pub open spec fn queued_lines(ids: Seq<u64>, n: nat) -> Seq<char>
    decreases n,
{
    if n == 0 {
        Seq::empty()
    } else {
        queued_lines(ids, (n - 1) as nat) + "Queued #"@ + text::decimal(ids[n - 1] as nat) + "\n"@
    }
}

/// What is printed to the standard output for `response`.
pub open spec fn printed(response: message::ResponseView, percents: Seq<Seq<char>>) -> Seq<char> {
    match response {
        message::ResponseView::Queued { ids } => queued_lines(ids, ids.len()),
        message::ResponseView::Success { message } => message + "\n"@,
        message::ResponseView::JobList { jobs } => job_table(jobs, percents),
        message::ResponseView::Subscribed => "Subscribed to real-time updates\n"@,
        message::ResponseView::Update { jobs } => job_table(jobs, percents),
        message::ResponseView::PruneResult { count, message } => message + "\n"@,
        message::ResponseView::Error { .. } => Seq::empty(),
    }
}

/// What is printed to the standard error for `response`.
pub open spec fn printed_error(response: message::ResponseView) -> Seq<char> {
    match response {
        message::ResponseView::Error { message } => "Error: "@ + message + "\n"@,
        _ => Seq::empty(),
    }
}

/// Pretty-print daemon responses; `percents` holds the percentage of each job that is listed.
pub fn print_response(response: &Response, percents: &Vec<String>) -> (r: Printed)
    requires
        all_fit(listed_jobs(response@)),
        listed_jobs(response@).len() == percents@.len(),
    ensures
        r.out@ == printed(response@, text::texts(percents@)),
        r.err@ == printed_error(response@),
{
    let mut out = String::new();
    let mut err = String::new();
    match response {
        Response::Queued { ids } => {
            let mut i: usize = 0;
            while i < ids.len()
                invariant
                    i <= ids@.len(),
                    out@ == queued_lines(ids@, i as nat),
                decreases ids@.len() - i,
            {
                out.append("Queued #");
                out.append(text::decimal_text(ids[i]).as_str());
                out.append("\n");
                i += 1;
            }
        },
        Response::Success { message } | Response::PruneResult { count: _, message } => {
            out.append(message.as_str());
            out.append("\n");
            assert(out@ =~= message@ + "\n"@);
        },
        Response::JobList { jobs } | Response::Update { jobs } => {
            out = job_table_text(jobs, percents);
        },
        Response::Subscribed => {
            out = "Subscribed to real-time updates\n".to_owned();
        },
        Response::Error { message } => {
            err.append("Error: ");
            err.append(message.as_str());
            err.append("\n");
            assert(err@ =~= "Error: "@ + message@ + "\n"@);
        },
    }
    Printed { out, err }
}

/// How far the start of a daemon for the terminal interface has come.
#[derive(Debug, Clone, Copy, PartialEq, Eq, Structural)]
pub enum DevStart {
    /// The socket was not there at so many looks.
    Waiting { looks: u8 },
    /// The waiting is over; the socket is looked for once more.
    LastLook,
    /// The socket is there: the interface can be opened.
    Ready,
    /// The daemon failed to start: it is stopped.
    Failed,
}

/// How often the socket is looked for, a tenth of a second apart.
pub const DEV_LOOKS: u8 = 50;

impl DevStart {
    /// The state after a look that found the socket (`found`) or not.
    pub open spec fn next(self, found: bool) -> DevStart {
        match self {
            DevStart::Waiting { looks } => if found || looks + 1 >= DEV_LOOKS {
                DevStart::LastLook
            } else {
                DevStart::Waiting { looks: (looks + 1) as u8 }
            },
            DevStart::LastLook => if found {
                DevStart::Ready
            } else {
                DevStart::Failed
            },
            _ => self,
        }
    }

    /// The state after a look that found the socket (`found`) or not, and whether a tenth of a
    /// second passes before the next look.
    pub fn look(self, found: bool) -> (r: (DevStart, bool))
        ensures
            r.0 == self.next(found),
            r.1 == (self is Waiting && !found),
    {
        match self {
            DevStart::Waiting { looks } => if found || looks >= DEV_LOOKS - 1 {
                (DevStart::LastLook, !found)
            } else {
                (DevStart::Waiting { looks: looks + 1 }, true)
            },
            DevStart::LastLook => if found {
                (DevStart::Ready, false)
            } else {
                (DevStart::Failed, false)
            },
            DevStart::Ready => (self, false),
            DevStart::Failed => (self, false),
        }
    }
}

/// The state after `n` looks that did not find the socket.
pub open spec fn unseen(n: nat) -> DevStart
    decreases n,
{
    if n == 0 {
        DevStart::Waiting { looks: 0 }
    } else {
        unseen((n - 1) as nat).next(false)
    }
}

/// A daemon whose socket never appears is given up after the last look, and not before.
pub proof fn law_dev_start_gives_up(n: nat)
    ensures
        n < DEV_LOOKS ==> unseen(n) == (DevStart::Waiting { looks: n as u8 }),
        n == DEV_LOOKS ==> unseen(n) is LastLook,
        n > DEV_LOOKS ==> unseen(n) is Failed,
    decreases n,
{
    if n > 0 {
        law_dev_start_gives_up((n - 1) as nat);
    }
}

/// A header that is written as `Key: Value` is read back.
pub proof fn law_header_is_read_back(key: Seq<char>, value: Seq<char>)
    requires
        !key.contains(':'),
        text::trim(key) == key,
        text::trim(value) == value,
    ensures
        parsed_header(key + seq![':', ' '] + value) == Some((key, value)),
{
    let h = key + seq![':', ' '] + value;
    let n = key.len() as int;
    text::lemma_find_from(h, seq![':'], 0);
    assert(h.subrange(n, n + 1) =~= seq![':']);
    assert(text::matches_at(h, seq![':'], n));
    let at = text::find(h, seq![':'])->0;
    assert(h.subrange(at, at + 1)[0] == ':');
    assert(at == n) by {
        if at < n {
            assert(key[at] == ':');
        }
    }
    assert(h.take(n) =~= key);
    let rest = h.skip(n + 1);
    assert(rest =~= seq![' '] + value);
    assert(text::space_chars()[5] == ' ');
    assert(rest.drop_first() =~= value);
    assert(text::drop_leading(rest, text::space_chars()) == text::drop_leading(
        value,
        text::space_chars(),
    ));
}

/// A header is read exactly where there is a colon: what stands before the first one is the key,
/// what stands after it the value, without white space around them.
pub proof fn law_headers_are_split_at_the_first_colon(key: Seq<char>, value: Seq<char>)
    requires
        forall|i: int| 0 <= i < key.len() ==> #[trigger] key[i] != ':',
    ensures
        parsed_header(key + (seq![':'] + value)) == Some((text::trim(key), text::trim(value))),
        parsed_header(key) is None,
{
    let h = key + (seq![':'] + value);
    text::law_first_find(key, seq![':'], value);
    assert(h.take(key.len() as int) =~= key);
    assert(h.skip(key.len() + 1int) =~= value);
    text::lemma_find_from(key, seq![':'], 0);
    if text::find(key, seq![':']) is Some {
        let at = text::find(key, seq![':'])->0;
        assert(key.subrange(at, at + 1)[0] == ':');
        assert(key[at] == ':');
    }
}

/// Every header is either taken, behind those before it, or warned about in its own words.
pub proof fn law_headers_are_taken_or_warned_about(hs: Seq<Seq<char>>, h: Seq<char>)
    ensures
        match parsed_header(h) {
            Some(p) => parsed_headers(hs.push(h)) == parsed_headers(hs).push(p) && header_warnings(
                hs.push(h),
            ) == header_warnings(hs),
            None => parsed_headers(hs.push(h)) == parsed_headers(hs) && header_warnings(hs.push(h))
                == header_warnings(hs).push(header_warning(h)) && text::has_text(
                header_warning(h),
                h,
            ),
        },
        parsed_headers(Seq::empty()) == Seq::<(Seq<char>, Seq<char>)>::empty(),
        header_warnings(Seq::empty()) == Seq::<Seq<char>>::empty(),
{
    assert(hs.push(h).drop_last() =~= hs);
    assert(header_warning(h) == "Warning: invalid header format '"@ + h
        + "', expected 'Key: Value'"@);
    text::law_found_text_stands_there(header_warning(h), h);
}

/// A single download goes to the path that was asked for, or else under the name in its URL into the
/// download directory, over the connections that were asked for.
pub proof fn law_get_downloads_the_url(
    url: String,
    output: Option<String>,
    connections: u8,
    settings: Settings,
    site: Seq<char>,
    name: Seq<char>,
)
    requires
        url@ == site + seq!['/'] + name,
        name.len() > 0,
        !name.contains('/'),
        settings.download_dir@.len() > 0,
        settings.download_dir@.last() != '/',
    ensures
        plan_of(Commands::Get { url, output, connections }, settings) matches PlanView::Download {
            url: u,
            output_path,
            connections: c,
        } && u == url@ && c == connections && (output matches Some(path) ==> output_path == path@)
            && (output is None ==> output_path == settings.download_dir@ + seq!['/'] + name),
{
    utils::law_filename_is_what_follows_the_last_slash(site, name);
    assert(name.contains(name[0]));
    assert(paths::joined_path(settings.download_dir@, name) =~= settings.download_dir@ + seq!['/']
        + name);
}

/// What is asked to be added is what is sent: the URLs, the directory or else the configured one,
/// the connections, and the headers that can be read; each of the others gives a warning.
pub proof fn law_add_sends_what_was_asked(
    urls: Vec<String>,
    dir: Option<String>,
    connections: u8,
    header: Vec<String>,
    settings: Settings,
)
    ensures
        ({
            &&& plan_of(Commands::Add { urls, dir, connections, header }, settings) matches PlanView::Send {
                warnings,
                request,
            }
            &&& request matches message::RequestView::Add {
                urls: sent,
                output_dir,
                connections: c,
                headers,
            }
            &&& sent == text::texts(urls@)
            &&& c == connections
            &&& headers == parsed_headers(text::texts(header@))
            &&& warnings == header_warnings(text::texts(header@))
            &&& dir is Some ==> output_dir == Some(dir->0@)
            &&& dir is None ==> output_dir == Some(settings.download_dir@)
        }),
{
}

/// A prune is a dry run exactly where that was asked for, and reaches as many days back as was asked
/// for or else configured. Unless it is dry, what the daemon does with it is a deletion.
pub proof fn law_prune_is_dry_only_on_request(
    dry_run: bool,
    days: Option<u32>,
    settings: Settings,
    q: manager::QueueView,
    dir: Seq<char>,
    clock: Clock,
)
    ensures
        ({
            &&& plan_of(Commands::Prune { dry_run, days }, settings) matches PlanView::Send {
                warnings,
                request,
            }
            &&& warnings.len() == 0
            &&& request matches message::RequestView::Prune {
                days: sent_days,
                statuses,
                dry_run: dry,
            }
            &&& dry == dry_run
            &&& statuses == text::texts(settings.prune_statuses@)
            &&& days is None ==> sent_days == settings.prune_days
            &&& days is Some ==> sent_days == days->0
            &&& match handler::action(q, request, dir, clock) {
                handler::ActionView::PruneHistory { statement } => !dry_run && (statement is Some
                    <==> settings.prune_statuses@.len() > 0) && (statement is Some
                    ==> text::begins_with(statement->0, "DELETE FROM job_history WHERE "@)),
                handler::ActionView::CountHistory { statement } => dry_run && (statement is Some
                    <==> settings.prune_statuses@.len() > 0) && (statement is Some
                    ==> text::begins_with(
                    statement->0,
                    "SELECT COUNT(*) FROM job_history WHERE "@,
                )),
                _ => false,
            }
        }),
{
    let statuses = text::texts(settings.prune_statuses@);
    let sent_days = match days {
        Some(d) => d,
        None => settings.prune_days,
    };
    daemon_laws::law_prune_deletes_unless_dry(q, sent_days, statuses, dry_run, 0, dir, clock);
}

/// Commands about the daemon send the request of their name, about the job and with the options that
/// were given; none of them warns.
pub proof fn law_commands_send_their_request(id: u64, all: bool, limit: u32, settings: Settings)
    ensures
        plan_of(Commands::Pause { id }, settings) == (PlanView::Send {
            warnings: Seq::empty(),
            request: message::RequestView::Pause { id },
        }),
        plan_of(Commands::Cancel { id }, settings) == (PlanView::Send {
            warnings: Seq::empty(),
            request: message::RequestView::Cancel { id },
        }),
        plan_of(Commands::Queue { all }, settings) == (PlanView::Send {
            warnings: Seq::empty(),
            request: message::RequestView::Status { all },
        }),
        plan_of(Commands::History { limit }, settings) == (PlanView::Send {
            warnings: Seq::empty(),
            request: message::RequestView::History { limit },
        }),
        plan_of(Commands::Shutdown, settings) == (PlanView::Send {
            warnings: Seq::empty(),
            request: message::RequestView::Shutdown,
        }),
{
}

/// A daemon, with or without the interface, works on as many downloads at a time as was asked for,
/// and announces that number.
pub proof fn law_daemons_take_the_asked_limit(concurrent: usize, settings: Settings)
    ensures
        plan_of(Commands::Daemon { concurrent }, settings) matches PlanView::RunDaemon {
            banner,
            concurrent: c,
        } && c == concurrent && text::has_text(banner, text::decimal(concurrent as nat)),
        plan_of(Commands::Dev { concurrent }, settings) == (PlanView::Dev { concurrent }),
        plan_of(Commands::Tui, settings) is Tui,
        plan_of(Commands::Config, settings) is ShowConfig,
{
    let n = text::decimal(concurrent as nat);
    let banner = "Starting shard daemon (max "@ + n + " concurrent)…"@;
    text::law_found_text_stands_there(banner, n);
}

/// Nothing but an error is printed as an error, and an error says what is wrong.
pub proof fn law_only_errors_are_printed_as_errors(
    response: message::ResponseView,
    percents: Seq<Seq<char>>,
)
    ensures
        printed_error(response).len() > 0 <==> response is Error,
        response matches message::ResponseView::Error { message } ==> text::has_text(
            printed_error(response),
            message,
        ) && printed(response, percents).len() == 0,
        response matches message::ResponseView::Success { message } ==> printed(response, percents)
            == message.push('\n'),
        response matches message::ResponseView::PruneResult { count, message } ==> printed(
            response,
            percents,
        ) == message.push('\n'),
{
    reveal_strlit("\n");
    reveal_strlit("Error: ");
    match response {
        message::ResponseView::Error { message } => {
            assert(printed_error(response) == "Error: "@ + message + "\n"@);
            text::law_found_text_stands_there(printed_error(response), message);
        },
        message::ResponseView::Success { message } => {
            assert(message + "\n"@ =~= message.push('\n'));
        },
        message::ResponseView::PruneResult { count, message } => {
            assert(message + "\n"@ =~= message.push('\n'));
        },
        _ => {},
    }
}

/// Every job that a response lists has its row, with its number, its URL, its status and its
/// percentage.
pub proof fn law_every_listed_job_has_its_row(
    jobs: Seq<message::SummaryView>,
    percents: Seq<Seq<char>>,
    i: int,
)
    requires
        0 <= i < jobs.len(),
    ensures
        ({
            let row = listing::row(
                jobs[i].id,
                jobs[i].url,
                text::padded(jobs[i].status, 12),
                percents[i],
            );
            &&& text::has_text(
                printed(message::ResponseView::JobList { jobs }, percents),
                row,
            )
            &&& text::has_text(printed(message::ResponseView::Update { jobs }, percents), row)
        }),
{
    let row = listing::row(
        jobs[i].id,
        jobs[i].url,
        text::padded(jobs[i].status, 12),
        percents[i],
    );
    lemma_rows_hold(jobs, percents, jobs.len(), i);
    let rows = job_rows(jobs, percents, jobs.len());
    let (a, b) = choose|a: Seq<char>, b: Seq<char>| rows == #[trigger] (a + row + b);
    let table = job_table(jobs, percents);
    assert(table =~= (listing::head(12, 82) + a) + row + (b + "\n"@));
    text::law_found_text_stands_there(table, row);
}

proof fn lemma_rows_hold(
    jobs: Seq<message::SummaryView>,
    percents: Seq<Seq<char>>,
    n: nat,
    i: int,
)
    requires
        0 <= i < n <= jobs.len(),
    ensures
        exists|a: Seq<char>, b: Seq<char>|
            job_rows(jobs, percents, n) == #[trigger] (a + listing::row(
                jobs[i].id,
                jobs[i].url,
                text::padded(jobs[i].status, 12),
                percents[i],
            ) + b),
    decreases n,
{
    let row = listing::row(
        jobs[i].id,
        jobs[i].url,
        text::padded(jobs[i].status, 12),
        percents[i],
    );
    let before = job_rows(jobs, percents, (n - 1) as nat);
    if i == n - 1 {
        assert(job_rows(jobs, percents, n) =~= before + row + Seq::<char>::empty());
    } else {
        lemma_rows_hold(jobs, percents, (n - 1) as nat, i);
        let (a, b) = choose|a: Seq<char>, b: Seq<char>| before == #[trigger] (a + row + b);
        let last = listing::row(
            jobs[n - 1].id,
            jobs[n - 1].url,
            text::padded(jobs[n - 1].status, 12),
            percents[n - 1],
        );
        assert(job_rows(jobs, percents, n) =~= a + row + (b + last));
    }
}

/// One row more is printed below the others.
pub proof fn law_rows_stand_in_order(
    jobs: Seq<message::SummaryView>,
    percents: Seq<Seq<char>>,
    n: nat,
)
    ensures
        job_rows(jobs, percents, n + 1) == job_rows(jobs, percents, n) + listing::row(
            jobs[n as int].id,
            jobs[n as int].url,
            text::padded(jobs[n as int].status, 12),
            percents[n as int],
        ),
        job_rows(jobs, percents, 0) == Seq::<char>::empty(),
{
}

/// Every number that was queued is told on a line of its own, in order.
pub proof fn law_every_queued_number_is_told(ids: Seq<u64>, n: nat)
    ensures
        queued_lines(ids, n + 1) == queued_lines(ids, n) + ("Queued #"@ + text::decimal(
            ids[n as int] as nat,
        ) + "\n"@),
        queued_lines(ids, 0) == Seq::<char>::empty(),
        printed(message::ResponseView::Queued { ids }, Seq::empty()) == queued_lines(ids, ids.len()),
{
    assert(queued_lines(ids, n + 1) =~= queued_lines(ids, n) + ("Queued #"@ + text::decimal(
        ids[n as int] as nat,
    ) + "\n"@));
}

/// A socket that is there at two looks makes the daemon ready, whatever came before, and a state that
/// is reached stays.
pub proof fn law_dev_start_gets_ready(state: DevStart, found: bool)
    ensures
        state is Waiting ==> state.next(true).next(true) is Ready,
        state is LastLook ==> state.next(true) is Ready && state.next(false) is Failed,
        state is Ready || state is Failed ==> state.next(found) == state,
{
}

/// A list and an update list their jobs, and no other response lists any; it can be printed where
/// every listed URL has a place.
pub proof fn law_responses_list_their_jobs(
    response: message::ResponseView,
    jobs: Seq<message::SummaryView>,
    j: message::SummaryView,
)
    ensures
        listed_jobs(message::ResponseView::JobList { jobs }) == jobs,
        listed_jobs(message::ResponseView::Update { jobs }) == jobs,
        !(response is JobList || response is Update) ==> listed_jobs(response).len() == 0,
        all_fit(Seq::empty()),
        all_fit(jobs.push(j)) <==> all_fit(jobs) && listing::fits_column(j.url),
{
    let more = jobs.push(j);
    if all_fit(more) {
        assert forall|i: int| 0 <= i < jobs.len() implies listing::fits_column(
            (#[trigger] jobs[i]).url,
        ) by {
            assert(more[i] == jobs[i]);
        }
        assert(more[jobs.len() as int] == j);
    }
    if all_fit(jobs) && listing::fits_column(j.url) {
        assert forall|i: int| 0 <= i < more.len() implies listing::fits_column(
            (#[trigger] more[i]).url,
        ) by {
            if i < jobs.len() {
                assert(more[i] == jobs[i]);
            }
        }
    }
}

/// An update is printed like a list, an error with the word for it, and a confirmed subscription
/// with words alone.
pub proof fn law_updates_are_printed_like_lists(
    jobs: Seq<message::SummaryView>,
    percents: Seq<Seq<char>>,
    message: Seq<char>,
)
    ensures
        printed(message::ResponseView::Update { jobs }, percents) == printed(
            message::ResponseView::JobList { jobs },
            percents,
        ),
        printed_error(message::ResponseView::Error { message }) == "Error: "@ + message + "\n"@,
        printed(message::ResponseView::Subscribed, percents)
            == "Subscribed to real-time updates\n"@,
        jobs.len() == 0 ==> printed(message::ResponseView::JobList { jobs }, percents)
            == "Queue is empty.\n"@,
        jobs.len() > 0 ==> text::begins_with(
            printed(message::ResponseView::JobList { jobs }, percents),
            listing::head(12, 82),
        ),
{
    if jobs.len() > 0 {
        let table = job_table(jobs, percents);
        let head = listing::head(12, 82);
        assert(table =~= head + (job_rows(jobs, percents, jobs.len()) + "\n"@));
        text::law_beginnings_stand_first(table, head);
    }
}

/// A daemon has fifty looks, a tenth of a second apart, for its socket to appear.
pub proof fn law_dev_start_takes_fifty_looks(n: nat)
    ensures
        n < 50 <==> unseen(n) is Waiting,
        n == 50 <==> unseen(n) is LastLook,
        n > 50 <==> unseen(n) is Failed,
{
    assert(DEV_LOOKS == 50);
    law_dev_start_gives_up(n);
}

} // verus!
