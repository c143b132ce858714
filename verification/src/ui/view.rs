//! What the terminal interface shows: the texts of its parts, and where its dialog stands.

use vstd::prelude::*;
use vstd::string::*;

use crate::ipc::message;
use crate::ipc::message::JobSummary;
use crate::queue::job;
use crate::text;
use crate::ui::app::App;
use crate::ui::figures;
use crate::ui::tab;
use crate::ui::tab::Tab;
use crate::utils;

verus! {

/// The look of a status.
#[derive(Debug, Clone, Copy, PartialEq, Eq, Structural)]
pub enum Tone {
    Active,
    Pending,
    Paused,
    Done,
    Cancelled,
    Failed,
    Other,
}

/// The look of the status `s`. A job that was cancelled looks different from one that failed
/// otherwise.
pub open spec fn tone(s: Seq<char>) -> Tone {
    if s == "Active"@ {
        Tone::Active
    } else if s == "Pending"@ {
        Tone::Pending
    } else if s == "Paused"@ {
        Tone::Paused
    } else if s == "Done"@ {
        Tone::Done
    } else if text::has_text(s, "Cancelled"@) {
        Tone::Cancelled
    } else if text::begins_with(s, "Failed"@) {
        Tone::Failed
    } else {
        Tone::Other
    }
}

/// The look of the status `s`.
pub fn tone_of(s: &str) -> (r: Tone)
    ensures
        r == tone(s@),
{
    if text::same_text(s, "Active") {
        Tone::Active
    } else if text::same_text(s, "Pending") {
        Tone::Pending
    } else if text::same_text(s, "Paused") {
        Tone::Paused
    } else if text::same_text(s, "Done") {
        Tone::Done
    } else if text::contains_text(s, "Cancelled") {
        Tone::Cancelled
    } else if text::starts_with(s, "Failed") {
        Tone::Failed
    } else {
        Tone::Other
    }
}

/// The pictures of the spinner.
pub open spec fn spinner() -> Seq<char> {
    seq!['⠋', '⠙', '⠹', '⠸', '⠼', '⠴', '⠦', '⠧', '⠇', '⠏']
}

/// The badge of the status `s`, at the tick `tick` of the animation.
pub open spec fn badge(s: Seq<char>, tick: nat) -> Seq<char> {
    match tone(s) {
        Tone::Active => seq![spinner()[(tick % 10) as int]] + " DL"@,
        Tone::Pending => "◌ QUEUED"@,
        Tone::Paused => "⏸ PAUSED"@,
        Tone::Done => "✓ DONE"@,
        Tone::Cancelled => "✗ CANCELLED"@,
        Tone::Failed => "✗ FAILED"@,
        Tone::Other => s,
    }
}

fn badge_text(s: &str, tick: usize) -> (r: String)
    ensures
        r@ == badge(s@, tick as nat),
{
    match tone_of(s) {
        Tone::Active => {
            let frames: Vec<char> = vec!['⠋', '⠙', '⠹', '⠸', '⠼', '⠴', '⠦', '⠧', '⠇', '⠏'];
            assert(frames@ =~= spinner());
            let mut r = String::new();
            r.push(frames[tick % 10]);
            r.append(" DL");
            r
        },
        Tone::Pending => "◌ QUEUED".to_owned(),
        Tone::Paused => "⏸ PAUSED".to_owned(),
        Tone::Done => "✓ DONE".to_owned(),
        Tone::Cancelled => "✗ CANCELLED".to_owned(),
        Tone::Failed => "✗ FAILED".to_owned(),
        Tone::Other => s.to_owned(),
    }
}

/// The foremost cell of a progress bar; it moves while the job runs.
pub open spec fn bar_head(active: bool, tick: nat) -> char {
    if !active {
        '█'
    } else if tick % 3 == 0 {
        '▓'
    } else if tick % 3 == 1 {
        '▒'
    } else {
        '░'
    }
}

/// A progress bar of 14 cells, `filled` of which are full.
pub open spec fn bar(active: bool, tick: nat, filled: nat) -> Seq<char> {
    let full = if filled > 0 {
        text::repeated('█', (filled - 1) as nat).push(bar_head(active, tick))
    } else {
        Seq::empty()
    };
    full + text::repeated(
        '▒',
        if filled < 14 {
            (14 - filled) as nat
        } else {
            0
        },
    )
}

fn bar_text(active: bool, tick: usize, filled: usize) -> (r: String)
    ensures
        r@ == bar(active, tick as nat, filled as nat),
{
    let mut r = String::new();
    if filled > 0 {
        r = text::repeat_char('█', filled - 1);
        let head: char = if !active {
            '█'
        } else if tick % 3 == 0 {
            '▓'
        } else if tick % 3 == 1 {
            '▒'
        } else {
            '░'
        };
        r.push(head);
    }
    assert(filled == 0 ==> r@ =~= Seq::empty());
    let rest: usize = if filled < 14 {
        14 - filled
    } else {
        0
    };
    r.append(text::repeat_char('▒', rest).as_str());
    r
}

/// How long a job still takes, where that can be told.
pub open spec fn eta(j: message::SummaryView) -> Seq<char> {
    match j.speed_bps {
        Some(speed) if j.total_size > j.downloaded && speed > 0 => figures::duration_text(
            ((j.total_size - j.downloaded) / (speed as int)) as u64,
        ),
        _ => "—"@,
    }
}

fn eta_text(j: &JobSummary) -> (r: String)
    ensures
        r@ == eta(j@),
{
    if j.total_size > j.downloaded {
        match j.speed_bps {
            Some(speed) => {
                if speed > 0 {
                    let remaining: u64 = j.total_size - j.downloaded;
                    return figures::format_duration(remaining / speed);
                }
            },
            None => {},
        }
    }
    "—".to_owned()
}

/// The speed of a job, or a dash.
pub open spec fn speed(j: message::SummaryView) -> Seq<char> {
    match j.speed_bps {
        Some(s) => figures::speed_text(s),
        None => "—"@,
    }
}

/// One row of the table of jobs.
#[derive(Debug)]
pub struct TableRow {
    pub id: String,
    pub time: String,
    pub file: String,
    pub badge: String,
    pub tone: Tone,
    pub progress: String,
    pub size: String,
    pub speed: String,
    pub eta: String,
}

/// The row of the job `j`, at the tick `tick` of the animation and the second `now`. `filled` of
/// the 14 cells of its bar are full, and `percent` is its percentage.
pub fn table_row(j: &JobSummary, tick: usize, filled: usize, percent: &str, now: i64) -> (r: TableRow)
    ensures
        r.id@ == text::decimal(j@.id as nat),
        r.time@ == figures::range_text(j@.started_at, j@.ended_at, now),
        r.file@ == utils::filename(j@.url),
        r.badge@ == badge(j@.status, tick as nat),
        r.tone == tone(j@.status),
        r.progress@ == bar(j@.status == "Active"@, tick as nat, filled as nat) + " "@ + percent@
            + "%"@,
        r.size@ == figures::bytes_text(j@.total_size),
        r.speed@ == speed(j@),
        r.eta@ == eta(j@),
{
    let mut progress = bar_text(text::same_text(j.status.as_str(), "Active"), tick, filled);
    progress.append(" ");
    progress.append(percent);
    progress.append("%");
    TableRow {
        id: text::decimal_text(j.id),
        time: figures::format_epoch_range(j.started_at, j.ended_at, now),
        file: utils::filename_from_url(j.url.as_str()),
        badge: badge_text(j.status.as_str(), tick),
        tone: tone_of(j.status.as_str()),
        progress,
        size: figures::format_bytes(j.total_size),
        speed: match j.speed_bps {
            Some(s) => figures::format_speed(s),
            None => "—".to_owned(),
        },
        eta: eta_text(j),
    }
}

/// What stands in place of a table without rows.
pub fn placeholder(app: &App) -> (r: &'static str)
    ensures
        r@ == (if app@.error is Some {
            "No connection to daemon"@
        } else {
            "No downloads — press a to add a URL"@
        }),
{
    if app.error.is_some() {
        "No connection to daemon"
    } else {
        "No downloads — press a to add a URL"
    }
}

/// The speed of the first `n` jobs together.
pub open spec fn speed_sum(jobs: Seq<message::SummaryView>, n: nat) -> nat
    decreases n,
{
    if n == 0 {
        0
    } else {
        speed_sum(jobs, (n - 1) as nat) + match jobs[n - 1].speed_bps {
            Some(s) => s as nat,
            None => 0,
        }
    }
}

proof fn lemma_speed_sum_grows(jobs: Seq<message::SummaryView>, m: nat, n: nat)
    requires
        m <= n,
    ensures
        speed_sum(jobs, m) <= speed_sum(jobs, n),
    decreases n,
{
    if m < n {
        lemma_speed_sum_grows(jobs, m, (n - 1) as nat);
    }
}

/// The speed of the shown jobs together, where it is within range.
pub fn total_speed(app: &App) -> (r: Option<u64>)
    ensures
        match r {
            Some(s) => s == speed_sum(app@.filtered, app@.filtered.len()),
            None => speed_sum(app@.filtered, app@.filtered.len()) > u64::MAX,
        },
{
    let ghost views = app@.filtered;
    let mut sum: u64 = 0;
    let mut i: usize = 0;
    while i < app.filtered_jobs.len()
        invariant
            i <= app.filtered_jobs@.len(),
            views == message::summaries(app.filtered_jobs@),
            views == app@.filtered,
            sum == speed_sum(views, i as nat),
        decreases app.filtered_jobs@.len() - i,
    {
        assert(views[i as int] == app.filtered_jobs@[i as int]@);
        match app.filtered_jobs[i].speed_bps {
            Some(s) => {
                proof {
                    lemma_speed_sum_grows(views, (i + 1) as nat, views.len());
                }
                if sum > u64::MAX - s {
                    return None;
                }
                sum = sum + s;
            },
            None => {},
        }
        i += 1;
    }
    Some(sum)
}

/// The header's speed: `total` bytes per second, or a dash for none.
pub fn header_speed(total: u64) -> (r: String)
    ensures
        r@ == (if total > 0 {
            figures::speed_text(total)
        } else {
            "—"@
        }),
{
    if total > 0 {
        figures::format_speed(total)
    } else {
        "—".to_owned()
    }
}

/// The header's word on the connection.
pub fn connection_label(app: &App) -> (r: &'static str)
    ensures
        r@ == (if app@.error is None {
            "● connected"@
        } else {
            "○ offline"@
        }),
{
    if app.error.is_none() {
        "● connected"
    } else {
        "○ offline"
    }
}

/// The title of `tab`, which shows `count` jobs; all but the first are set apart by spaces.
pub open spec fn tab_title(tab: Tab, count: nat) -> Seq<char> {
    let gap = if tab is All {
        ""@
    } else {
        "   "@
    };
    gap + tab.symbol() + " "@ + tab.name() + " ("@ + text::decimal(count) + ")"@
}

/// The title of `tab`, which shows `count` jobs.
pub fn tab_title_text(tab: Tab, count: usize) -> (r: String)
    ensures
        r@ == tab_title(tab, count as nat),
{
    let mut r = match tab {
        Tab::All => "".to_owned(),
        _ => "   ".to_owned(),
    };
    r.append(tab.icon());
    r.append(" ");
    r.append(tab.label());
    r.append(" (");
    r.append(text::decimal_text(count as u64).as_str());
    r.append(")");
    r
}

/// The titles of the tabs, in their order.
pub fn tab_titles(app: &App) -> (r: Vec<(Tab, String)>)
    ensures
        r@.len() == 6,
        forall|i: int|
            0 <= i < 6 ==> (#[trigger] r@[i]).1@ == tab_title(
                r@[i].0,
                tab::shown(app@.jobs, r@[i].0).len(),
            ),
        r@[0].0 == Tab::All,
        forall|i: int| 0 <= i < 5 ==> (#[trigger] r@[i + 1]).0 == r@[i].0.following(),
{
    let (all, active, pending, paused, done, failed) = app.tab_counts();
    proof {
        lemma_all_shown(app@.jobs);
    }
    let mut r: Vec<(Tab, String)> = Vec::new();
    r.push((Tab::All, tab_title_text(Tab::All, all)));
    r.push((Tab::Active, tab_title_text(Tab::Active, active)));
    r.push((Tab::Pending, tab_title_text(Tab::Pending, pending)));
    r.push((Tab::Paused, tab_title_text(Tab::Paused, paused)));
    r.push((Tab::Done, tab_title_text(Tab::Done, done)));
    r.push((Tab::Failed, tab_title_text(Tab::Failed, failed)));
    r
}

proof fn lemma_all_shown(jobs: Seq<message::SummaryView>)
    ensures
        tab::shown(jobs, Tab::All) == jobs,
    decreases jobs.len(),
{
    reveal(Seq::filter);
    if jobs.len() > 0 {
        lemma_all_shown(jobs.drop_last());
    }
    assert(tab::shown(jobs, Tab::All) =~= jobs);
}

/// One box for each chunk of a download, full where the chunk is done.
pub open spec fn chunk_dots(done: u8, total: u8) -> Seq<char> {
    Seq::new(
        total as nat,
        |i: int|
            if i < done {
                '■'
            } else {
                '□'
            },
    )
}

fn chunk_dots_text(done: u8, total: u8) -> (r: String)
    ensures
        r@ == chunk_dots(done, total),
{
    let mut r = String::new();
    let mut i: u8 = 0;
    while i < total
        invariant
            i <= total,
            r@.len() == i,
            forall|k: int| 0 <= k < i ==> #[trigger] r@[k] == chunk_dots(done, total)[k],
        decreases total - i,
    {
        if i < done {
            r.push('■');
        } else {
            r.push('□');
        }
        i += 1;
    }
    assert(r@ =~= chunk_dots(done, total));
    r
}

/// The details of a job.
#[derive(Debug)]
pub struct Detail {
    pub url: String,
    pub output_path: String,
    pub chunks: String,
    pub progress: String,
}

/// The details of the job `j`, whose percentage is `percent`.
pub fn detail(j: &JobSummary, percent: &str) -> (r: Detail)
    ensures
        r.url@ == j@.url,
        r.output_path@ == j@.output_path,
        r.chunks@ == chunk_dots(j@.chunks_done, j@.chunks_total) + "  "@ + text::decimal(
            j@.chunks_done as nat,
        ) + "/"@ + text::decimal(j@.chunks_total as nat),
        r.progress@ == figures::bytes_text(j@.downloaded) + " / "@ + figures::bytes_text(
            j@.total_size,
        ) + " ("@ + percent@ + "%)"@,
{
    let mut chunks = chunk_dots_text(j.chunks_done, j.chunks_total);
    chunks.append("  ");
    chunks.append(text::decimal_text(j.chunks_done as u64).as_str());
    chunks.append("/");
    chunks.append(text::decimal_text(j.chunks_total as u64).as_str());
    let mut progress = figures::format_bytes(j.downloaded);
    progress.append(" / ");
    progress.append(figures::format_bytes(j.total_size).as_str());
    progress.append(" (");
    progress.append(percent);
    progress.append("%)");
    Detail { url: j.url.clone(), output_path: j.output_path.clone(), chunks, progress }
}

/// The cursor of the dialog, which blinks.
pub fn cursor(tick: usize) -> (r: &'static str)
    ensures
        r@ == (if tick % 2 == 0 {
            "█"@
        } else {
            ""@
        }),
{
    if tick % 2 == 0 {
        "█"
    } else {
        ""
    }
}

/// A part of the screen.
#[derive(Debug, Clone, Copy, PartialEq, Eq, Structural)]
pub struct Area {
    pub x: u16,
    pub y: u16,
    pub width: u16,
    pub height: u16,
}

impl Area {
    /// Whether this part lies within `outer`.
    pub open spec fn within(self, outer: Area) -> bool {
        &&& outer.x <= self.x
        &&& self.x + self.width <= outer.x + outer.width
        &&& outer.y <= self.y
        &&& self.y + self.height <= outer.y + outer.height
    }
}

/// Which way a part of the screen is divided.
#[derive(Debug, Clone, Copy, PartialEq, Eq, Structural)]
pub enum Division {
    /// Into parts below each other.
    Rows,
    /// Into parts beside each other.
    Columns,
}

/// How many of `size` cells from the coordinate `from` on have a coordinate.
pub open spec fn room(from: u16, size: u16) -> int {
    if from + size <= u16::MAX {
        size as int
    } else {
        u16::MAX - from
    }
}

/// `percent` percent of `size` cells, rounded to the nearest number of cells, and up where two are
/// equally near.
pub open spec fn share(percent: int, size: int) -> int {
    (percent * size + 50) / 100
}

/// The first `n` of `percents` together.
pub open spec fn percent_sum(percents: Seq<u16>, n: nat) -> int
    decreases n,
{
    if n == 0 {
        0
    } else {
        percent_sum(percents, (n - 1) as nat) + percents[n - 1]
    }
}

/// The part of `area` that begins after `before` percent of it and takes `percent` percent. Both
/// of its edges lie at the nearest cell.
pub open spec fn part(division: Division, area: Area, before: int, percent: int) -> Area {
    match division {
        Division::Rows => {
            let size = room(area.y, area.height);
            Area {
                y: (area.y + share(before, size)) as u16,
                height: (share(before + percent, size) - share(before, size)) as u16,
                ..area
            }
        },
        Division::Columns => {
            let size = room(area.x, area.width);
            Area {
                x: (area.x + share(before, size)) as u16,
                width: (share(before + percent, size) - share(before, size)) as u16,
                ..area
            }
        },
    }
}

/// `ratatui::layout::Layout::split` of a layout with the default flex (`Flex::Start`), no margin and
/// no spacing, for three percentages that leave room for each other: the parts follow each other
/// from the beginning of `area`, each takes its percentage of it, and what is left over stays at
/// the end. Each edge is rounded to a cell by itself, and `area` ends at the last coordinate.
#[verifier::external_body]
fn split_area(division: Division, percents: &Vec<u16>, area: Area) -> (r: Vec<Area>)
    requires
        percents@.len() == 3,
        percent_sum(percents@, 3) <= 100,
    ensures
        r@.len() == 3,
        forall|i: int|
            0 <= i < 3 ==> #[trigger] r@[i] == part(
                division,
                area,
                percent_sum(percents@, i as nat),
                percents@[i] as int,
            ),
{
    let direction = match division {
        Division::Rows => ratatui::layout::Direction::Vertical,
        Division::Columns => ratatui::layout::Direction::Horizontal,
    };
    let (x, y, width, height) = (area.x, area.y, area.width, area.height);
    ratatui::layout::Layout::default()
        .direction(direction)
        .constraints(percents.iter().map(|p| ratatui::layout::Constraint::Percentage(*p)))
        .split(ratatui::layout::Rect { x, y, width, height })
        .iter()
        .map(|r| Area { x: r.x, y: r.y, width: r.width, height: r.height })
        .collect()
}

/// The percentages before, of and after a part of `percent` percent in the middle.
fn around(percent: u16) -> (r: Vec<u16>)
    requires
        percent <= 100,
    ensures
        r@.len() == 3,
        r@[1] == percent,
        percent_sum(r@, 1) == (100 - percent) / 2,
        percent_sum(r@, 3) <= 100,
{
    let beside: u16 = (100 - percent) / 2;
    let r: Vec<u16> = vec![beside, percent, beside];
    proof {
        reveal_with_fuel(percent_sum, 4);
    }
    r
}

/// Shares grow with the percentage, up to the whole.
proof fn lemma_share(less: int, more: int, size: int)
    requires
        0 <= less <= more <= 100,
        0 <= size,
    ensures
        0 <= share(less, size) <= share(more, size) <= size,
{
    assert(0 <= less * size <= more * size <= 100 * size) by (nonlinear_arith)
        requires
            0 <= less <= more <= 100,
            0 <= size,
    ;
}

/// The part in the middle of `area` that takes `percent_x` percent of its width and `percent_y`
/// percent of its height.
pub open spec fn centered(percent_x: u16, percent_y: u16, area: Area) -> Area {
    let w = room(area.x, area.width);
    let h = room(area.y, area.height);
    let left = share((100 - percent_x) / 2, w);
    let top = share((100 - percent_y) / 2, h);
    Area {
        x: (area.x + left) as u16,
        y: (area.y + top) as u16,
        width: (share((100 - percent_x) / 2 + percent_x, w) - left) as u16,
        height: (share((100 - percent_y) / 2 + percent_y, h) - top) as u16,
    }
}

/// The part in the middle of `area` that takes `percent_x` percent of its width and `percent_y`
/// percent of its height.
pub fn centered_rect(percent_x: u16, percent_y: u16, area: Area) -> (r: Area)
    requires
        percent_x <= 100,
        percent_y <= 100,
    ensures
        r == centered(percent_x, percent_y, area),
        r.within(area),
{
    let middle: Area = split_area(Division::Rows, &around(percent_y), area)[1];
    let r: Area = split_area(Division::Columns, &around(percent_x), middle)[1];
    proof {
        let left = (100 - percent_x) / 2;
        let top = (100 - percent_y) / 2;
        lemma_share(left, left + percent_x, room(area.x, area.width));
        lemma_share(top, top + percent_y, room(area.y, area.height));
    }
    r
}

/// The bar keeps its length, however much of it is full.
pub proof fn law_bar_keeps_its_length(active: bool, tick: nat, filled: nat)
    requires
        filled <= 14,
    ensures
        bar(active, tick, filled).len() == 14,
{
}

/// Each status has its own look, and so has a cancellation among the failures.
pub proof fn law_statuses_look_different(status: job::StatusView)
    ensures
        match status {
            job::StatusView::Pending => tone(status.text()) is Pending,
            job::StatusView::Active => tone(status.text()) is Active,
            job::StatusView::Paused => tone(status.text()) is Paused,
            job::StatusView::Done => tone(status.text()) is Done,
            job::StatusView::Failed(e) => {
                &&& text::has_text(e, "Cancelled"@) ==> tone(status.text()) is Cancelled
                &&& !text::has_text(e, "Cancelled"@) ==> tone(status.text()) is Failed
            },
        },
{
    reveal_strlit("Pending");
    reveal_strlit("Active");
    reveal_strlit("Paused");
    reveal_strlit("Done");
    reveal_strlit("Failed");
    reveal_strlit("Failed: ");
    reveal_strlit("Cancelled");
    let s = status.text();
    assert("Failed"@[0] == 'F' && "Done"@[0] == 'D' && "Active"@[0] == 'A');
    assert("Pending"@[0] == 'P' && "Pending"@[1] == 'e');
    assert("Paused"@[0] == 'P' && "Paused"@[1] == 'a');
    if let job::StatusView::Failed(e) = status {
        assert(s[0] == 'F');
        assert(s.subrange(0, 6) =~= "Failed"@);
        assert("Cancelled"@[0] == 'C');
        assert(forall|i: int| 0 <= i < "Failed: "@.len() ==> "Failed: "@[i] != 'C');
        text::lemma_text_after("Failed: "@, e, "Cancelled"@);
    }
}

/// Only the badge of a running job moves: it shows ten different pictures in turn.
pub proof fn law_only_running_badges_move(s: Seq<char>, a: nat, b: nat)
    ensures
        !(tone(s) is Active) ==> badge(s, a) == badge(s, b),
        tone(s) is Active ==> (badge(s, a) == badge(s, b) <==> a % 10 == b % 10),
        tone(s) is Other ==> badge(s, a) == s,
{
    if tone(s) is Active {
        assert(badge(s, a)[0] == spinner()[(a % 10) as int]);
        assert(badge(s, b)[0] == spinner()[(b % 10) as int]);
    }
}

/// A bar is full from the left up to its head; the rest of it is empty. The head of a job that does
/// not run is full too, and that of one that runs shows three different pictures in turn.
pub proof fn law_bars_fill_from_the_left(active: bool, tick: nat, filled: nat, i: int)
    requires
        filled <= 14,
        0 <= i < 14,
    ensures
        i < filled - 1 ==> bar(active, tick, filled)[i] == '█',
        i >= filled ==> bar(active, tick, filled)[i] == '▒',
        i == filled - 1 && !active ==> bar(active, tick, filled)[i] == '█',
        i == filled - 1 && active ==> bar(active, tick, filled)[i] != '█',
        i == filled - 1 ==> bar(active, tick + 3, filled)[i] == bar(active, tick, filled)[i],
        i == filled - 1 && active ==> bar(active, tick + 1, filled)[i] != bar(active, tick, filled)[i]
            && bar(active, tick + 2, filled)[i] != bar(active, tick, filled)[i],
{
    let full = text::repeated('█', (filled - 1) as nat);
    if filled > 0 {
        assert(full.len() == filled - 1);
    }
}

/// A job takes as long as its speed needs for what is left of it.
pub proof fn law_eta_is_what_the_speed_needs(j: message::SummaryView, secs: u64)
    ensures
        ({
            let left = j.total_size - j.downloaded;
            &&& j.speed_bps matches Some(s) ==> (s > 0 && left > 0 && secs * s <= left && left < (
            secs + 1) * s ==> eta(j) == figures::duration_text(secs))
            &&& left <= 0 || j.speed_bps is None || j.speed_bps == Some(0u64) ==> eta(j) == "—"@
        }),
{
    let left = j.total_size - j.downloaded;
    if j.speed_bps is Some {
        let s = j.speed_bps->0 as int;
        let n = secs as int;
        if s > 0 && left > 0 && n * s <= left && left < (n + 1) * s {
            assert(left / s == n) by (nonlinear_arith)
                requires
                    s > 0,
                    n * s <= left,
                    left < (n + 1) * s,
            ;
        }
    }
}

/// The speed of all jobs together is that of the first ones and that of the last.
pub proof fn law_speeds_add_up(jobs: Seq<message::SummaryView>, j: message::SummaryView)
    ensures
        speed_sum(jobs.push(j), jobs.len() + 1) == speed_sum(jobs, jobs.len()) + (
        if j.speed_bps is Some {
            j.speed_bps->0 as nat
        } else {
            0
        }),
        speed_sum(jobs, 0) == 0,
{
    lemma_same_speeds(jobs, jobs.push(j), jobs.len());
}

proof fn lemma_same_speeds(a: Seq<message::SummaryView>, b: Seq<message::SummaryView>, n: nat)
    requires
        n <= a.len(),
        n <= b.len(),
        forall|i: int| 0 <= i < n ==> a[i] == b[i],
    ensures
        speed_sum(a, n) == speed_sum(b, n),
    decreases n,
{
    if n > 0 {
        lemma_same_speeds(a, b, (n - 1) as nat);
    }
}

/// There is a box for each chunk, and as many of them are full, from the left, as chunks are done.
pub proof fn law_one_box_for_each_chunk(done: u8, total: u8, i: int)
    requires
        0 <= i < total,
    ensures
        chunk_dots(done, total).len() == total,
        chunk_dots(done, total)[i] == '■' <==> i < done,
        chunk_dots(done, total)[i] == '■' || chunk_dots(done, total)[i] == '□',
{
}

/// A title tells the tab's symbol, its name and how many jobs it shows.
pub proof fn law_titles_tell_the_tab(t: Tab, count: nat)
    ensures
        t is All ==> tab_title(t, count) == t.symbol() + " "@ + t.name() + " ("@ + text::decimal(
            count,
        ) + ")"@,
        !(t is All) ==> tab_title(t, count) == "   "@ + (t.symbol() + " "@ + t.name() + " ("@
            + text::decimal(count) + ")"@),
{
    reveal_strlit("");
    assert(tab_title(Tab::All, count) =~= Tab::All.symbol() + " "@ + Tab::All.name() + " ("@
        + text::decimal(count) + ")"@);
    assert(!(t is All) ==> tab_title(t, count) =~= "   "@ + (t.symbol() + " "@ + t.name() + " ("@
        + text::decimal(count) + ")"@));
}

proof fn lemma_share_is_near(percent: int, size: int)
    ensures
        percent * size - 50 <= 100 * share(percent, size) <= percent * size + 50,
{
}

/// The part in the middle takes its percentages of the area, up to one cell, and stands as far from
/// one edge as from the other, up to one cell and the hundredth that an odd percentage leaves over.
pub proof fn law_centered_part_is_in_the_middle(percent_x: u16, percent_y: u16, area: Area)
    requires
        percent_x <= 100,
        percent_y <= 100,
        area.x + area.width <= u16::MAX,
        area.y + area.height <= u16::MAX,
    ensures
        ({
            let r = centered(percent_x, percent_y, area);
            let left = r.x - area.x;
            let right = area.x + area.width - (r.x + r.width);
            let above = r.y - area.y;
            let below = area.y + area.height - (r.y + r.height);
            &&& left >= 0 && right >= 0 && above >= 0 && below >= 0
            &&& -100 <= 100 * r.width - percent_x * area.width <= 100
            &&& -100 <= 100 * r.height - percent_y * area.height <= 100
            &&& -100 <= 100 * (right - left) <= 100 + (percent_x % 2) * area.width
            &&& -100 <= 100 * (below - above) <= 100 + (percent_y % 2) * area.height
        }),
{
    lemma_middle(percent_x as int, area.width as int);
    lemma_middle(percent_y as int, area.height as int);
    let w = (100 - percent_x) / 2;
    let h = (100 - percent_y) / 2;
    lemma_share(w, w + percent_x, area.width as int);
    lemma_share(h, h + percent_y, area.height as int);
}

proof fn lemma_middle(percent: int, size: int)
    requires
        0 <= percent <= 100,
        0 <= size,
    ensures
        ({
            let before = (100 - percent) / 2;
            let left = share(before, size);
            let taken = share(before + percent, size) - left;
            let right = size - left - taken;
            &&& -100 <= 100 * taken - percent * size <= 100
            &&& -100 <= 100 * (right - left) <= 100 + (percent % 2) * size
        }),
{
    let before = (100 - percent) / 2;
    let odd = percent % 2;
    lemma_share_is_near(before, size);
    lemma_share_is_near(before + percent, size);
    assert(2 * before + percent + odd == 100);
    assert((before + percent) * size == before * size + percent * size) by (nonlinear_arith);
    assert(before * size + before * size + percent * size + odd * size == 100 * size)
        by (nonlinear_arith)
        requires
            2 * before + percent + odd == 100,
    ;
}

/// A job's speed is shown where it has one.
pub proof fn law_speeds_are_shown(j: message::SummaryView)
    ensures
        j.speed_bps matches Some(s) ==> speed(j) == figures::speed_text(s),
        j.speed_bps is None ==> speed(j) == "—"@,
{
}

/// What lies beyond the last coordinate of the screen does not count.
pub proof fn law_areas_end_with_the_screen(percent_x: u16, percent_y: u16, area: Area)
    ensures
        area.x + area.width > u16::MAX ==> centered(percent_x, percent_y, area) == centered(
            percent_x,
            percent_y,
            Area { width: (u16::MAX - area.x) as u16, ..area },
        ),
        area.y + area.height > u16::MAX ==> centered(percent_x, percent_y, area) == centered(
            percent_x,
            percent_y,
            Area { height: (u16::MAX - area.y) as u16, ..area },
        ),
{
}

} // verus!
