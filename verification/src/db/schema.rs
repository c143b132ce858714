//! Rows of the job tables, their timestamps, and the statement that prunes the history.

use vstd::prelude::*;
use vstd::string::*;

use crate::ipc::message;
use crate::ipc::message::JobSummary;
use crate::places;
use crate::text;

verus! {

/// Returns the path where we store the SQLite DB, where local data is kept in `data`.
pub fn db_path(data: Option<String>) -> (r: String)
    ensures
        r@ == places::data_file(text::text_opt(data), "shard.db"@),
{
    places::data_file_in(data, "shard.db")
}

/// The URL under which the database at `path` is opened or created.
pub fn db_url(path: &str) -> (r: String)
    ensures
        r@ == "sqlite://"@ + path@ + "?mode=rwc"@,
{
    let mut r = "sqlite://".to_owned();
    r.append(path);
    r.append("?mode=rwc");
    r
}

/// Whether `year` has a 29th of February.
pub open spec fn leap(year: int) -> bool {
    (year % 4 == 0 && year % 100 != 0) || year % 400 == 0
}

fn is_leap(year: u64) -> (r: bool)
    ensures
        r == leap(year as int),
{
    (year % 4 == 0 && year % 100 != 0) || year % 400 == 0
}

/// How many leap days lie between 1970 and `year`: those of the years from 1970 to before `year`,
/// and less than none for years before 1970.
pub open spec fn leap_days(year: int) -> int
    decreases
        if year < 1970 {
            1970 - year
        } else {
            year - 1970
        },
{
    if year == 1970 {
        0
    } else if year > 1970 {
        leap_days(year - 1) + if leap(year - 1) {
            1int
        } else {
            0int
        }
    } else {
        leap_days(year + 1) - if leap(year) {
            1int
        } else {
            0int
        }
    }
}

/// The leap days, counted from the calendar's rule: one in four years, but for the centuries that
/// are not divisible by 400.
#[verifier::spinoff_prover]
proof fn lemma_leap_days(year: int)
    ensures
        leap_days(year) == (year - 1) / 4 - (year - 1) / 100 + (year - 1) / 400 - 477,
    decreases
        if year < 1970 {
            1970 - year
        } else {
            year - 1970
        },
{
    if year > 1970 {
        lemma_leap_days(year - 1);
        lemma_next_year(year - 1);
    } else if year < 1970 {
        lemma_leap_days(year + 1);
        lemma_next_year(year);
    }
}

/// A quotient grows by one at the multiples of its divisor.
proof fn lemma_next_year(n: int)
    ensures
        n / 4 == (n - 1) / 4 + if n % 4 == 0 {
            1int
        } else {
            0int
        },
        n / 100 == (n - 1) / 100 + if n % 100 == 0 {
            1int
        } else {
            0int
        },
        n / 400 == (n - 1) / 400 + if n % 400 == 0 {
            1int
        } else {
            0int
        },
        n % 400 == 0 ==> n % 100 == 0,
        n % 100 == 0 ==> n % 4 == 0,
{
}

/// The days of the `i`th month of `year`, counted from 0.
pub open spec fn month_days(year: int, i: int) -> int {
    if i == 1 {
        if leap(year) {
            29
        } else {
            28
        }
    } else if i == 3 || i == 5 || i == 8 || i == 10 {
        30
    } else {
        31
    }
}

/// The days of the first `n` months of `year`.
pub open spec fn days_of_months(year: int, n: nat) -> int
    decreases n,
{
    if n == 0 {
        0
    } else {
        days_of_months(year, (n - 1) as nat) + month_days(year, n - 1)
    }
}

/// A date and a time of day.
pub struct DateTime {
    pub year: int,
    pub month: int,
    pub day: int,
    pub hour: int,
    pub min: int,
    pub sec: int,
}

impl DateTime {
    /// How many of the twelve months come before this one.
    pub open spec fn months_before(self) -> nat {
        if self.month <= 1 {
            0
        } else if self.month >= 13 {
            12
        } else {
            (self.month - 1) as nat
        }
    }

    /// Days since 1970-01-01.
    pub open spec fn days(self) -> int {
        (self.year - 1970) * 365 + leap_days(self.year) + days_of_months(
            self.year,
            self.months_before(),
        ) + self.day - 1
    }

    /// Seconds since 1970-01-01 00:00:00.
    pub open spec fn epoch(self) -> int {
        self.days() * 86400 + self.hour * 3600 + self.min * 60 + self.sec
    }

    /// Whether the seconds, and those of each part, are within the range of a timestamp.
    pub open spec fn in_range(self) -> bool {
        self.hour * 3600 <= i64::MAX && self.min * 60 <= i64::MAX && self.epoch() <= i64::MAX
    }
}

/// The characters between the numbers of a timestamp.
pub open spec fn datetime_separators() -> Seq<char> {
    seq![' ', '-', ':']
}

/// The date and time that `s` writes: six numbers, separated by spaces, dashes and colons.
pub open spec fn parse_datetime(s: Seq<char>) -> Option<DateTime> {
    let parts = text::split_on(s, datetime_separators());
    if parts.len() != 6 {
        None
    } else {
        match (
            text::parse_up_to(parts[0], i64::MAX as nat),
            text::parse_up_to(parts[1], usize::MAX as nat),
            text::parse_up_to(parts[2], i64::MAX as nat),
            text::parse_up_to(parts[3], i64::MAX as nat),
            text::parse_up_to(parts[4], i64::MAX as nat),
            text::parse_up_to(parts[5], i64::MAX as nat),
        ) {
            (Some(year), Some(month), Some(day), Some(hour), Some(min), Some(sec)) => Some(
                DateTime {
                    year: year as int,
                    month: month as int,
                    day: day as int,
                    hour: hour as int,
                    min: min as int,
                    sec: sec as int,
                },
            ),
            _ => None,
        }
    }
}

/// Whether `s` is no timestamp, or one within range.
pub open spec fn datetime_fits(s: Seq<char>) -> bool {
    match parse_datetime(s) {
        Some(d) => d.in_range(),
        None => true,
    }
}

/// The seconds since 1970-01-01 00:00:00 that `s` writes.
pub open spec fn datetime_epoch(s: Seq<char>) -> Option<i64> {
    match parse_datetime(s) {
        Some(d) => Some(d.epoch() as i64),
        None => None,
    }
}

fn read_month_days(year: u64, n: u64) -> (r: i128)
    requires
        n <= 12,
    ensures
        r == days_of_months(year as int, n as nat),
        0 <= r <= 31 * n,
{
    let mut days: i128 = 0;
    let mut i: u64 = 0;
    while i < n
        invariant
            i <= n <= 12,
            days == days_of_months(year as int, i as nat),
            0 <= days <= 31 * i,
        decreases n - i,
    {
        let here: i128 = if i == 1 {
            if is_leap(year) {
                29
            } else {
                28
            }
        } else if i == 3 || i == 5 || i == 8 || i == 10 {
            30
        } else {
            31
        };
        days = days + here;
        i += 1;
    }
    days
}

/// Four hundred years hold 97 leap days, wherever they begin.
proof fn lemma_four_centuries(n: int)
    ensures
        (n + 400) / 4 == n / 4 + 100,
        (n + 400) / 100 == n / 100 + 4,
        (n + 400) / 400 == n / 400 + 1,
{
}

fn count_leap_days(year: u64) -> (r: i128)
    ensures
        r == leap_days(year as int),
        -478 <= r <= year,
{
    // Counted from four centuries earlier, so that nothing negative is divided.
    let before: i128 = year as i128 + 399;
    let fourths: i128 = before / 4;
    let centuries: i128 = before / 100;
    let fourth_centuries: i128 = before / 400;
    proof {
        lemma_leap_days(year as int);
        lemma_four_centuries(year - 1);
        assert(centuries <= fourths <= before);
        assert(fourth_centuries <= centuries);
    }
    fourths - centuries + fourth_centuries - 477 - 97
}

/// The date that `s` writes, as its hours, its minutes, and all of its seconds since 1970.
fn read_datetime(s: &str) -> (r: Option<(i128, i128, i128)>)
    ensures
        match (r, parse_datetime(s@)) {
            (Some(t), Some(d)) => t.0 == d.hour && t.1 == d.min && t.2 == d.epoch() && 0 <= d.hour
                && 0 <= d.min,
            (None, None) => true,
            _ => false,
        },
{
    let seps: Vec<char> = vec![' ', '-', ':'];
    assert(seps@ =~= datetime_separators());
    let parts = text::split_text(s, &seps);
    let ghost pieces = text::texts(parts@);
    if parts.len() != 6 {
        return None;
    }
    let max: u64 = i64::MAX as u64;
    assert(forall|i: int| 0 <= i < 6 ==> pieces[i] == (#[trigger] parts@[i])@);
    match (
        text::parse_text(parts[0].as_str(), max),
        text::parse_text(parts[1].as_str(), usize::MAX as u64),
        text::parse_text(parts[2].as_str(), max),
        text::parse_text(parts[3].as_str(), max),
        text::parse_text(parts[4].as_str(), max),
        text::parse_text(parts[5].as_str(), max),
    ) {
        (Some(year), Some(month), Some(day), Some(hour), Some(min), Some(sec)) => {
            let months: u64 = if month <= 1 {
                0
            } else if month >= 13 {
                12
            } else {
                month - 1
            };
            let days: i128 = (year as i128 - 1970) * 365 + count_leap_days(year) + read_month_days(
                year,
                months,
            ) + day as i128 - 1;
            let total: i128 = days * 86400 + hour as i128 * 3600 + min as i128 * 60 + sec as i128;
            Some((hour as i128, min as i128, total))
        },
        _ => None,
    }
}

/// Whether `s` is no timestamp, or one that `sqlite_datetime_to_epoch` can read.
pub fn can_read_datetime(s: &str) -> (r: bool)
    ensures
        r == datetime_fits(s@),
{
    match read_datetime(s) {
        Some((hour, min, total)) => {
            let max: i128 = i64::MAX as i128;
            hour * 3600 <= max && min * 60 <= max && total <= max
        },
        None => true,
    }
}

/// Parse "YYYY-MM-DD HH:MM:SS" SQLite datetime to Unix epoch seconds.
pub fn sqlite_datetime_to_epoch(s: &str) -> (r: Option<i64>)
    requires
        datetime_fits(s@),
    ensures
        r == datetime_epoch(s@),
{
    match read_datetime(s) {
        Some((_hour, _min, total)) => {
            Some(total as i64)
        },
        None => None,
    }
}

/// Whether `s` is missing, no timestamp, or one within range.
pub open spec fn stamp_fits(s: Option<Seq<char>>) -> bool {
    match s {
        Some(t) => datetime_fits(t),
        None => true,
    }
}

/// The second of a timestamp that may be missing.
pub open spec fn stamp_epoch(s: Option<Seq<char>>) -> Option<i64> {
    match s {
        Some(t) => datetime_epoch(t),
        None => None,
    }
}

fn can_read_stamp(s: &Option<String>) -> (r: bool)
    ensures
        r == stamp_fits(text::text_opt(*s)),
{
    match s {
        Some(t) => can_read_datetime(t.as_str()),
        None => true,
    }
}

fn read_stamp(s: &Option<String>) -> (r: Option<i64>)
    requires
        stamp_fits(text::text_opt(*s)),
    ensures
        r == stamp_epoch(text::text_opt(*s)),
{
    match s {
        Some(t) => sqlite_datetime_to_epoch(t.as_str()),
        None => None,
    }
}

/// A row of the table of jobs.
#[derive(Debug)]
pub struct DbJobRow {
    pub id: i64,
    pub url: String,
    pub output_path: String,
    pub connections: i64,
    pub total_size: i64,
    pub downloaded: i64,
    pub status: String,
    pub created_at: Option<String>,
    pub updated_at: Option<String>,
}

impl DbJobRow {
    /// Whether the timestamps can be read.
    pub open spec fn readable(self) -> bool {
        stamp_fits(text::text_opt(self.created_at)) && stamp_fits(text::text_opt(self.updated_at))
    }

    /// Whether the timestamps can be read.
    pub fn can_read(&self) -> (r: bool)
        ensures
            r == self.readable(),
    {
        can_read_stamp(&self.created_at) && can_read_stamp(&self.updated_at)
    }

    /// The job that the row holds. It counts as started when the row was created, and as ended
    /// when the row was last updated.
    pub fn into_summary(self) -> (r: JobSummary)
        requires
            self.readable(),
        ensures
            r@ == (message::SummaryView {
                id: self.id as u64,
                url: self.url@,
                output_path: self.output_path@,
                status: self.status@,
                total_size: self.total_size as u64,
                downloaded: self.downloaded as u64,
                speed_bps: None,
                chunks_total: self.connections as u8,
                chunks_done: 0,
                started_at: stamp_epoch(text::text_opt(self.created_at)),
                ended_at: stamp_epoch(text::text_opt(self.updated_at)),
                added_at: None,
                error_msg: None,
            }),
    {
        let started_at: Option<i64> = read_stamp(&self.created_at);
        let ended_at: Option<i64> = read_stamp(&self.updated_at);
        JobSummary {
            id: self.id as u64,
            url: self.url,
            output_path: self.output_path,
            status: self.status,
            total_size: self.total_size as u64,
            downloaded: self.downloaded as u64,
            speed_bps: None,
            chunks_total: self.connections as u8,
            chunks_done: 0,
            started_at,
            ended_at,
            added_at: None,
            error_msg: None,
        }
    }
}

/// A row of the history.
#[derive(Debug)]
pub struct DbHistoryRow {
    pub id: i64,
    pub url: String,
    pub output_path: String,
    pub connections: i64,
    pub total_size: i64,
    pub downloaded: i64,
    pub status: String,
    pub completed_at: String,
}

impl DbHistoryRow {
    /// The job that the row holds, without its moments.
    pub fn into_summary(self) -> (r: JobSummary)
        ensures
            r@ == (message::SummaryView {
                id: self.id as u64,
                url: self.url@,
                output_path: self.output_path@,
                status: self.status@,
                total_size: self.total_size as u64,
                downloaded: self.downloaded as u64,
                speed_bps: None,
                chunks_total: self.connections as u8,
                chunks_done: 0,
                started_at: None,
                ended_at: None,
                added_at: None,
                error_msg: None,
            }),
    {
        JobSummary {
            id: self.id as u64,
            url: self.url,
            output_path: self.output_path,
            status: self.status,
            total_size: self.total_size as u64,
            downloaded: self.downloaded as u64,
            speed_bps: None,
            chunks_total: self.connections as u8,
            chunks_done: 0,
            started_at: None,
            ended_at: None,
            added_at: None,
            error_msg: None,
        }
    }
}

/// The condition that a row of the history has the status `s`; `Failed` stands for every failure,
/// whatever its message.
pub open spec fn status_condition(s: Seq<char>) -> Seq<char> {
    if s == "Failed"@ {
        "status LIKE 'Failed%'"@
    } else {
        "status = '"@ + s + "'"@
    }
}

/// The condition that a row of the history is older than `days` and has one of `statuses`.
pub open spec fn prune_condition(days: u32, statuses: Seq<Seq<char>>) -> Seq<char> {
    "completed_at < datetime('now', '-"@ + text::decimal(days as nat) + " days') AND ("@
        + text::joined(
        Seq::new(statuses.len(), |i: int| status_condition(statuses[i])),
        " OR "@,
    ) + ")"@
}

fn prune_condition_text(days: u32, statuses: &Vec<String>) -> (r: String)
    ensures
        r@ == prune_condition(days, text::texts(statuses@)),
{
    let mut conditions: Vec<String> = Vec::new();
    let mut i: usize = 0;
    while i < statuses.len()
        invariant
            i <= statuses@.len(),
            conditions@.len() == i,
            forall|j: int|
                0 <= j < i ==> (#[trigger] conditions@[j])@ == status_condition(statuses@[j]@),
        decreases statuses@.len() - i,
    {
        let s: &String = &statuses[i];
        if text::same_text(s.as_str(), "Failed") {
            conditions.push("status LIKE 'Failed%'".to_owned());
        } else {
            let mut c = "status = '".to_owned();
            c.append(s.as_str());
            c.append("'");
            conditions.push(c);
        }
        i += 1;
    }
    let ghost wanted = Seq::new(
        statuses@.len(),
        |i: int| status_condition(text::texts(statuses@)[i]),
    );
    assert(text::texts(conditions@) =~= wanted);
    let mut r = "completed_at < datetime('now', '-".to_owned();
    r.append(text::decimal_text(days as u64).as_str());
    r.append(" days') AND (");
    r.append(text::join_texts(&conditions, " OR ").as_str());
    r.append(")");
    r
}

/// The statement `head` with the condition of a prune. Where no status is given, nothing is meant
/// and there is no statement.
pub open spec fn prune_statement(head: Seq<char>, days: u32, statuses: Seq<Seq<char>>) -> Option<
    Seq<char>,
> {
    if statuses.len() == 0 {
        None
    } else {
        Some(head + prune_condition(days, statuses))
    }
}

/// The statement that removes from the history what is older than `days` and has one of `statuses`.
pub open spec fn deletion(days: u32, statuses: Seq<Seq<char>>) -> Option<Seq<char>> {
    prune_statement("DELETE FROM job_history WHERE "@, days, statuses)
}

/// The statement that counts what is older than `days` and has one of `statuses`.
pub open spec fn counting(days: u32, statuses: Seq<Seq<char>>) -> Option<Seq<char>> {
    prune_statement("SELECT COUNT(*) FROM job_history WHERE "@, days, statuses)
}

fn prune_statement_text(head: &str, days: u32, statuses: &Vec<String>) -> (r: Option<String>)
    ensures
        text::text_opt(r) == prune_statement(head@, days, text::texts(statuses@)),
{
    if statuses.len() == 0 {
        return None;
    }
    let mut r = head.to_owned();
    r.append(prune_condition_text(days, statuses).as_str());
    Some(r)
}

/// The statement that removes from the history what is older than `days` and has one of
/// `statuses`. Where no status is given, nothing is removed and there is no statement.
pub fn prune_sql(days: u32, statuses: &Vec<String>) -> (r: Option<String>)
    ensures
        text::text_opt(r) == deletion(days, text::texts(statuses@)),
{
    prune_statement_text("DELETE FROM job_history WHERE ", days, statuses)
}

/// The statement that counts what `prune_sql` would remove.
pub fn prune_count_sql(days: u32, statuses: &Vec<String>) -> (r: Option<String>)
    ensures
        text::text_opt(r) == counting(days, text::texts(statuses@)),
{
    prune_statement_text("SELECT COUNT(*) FROM job_history WHERE ", days, statuses)
}

/// The rows that are counted are those that would be removed: the two statements differ only in
/// their head, and there is one exactly when there is the other.
pub proof fn law_counting_meets_what_deletion_removes(days: u32, statuses: Seq<Seq<char>>)
    ensures
        match (counting(days, statuses), deletion(days, statuses)) {
            (Some(count), Some(delete)) => exists|condition: Seq<char>|
                count == #[trigger] ("SELECT COUNT(*) FROM job_history WHERE "@ + condition)
                    && delete == "DELETE FROM job_history WHERE "@ + condition,
            (None, None) => statuses.len() == 0,
            _ => false,
        },
{
}

/// Each month begins one second after the month before it has ended.
pub proof fn law_months_follow_each_other(year: int, month: int)
    requires
        1 <= month <= 12,
    ensures
        ({
            let end = DateTime {
                year,
                month,
                day: month_days(year, month - 1),
                hour: 23,
                min: 59,
                sec: 59,
            };
            let next = DateTime {
                year: if month == 12 {
                    year + 1
                } else {
                    year
                },
                month: if month == 12 {
                    1
                } else {
                    month + 1
                },
                day: 1,
                hour: 0,
                min: 0,
                sec: 0,
            };
            end.epoch() + 1 == next.epoch()
        }),
{
    reveal_with_fuel(days_of_months, 13);
    assert(leap_days(year + 1) == leap_days(year) + if leap(year) {
        1int
    } else {
        0int
    });
}

/// Within a month, each day begins 86400 seconds after the day before it.
pub proof fn law_days_follow_each_other(d: DateTime)
    ensures
        (DateTime { day: d.day + 1, ..d }).epoch() == d.epoch() + 86400,
{
}

/// The text `YYYY-MM-DD HH:MM:SS` with the given six pieces.
pub open spec fn stamp_text(
    year: Seq<char>,
    month: Seq<char>,
    day: Seq<char>,
    hour: Seq<char>,
    min: Seq<char>,
    sec: Seq<char>,
) -> Seq<char> {
    year + seq!['-'] + month + seq!['-'] + day + seq![' '] + hour + seq![':'] + min + seq![':']
        + sec
}

/// Whether `s` writes a number of at most `max` with digits alone.
pub open spec fn plain_number(s: Seq<char>, max: int) -> bool {
    s.len() > 0 && text::all_digits(s) && text::digits_value(s) <= max
}

/// Six numbers that are written as a timestamp are read back, each in its place.
pub proof fn law_timestamps_are_read_back(
    year: Seq<char>,
    month: Seq<char>,
    day: Seq<char>,
    hour: Seq<char>,
    min: Seq<char>,
    sec: Seq<char>,
)
    requires
        plain_number(year, i64::MAX as int),
        plain_number(month, usize::MAX as int),
        plain_number(day, i64::MAX as int),
        plain_number(hour, i64::MAX as int),
        plain_number(min, i64::MAX as int),
        plain_number(sec, i64::MAX as int),
    ensures
        parse_datetime(stamp_text(year, month, day, hour, min, sec)) == Some(
            DateTime {
                year: text::digits_value(year) as int,
                month: text::digits_value(month) as int,
                day: text::digits_value(day) as int,
                hour: text::digits_value(hour) as int,
                min: text::digits_value(min) as int,
                sec: text::digits_value(sec) as int,
            },
        ),
{
    let seps = datetime_separators();
    assert(seps[0] == ' ' && seps[1] == '-' && seps[2] == ':');
    text::lemma_split_one(year, seps);
    let s1 = year + seq!['-'] + month;
    text::lemma_split_append(year, '-', month, seps);
    let s2 = s1 + seq!['-'] + day;
    text::lemma_split_append(s1, '-', day, seps);
    let s3 = s2 + seq![' '] + hour;
    text::lemma_split_append(s2, ' ', hour, seps);
    let s4 = s3 + seq![':'] + min;
    text::lemma_split_append(s3, ':', min, seps);
    text::lemma_split_append(s4, ':', sec, seps);
    assert(text::split_on(stamp_text(year, month, day, hour, min, sec), seps) =~= seq![
        year,
        month,
        day,
        hour,
        min,
        sec,
    ]);
    assert(text::is_digit(year[0]) && text::is_digit(month[0]) && text::is_digit(day[0]));
    assert(text::is_digit(hour[0]) && text::is_digit(min[0]) && text::is_digit(sec[0]));
}

/// The calendar repeats every four centuries, which hold 146097 days.
pub proof fn law_calendar_repeats(d: DateTime)
    ensures
        (DateTime { year: d.year + 400, ..d }).epoch() == d.epoch() + 146097 * 86400,
{
    let later = DateTime { year: d.year + 400, ..d };
    lemma_leap_days(d.year);
    lemma_leap_days(d.year + 400);
    lemma_four_centuries(d.year - 1);
    assert(leap(d.year + 400) == leap(d.year));
    lemma_same_months(d.year, d.year + 400, d.months_before());
}

proof fn lemma_same_months(a: int, b: int, n: nat)
    requires
        leap(a) == leap(b),
    ensures
        days_of_months(a, n) == days_of_months(b, n),
    decreases n,
{
    if n > 0 {
        lemma_same_months(a, b, (n - 1) as nat);
    }
}

/// A year has 365 days, or 366 in one of four years but for the centuries, of which one in four has
/// them too.
pub proof fn law_years_have_their_days(year: int)
    ensures
        days_of_months(year, 12) == if year % 4 == 0 && (year % 100 != 0 || year % 400 == 0) {
            366int
        } else {
            365int
        },
        forall|i: int|
            0 <= i < 12 && i != 1 ==> #[trigger] month_days(year, i) == if i == 3 || i == 5 || i == 8
                || i == 10 {
                30int
            } else {
                31int
            },
{
    reveal_with_fuel(days_of_months, 13);
    assert(year % 400 == 0 ==> year % 100 == 0 && year % 4 == 0);
}

/// An hour, a minute and a second later are 3600, 60 and one seconds more.
pub proof fn law_clock_time_counts_seconds(d: DateTime)
    ensures
        (DateTime { hour: d.hour + 1, ..d }).epoch() == d.epoch() + 3600,
        (DateTime { min: d.min + 1, ..d }).epoch() == d.epoch() + 60,
        (DateTime { sec: d.sec + 1, ..d }).epoch() == d.epoch() + 1,
{
}

/// A timestamp within range is read as its second, and what is no timestamp as none.
pub proof fn law_timestamps_give_their_second(s: Seq<char>)
    ensures
        parse_datetime(s) is None ==> datetime_epoch(s) is None,
        parse_datetime(s) matches Some(d) ==> (d.in_range() && d.epoch() >= i64::MIN
            ==> datetime_epoch(s) is Some && datetime_epoch(s)->0 == d.epoch()),
        stamp_epoch(Some(s)) == datetime_epoch(s),
        stamp_epoch(None) is None,
        parse_datetime(s) is Some ==> text::split_on(s, seq![' ', '-', ':']).len() == 6,
{
    assert(datetime_separators() =~= seq![' ', '-', ':']);
}

/// A prune reaches only entries that are older than the given days.
pub proof fn law_prune_is_limited_by_age(days: u32, statuses: Seq<Seq<char>>)
    ensures
        text::begins_with(
            prune_condition(days, statuses),
            "completed_at < datetime('now', '-"@ + text::decimal(days as nat) + " days') AND ("@,
        ),
{
    let head = "completed_at < datetime('now', '-"@ + text::decimal(days as nat)
        + " days') AND ("@;
    let list = text::joined(
        Seq::new(statuses.len(), |i: int| status_condition(statuses[i])),
        " OR "@,
    );
    assert(prune_condition(days, statuses) =~= head + (list + ")"@));
    text::law_beginnings_stand_first(prune_condition(days, statuses), head);
}

/// A status more lets a prune reach the entries of that status too; one status alone stands for
/// itself.
pub proof fn law_prune_takes_any_of_the_statuses(days: u32, statuses: Seq<Seq<char>>, s: Seq<char>)
    ensures
        statuses.len() > 0 ==> prune_condition(days, statuses.push(s)) == prune_condition(
            days,
            statuses,
        ).drop_last() + " OR "@ + status_condition(s) + ")"@,
        prune_condition(days, seq![s]) == "completed_at < datetime('now', '-"@ + text::decimal(
            days as nat,
        ) + " days') AND ("@ + status_condition(s) + ")"@,
{
    reveal_strlit(")");
    let conditions = Seq::new(statuses.len(), |i: int| status_condition(statuses[i]));
    let more = statuses.push(s);
    assert(Seq::new(more.len(), |i: int| status_condition(more[i])) =~= conditions.push(
        status_condition(s),
    ));
    text::law_joining_puts_separators_between(conditions, status_condition(s), " OR "@);
    if statuses.len() > 0 {
        assert(prune_condition(days, more) =~= prune_condition(days, statuses).drop_last()
            + " OR "@ + status_condition(s) + ")"@);
    }
    let one = seq![s];
    assert(Seq::new(one.len(), |i: int| status_condition(one[i])) =~= seq![status_condition(s)]);
}

/// Failures are met whatever their message; any other status has to be the same text.
pub proof fn law_statuses_are_met_exactly(s: Seq<char>)
    ensures
        s == "Failed"@ ==> status_condition(s) == "status LIKE 'Failed%'"@,
        s != "Failed"@ ==> status_condition(s) == "status = '"@ + s + "'"@,
{
}

/// Months outside of the year count as its first or as the one after its last.
pub proof fn law_months_outside_the_year(d: DateTime)
    ensures
        d.month <= 1 ==> d.epoch() == (DateTime { month: 1, ..d }).epoch(),
        d.month >= 13 ==> d.epoch() == (DateTime { month: 13, ..d }).epoch(),
        (DateTime { month: 13, ..d }).epoch() == (DateTime {
            month: 1,
            day: d.day + days_of_months(d.year, 12),
            ..d
        }).epoch(),
{
}

/// Every timestamp of four digits for the year and two for each other number can be read, and so
/// can what is no timestamp.
pub proof fn law_ordinary_timestamps_can_be_read(s: Seq<char>)
    ensures
        parse_datetime(s) is None ==> datetime_fits(s) && stamp_fits(Some(s)),
        stamp_fits(None),
        parse_datetime(s) matches Some(d) ==> (d.year <= 9999 && d.day <= 99 && d.hour <= 99 && d.min
            <= 99 && d.sec <= 99 ==> datetime_fits(s) && stamp_fits(Some(s))),
{
    if let Some(d) = parse_datetime(s) {
        if d.year <= 9999 && d.day <= 99 && d.hour <= 99 && d.min <= 99 && d.sec <= 99 {
            lemma_leap_days(d.year);
            assert(d.year >= 0);
            lemma_months_are_short(d.year, d.months_before());
        }
    }
}

proof fn lemma_months_are_short(year: int, n: nat)
    ensures
        0 <= days_of_months(year, n) <= 31 * n,
    decreases n,
{
    if n > 0 {
        lemma_months_are_short(year, (n - 1) as nat);
    }
}

/// What a prune removes, and what a dry run counts, is what meets its condition; without statuses
/// there is no statement at all.
pub proof fn law_prunes_are_conditional(days: u32, statuses: Seq<Seq<char>>)
    ensures
        statuses.len() == 0 ==> deletion(days, statuses) is None && counting(
            days,
            statuses,
        ) is None,
        statuses.len() > 0 ==> deletion(days, statuses) == Some(
            "DELETE FROM job_history WHERE "@ + prune_condition(days, statuses),
        ),
        statuses.len() > 0 ==> counting(days, statuses) == Some(
            "SELECT COUNT(*) FROM job_history WHERE "@ + prune_condition(days, statuses),
        ),
{
}

} // verus!
