//! Dates and table contents.

use vstd::prelude::*;
use crate::text::{
    parse_i64, parsed_i64, chars_of, copy_str, concat2, concat3, push_str, decimal, usize_to_string,
    join, join_strings, texts, to_uppercase, uppercase_of, hex_pair, hex_pair_or_zero,
};
use crate::clickup::{Task, User};

verus! {

// ---------------------------------------------------------------------------
// The calendar
// ---------------------------------------------------------------------------

/// Whether `y` is a leap year of the proleptic Gregorian calendar.
pub open spec fn is_leap_year(y: int) -> bool {
    y % 4 == 0 && (y % 100 != 0 || y % 400 == 0)
}

/// The number of days of the month `m` (1 to 12) of the year `y`.
pub open spec fn days_in_month(y: int, m: int) -> int {
    if m == 2 {
        if is_leap_year(y) {
            29
        } else {
            28
        }
    } else if m == 4 || m == 6 || m == 9 || m == 11 {
        30
    } else {
        31
    }
}

/// Whether `y`-`m`-`d` is a day of the calendar.
pub open spec fn is_valid_date(y: int, m: int, d: int) -> bool {
    1 <= m <= 12 && 1 <= d <= days_in_month(y, m)
}

/// The number of days of the year `y` before the first of the month `m`.
pub open spec fn days_before_month(y: int, m: int) -> int
    decreases m,
{
    if m <= 1 {
        0
    } else {
        days_before_month(y, m - 1) + days_in_month(y, m - 1)
    }
}

/// The number of leap years from the year 1 to the year `n`, counted the
/// Gregorian way; for `n` below 1 it is minus the number of leap years from
/// `n + 1` to 0.
pub open spec fn leap_years_through(n: int) -> int {
    n / 4 - n / 100 + n / 400
}

/// The number of days from 1970-01-01 to the first of January of the year
/// `y`, negative for years before 1970 (`lemma_year_length` shows that it
/// grows by the length of each year).
pub open spec fn days_before_year(y: int) -> int {
    365 * (y - 1970) + leap_years_through(y - 1) - leap_years_through(1969)
}

/// The number of days from 1970-01-01 to `y`-`m`-`d`.
pub open spec fn days_from_epoch(y: int, m: int, d: int) -> int {
    days_before_year(y) + days_before_month(y, m) + d - 1
}

/// Whether `y`-`m`-`d` is the UTC date of the instant `ms` milliseconds after
/// the Unix epoch (days start at multiples of 86400000 ms).
pub open spec fn is_utc_date(ms: int, y: int, m: int, d: int) -> bool {
    is_valid_date(y, m, d) && days_from_epoch(y, m, d) == ms / 86400000
}

/// `n` in decimal, with zeros in front up to `width` digits.
pub open spec fn zero_padded(n: nat, width: nat) -> Seq<char> {
    let ds = decimal(n);
    if ds.len() < width {
        Seq::new((width - ds.len()) as nat, |i: int| '0') + ds
    } else {
        ds
    }
}

/// How chrono writes the year `y` for `%Y`: four digits, with zeros in
/// front, for the years 0 to 9999; otherwise its sign (`+` or `-`) and at
/// least four digits.
pub open spec fn year_text(y: int) -> Seq<char> {
    if 0 <= y <= 9999 {
        zero_padded(y as nat, 4)
    } else if y < 0 {
        seq!['-'] + zero_padded((-y) as nat, 4)
    } else {
        seq!['+'] + zero_padded(y as nat, 4)
    }
}

/// The text `%Y-%m-%d` of the date `y`-`m`-`d`: the year, then the month and
/// the day in two digits each, with `-` between them.
pub open spec fn ymd_text(y: int, m: int, d: int) -> Seq<char> {
    year_text(y) + seq!['-'] + zero_padded(m as nat, 2) + seq!['-'] + zero_padded(d as nat, 2)
}

/// The UTC date of the instant `ms` milliseconds after the Unix epoch
/// (`lemma_utc_date_unique` shows that there is at most one).
pub open spec fn utc_date(ms: int) -> (int, int, int) {
    choose|y: int, m: int, d: int| is_utc_date(ms, y, m, d)
}

/// The text `%Y-%m-%d` of the UTC date of the instant `ms`.
pub open spec fn utc_date_text(ms: int) -> Seq<char> {
    let (y, m, d) = utc_date(ms);
    ymd_text(y, m, d)
}

/// The first millisecond timestamp that chrono can represent as a
/// `DateTime<Utc>`: -262143-01-01T00:00:00Z.
pub const MIN_DATE_MILLIS: i64 = -8334601228800000i64;

/// The last millisecond timestamp that chrono can represent as a
/// `DateTime<Utc>`: +262142-12-31T23:59:59.999Z.
pub const MAX_DATE_MILLIS: i64 = 8210266876799999i64;

/// Formats the instant `ms` milliseconds after the Unix epoch as a UTC date.
/// Calls chrono's `DateTime::from_timestamp_millis` and formats the result
/// with `DateTime::format("%Y-%m-%d")`. The contract states, from chrono's
/// source, that the conversion succeeds exactly on the range of dates chrono
/// can represent (years -262143 to 262142), and that the text is the
/// proleptic Gregorian date of the day that holds the instant, written as
/// chrono writes `%Y`, `%m` and `%d`.
#[verifier::external_body]
fn format_millis_as_date(ms: i64) -> (r: Option<String>)
    ensures
        r is Some <==> MIN_DATE_MILLIS <= ms <= MAX_DATE_MILLIS,
        r matches Some(s) ==> exists|y: int, m: int, d: int|
            #[trigger] is_utc_date(ms as int, y, m, d) && s@ == ymd_text(y, m, d),
{
    match chrono::DateTime::from_timestamp_millis(ms) {
        Some(d) => Some(d.format("%Y-%m-%d").to_string()),
        None => None,
    }
}

/// Each year is 365 days long, 366 when it is a leap year.
pub proof fn lemma_year_length(y: int)
    ensures
        days_before_year(y + 1) - days_before_year(y) == if is_leap_year(y) {
            366int
        } else {
            365int
        },
{
}

/// Days before the first of January grow with the year.
pub proof fn lemma_days_before_year_grows(a: int, b: int)
    requires
        a < b,
    ensures
        days_before_year(a + 1) <= days_before_year(b),
    decreases b - a,
{
    if a + 1 < b {
        lemma_days_before_year_grows(a, b - 1);
        lemma_year_length(b - 1);
    }
}

/// Days before the first of a month grow with the month.
pub proof fn lemma_days_before_month_grows(y: int, m: int, k: int)
    requires
        1 <= m <= k,
    ensures
        days_before_month(y, m) <= days_before_month(y, k),
    decreases k - m,
{
    if m < k {
        lemma_days_before_month_grows(y, m, k - 1);
    }
}

/// A day of the year `y` falls before the first of January of `y + 1`.
proof fn lemma_day_within_year(y: int, m: int, d: int)
    requires
        is_valid_date(y, m, d),
    ensures
        days_before_year(y) <= days_from_epoch(y, m, d) < days_before_year(y + 1),
{
    lemma_days_before_month_grows(y, 1, m);
    lemma_days_before_month_grows(y, m + 1, 13);
    lemma_year_length(y);
    assert(days_before_month(y, 13) == if is_leap_year(y) {
        366int
    } else {
        365int
    }) by {
        reveal_with_fuel(days_before_month, 13);
    }
}

/// Of two dates of the calendar, the later one is the later day.
pub proof fn lemma_days_from_epoch_increasing(y1: int, m1: int, d1: int, y2: int, m2: int, d2: int)
    requires
        is_valid_date(y1, m1, d1),
        is_valid_date(y2, m2, d2),
        y1 < y2 || (y1 == y2 && (m1 < m2 || (m1 == m2 && d1 < d2))),
    ensures
        days_from_epoch(y1, m1, d1) < days_from_epoch(y2, m2, d2),
{
    lemma_day_within_year(y1, m1, d1);
    lemma_day_within_year(y2, m2, d2);
    if y1 < y2 {
        lemma_days_before_year_grows(y1, y2);
    } else if m1 < m2 {
        lemma_days_before_month_grows(y1, m1 + 1, m2);
    }
}

/// An instant has at most one UTC date.
pub proof fn lemma_utc_date_unique(ms: int, y1: int, m1: int, d1: int, y2: int, m2: int, d2: int)
    requires
        is_utc_date(ms, y1, m1, d1),
        is_utc_date(ms, y2, m2, d2),
    ensures
        y1 == y2 && m1 == m2 && d1 == d2,
{
    if y1 < y2 || (y1 == y2 && (m1 < m2 || (m1 == m2 && d1 < d2))) {
        lemma_days_from_epoch_increasing(y1, m1, d1, y2, m2, d2);
    } else if y2 < y1 || (y1 == y2 && (m2 < m1 || (m1 == m2 && d2 < d1))) {
        lemma_days_from_epoch_increasing(y2, m2, d2, y1, m1, d1);
    }
}

/// A later instant never has an earlier UTC date.
pub proof fn lemma_utc_date_in_order(
    ms1: int,
    ms2: int,
    y1: int,
    m1: int,
    d1: int,
    y2: int,
    m2: int,
    d2: int,
)
    requires
        ms1 <= ms2,
        is_utc_date(ms1, y1, m1, d1),
        is_utc_date(ms2, y2, m2, d2),
    ensures
        y1 < y2 || (y1 == y2 && (m1 < m2 || (m1 == m2 && d1 <= d2))),
{
    assert(ms1 / 86400000 <= ms2 / 86400000) by (nonlinear_arith)
        requires
            ms1 <= ms2,
    ;
    if y2 < y1 || (y1 == y2 && (m2 < m1 || (m1 == m2 && d2 < d1))) {
        lemma_days_from_epoch_increasing(y2, m2, d2, y1, m1, d1);
    }
}

/// The timestamp that a text of milliseconds stands for, if it is one.
pub open spec fn parsed_date_millis(date_milis: Seq<char>) -> Option<i64> {
    parsed_i64(date_milis)
}

/// Whether `date_milis` is a decimal `i64` within chrono's range of dates:
/// the texts `unix_date_to_readable` accepts.
pub open spec fn readable_date_input(date_milis: Seq<char>) -> bool {
    match parsed_i64(date_milis) {
        Some(ms) => MIN_DATE_MILLIS <= ms <= MAX_DATE_MILLIS,
        None => false,
    }
}

/// Whether `unix_date_to_readable` accepts `date_milis`.
pub fn is_readable_date(date_milis: &str) -> (b: bool)
    ensures
        b == readable_date_input(date_milis@),
{
    match parse_i64(date_milis) {
        Some(ms) => MIN_DATE_MILLIS <= ms && ms <= MAX_DATE_MILLIS,
        None => false,
    }
}

/// Formats a creation date given in milliseconds since the Unix epoch as
/// `YYYY-MM-DD` (UTC).
pub fn unix_date_to_readable(date_milis: &str) -> (r: String)
    requires
        readable_date_input(date_milis@),
    ensures
        r@ == utc_date_text(parsed_i64(date_milis@).unwrap() as int),
{
    let ms: i64 = match parse_i64(date_milis) {
        Some(ms) => ms,
        None => 0,
    };
    match format_millis_as_date(ms) {
        Some(s) => {
            proof {
                let (y, m, d) = choose|y: int, m: int, d: int|
                    #[trigger] is_utc_date(ms as int, y, m, d) && s@ == ymd_text(y, m, d);
                let (y2, m2, d2) = utc_date(ms as int);
                lemma_utc_date_unique(ms as int, y, m, d, y2, m2, d2);
            }
            s
        },
        None => String::new(),
    }
}


/// The path that `PathBuf::push` makes of `base` and a relative path `rel`
/// on Unix: `rel` alone when `base` is empty, else `base` and `rel` with one
/// `/` between them unless `base` already ends with one.
pub open spec fn path_push(base: Seq<char>, rel: Seq<char>) -> Seq<char> {
    if base.len() == 0 {
        rel
    } else if base.last() == '/' {
        base + rel
    } else {
        base + "/"@ + rel
    }
}

/// Appends the relative path `rel` to `base`, as `PathBuf::push` does.
pub fn push_path(base: &str, rel: &str) -> (r: String)
    ensures
        r@ == path_push(base@, rel@),
{
    let b = chars_of(base);
    if b.len() == 0 {
        copy_str(rel)
    } else if b[b.len() - 1] == '/' {
        concat2(base, rel)
    } else {
        concat3(base, "/", rel)
    }
}


// ---------------------------------------------------------------------------
// The task table
// ---------------------------------------------------------------------------

/// `bytes` without its leading `#` bytes.
pub open spec fn trim_hashes(bytes: Seq<u8>) -> Seq<u8>
    decreases bytes.len(),
{
    if bytes.len() > 0 && bytes[0] == 35 {
        trim_hashes(bytes.drop_first())
    } else {
        bytes
    }
}

/// Whether `b` continues a multi-byte UTF-8 character.
pub open spec fn is_continuation_byte(b: u8) -> bool {
    128 <= b < 192
}

/// Whether a status colour can be split into its three channels: once its
/// leading `#`s are gone it has at least six bytes, and the byte offsets 2,
/// 4 and 6 fall on character boundaries (the byte slices `[0..2]`, `[2..4]`
/// and `[4..6]` of the colour exist).
pub open spec fn color_channels_ok(color: Seq<char>) -> bool {
    let t = trim_hashes(vstd::utf8::encode_utf8(color));
    &&& t.len() >= 6
    &&& !is_continuation_byte(t[2])
    &&& !is_continuation_byte(t[4])
    &&& (t.len() == 6 || !is_continuation_byte(t[6]))
}

/// A channel of a colour: the two bytes from `i` read as hexadecimal, 0
/// when they do not read.
pub open spec fn channel(t: Seq<u8>, i: int) -> u8 {
    match hex_pair(t[i], t[i + 1]) {
        Some(v) => v,
        None => 0,
    }
}

/// The red, green and blue channels of a status colour `#rrggbb`.
pub open spec fn status_rgb(color: Seq<char>) -> (u8, u8, u8) {
    let t = trim_hashes(vstd::utf8::encode_utf8(color));
    (channel(t, 0), channel(t, 2), channel(t, 4))
}

/// The mark of a status: the first character of its upper-cased name, or
/// `-` when the name is empty.
pub open spec fn status_mark_of(status: Seq<char>) -> char {
    if status.len() > 0 {
        uppercase_of(status)[0]
    } else {
        '-'
    }
}

/// How an assignee is listed: the username, a space, and the id.
pub open spec fn assignee_text(u: User) -> Seq<char> {
    u.username@ + " "@ + decimal(u.id as nat)
}

/// The assignees of a task, listed and joined with commas.
pub open spec fn assignees_text(users: Seq<User>) -> Seq<char> {
    join(users.map_values(|u: User| assignee_text(u)), ","@)
}

/// A row of the task table.
pub struct TaskRow {
    /// The status mark, shown in bold in the status colour.
    pub status_mark: char,
    pub red: u8,
    pub green: u8,
    pub blue: u8,
    pub id: String,
    pub created: String,
    pub assignees: String,
    pub name: String,
}

/// Whether `r` is the row of the task `t`.
pub open spec fn is_task_row(r: TaskRow, t: Task) -> bool {
    &&& r.status_mark == status_mark_of(t.status.status@)
    &&& (r.red, r.green, r.blue) == status_rgb(t.status.color@)
    &&& r.id@ == t.id@
    &&& r.created@ == utc_date_text(parsed_i64(t.date_created@).unwrap() as int)
    &&& r.assignees@ == assignees_text(t.assignees@)
    &&& r.name@ == t.name@
}

/// Whether every task of `tasks` can be shown in the table.
pub open spec fn tasks_showable(tasks: Seq<Task>) -> bool {
    forall|i: int| 0 <= i < tasks.len() ==> {
        &&& color_channels_ok(#[trigger] tasks[i].status.color@)
        &&& readable_date_input(tasks[i].date_created@)
    }
}

/// The task table: one row for each task, in order, and the line under it
/// that says how many of how many tasks it shows.
pub struct TaskTable {
    pub rows: Vec<TaskRow>,
    pub footer: String,
}

fn status_mark(status: &str) -> (c: char)
    ensures
        c == status_mark_of(status@),
{
    let up = to_uppercase(status);
    let cs = chars_of(up.as_str());
    if cs.len() > 0 {
        cs[0]
    } else {
        '-'
    }
}

/// The number of leading `#` bytes of `bytes`.
fn hash_prefix_len(bytes: &[u8]) -> (i: usize)
    ensures
        i <= bytes@.len(),
        trim_hashes(bytes@) == bytes@.skip(i as int),
{
    let ghost all = bytes@;
    assert(all.skip(0) == all);
    let mut i: usize = 0;
    while i < bytes.len() && bytes[i] == 35
        invariant
            i <= bytes@.len(),
            bytes@ == all,
            trim_hashes(all) == trim_hashes(all.skip(i as int)),
        decreases bytes@.len() - i,
    {
        assert(all.skip(i as int).drop_first() == all.skip(i + 1));
        i = i + 1;
    }
    assert(trim_hashes(all.skip(i as int)) == all.skip(i as int));
    i
}

/// Whether a status colour can be split into its three channels, the
/// condition under which `render_task_table` accepts a task.
pub fn is_color_sliceable(color: &str) -> (b: bool)
    ensures
        b == color_channels_ok(color@),
{
    let bytes = color.as_bytes();
    assert(bytes@ == vstd::utf8::encode_utf8(color@));
    let i: usize = hash_prefix_len(bytes);
    let n: usize = bytes.len() - i;
    if n < 6 {
        return false;
    }
    let c2 = bytes[i + 2];
    let c4 = bytes[i + 4];
    let ok6 = n == 6 || !(128 <= bytes[i + 6] && bytes[i + 6] < 192);
    !(128 <= c2 && c2 < 192) && !(128 <= c4 && c4 < 192) && ok6
}

fn color_rgb(color: &str) -> (r: (u8, u8, u8))
    requires
        color_channels_ok(color@),
    ensures
        r == status_rgb(color@),
{
    let bytes = color.as_bytes();
    assert(bytes@ == vstd::utf8::encode_utf8(color@));
    let i: usize = hash_prefix_len(bytes);
    let r: u8 = hex_pair_or_zero(bytes[i], bytes[i + 1]);
    let g: u8 = hex_pair_or_zero(bytes[i + 2], bytes[i + 3]);
    let b: u8 = hex_pair_or_zero(bytes[i + 4], bytes[i + 5]);
    (r, g, b)
}

fn assignees_line(users: &Vec<User>) -> (r: String)
    ensures
        r@ == assignees_text(users@),
{
    let mut parts: Vec<String> = Vec::new();
    let mut i: usize = 0;
    while i < users.len()
        invariant
            i <= users@.len(),
            parts@.len() == i,
            forall|j: int| 0 <= j < i ==> #[trigger] parts@[j]@ == assignee_text(users@[j]),
        decreases users@.len() - i,
    {
        let id = usize_to_string(users[i].id);
        parts.push(concat3(users[i].username.as_str(), " ", id.as_str()));
        i = i + 1;
    }
    assert(texts(parts@) =~= users@.map_values(|u: User| assignee_text(u)));
    join_strings(&parts, ",")
}

/// The line under the task table: how many tasks it shows of how many the
/// list holds.
pub open spec fn showing_line(shown: nat, total: nat) -> Seq<char> {
    "Showing "@ + decimal(shown) + " of "@ + decimal(total) + "."@
}

/// The rows of the task table and the line under it; `total` is the number
/// of tasks before any filtering.
pub fn render_task_table(tasks: &Vec<Task>, total: usize) -> (r: TaskTable)
    requires
        tasks_showable(tasks@),
    ensures
        r.rows@.len() == tasks@.len(),
        forall|i: int| 0 <= i < tasks@.len() ==> is_task_row(#[trigger] r.rows@[i], tasks@[i]),
        r.footer@ == showing_line(tasks@.len(), total as nat),
{
    let mut rows: Vec<TaskRow> = Vec::new();
    let mut i: usize = 0;
    while i < tasks.len()
        invariant
            i <= tasks@.len(),
            tasks_showable(tasks@),
            rows@.len() == i,
            forall|j: int| 0 <= j < i ==> is_task_row(#[trigger] rows@[j], tasks@[j]),
        decreases tasks@.len() - i,
    {
        let task = &tasks[i];
        assert(color_channels_ok(tasks@[i as int].status.color@));
        let (red, green, blue) = color_rgb(task.status.color.as_str());
        rows.push(TaskRow {
            status_mark: status_mark(task.status.status.as_str()),
            red,
            green,
            blue,
            id: copy_str(task.id.as_str()),
            created: unix_date_to_readable(task.date_created.as_str()),
            assignees: assignees_line(&task.assignees),
            name: copy_str(task.name.as_str()),
        });
        i = i + 1;
    }
    let shown = usize_to_string(tasks.len());
    let all = usize_to_string(total);
    let mut footer = concat3("Showing ", shown.as_str(), " of ");
    push_str(&mut footer, all.as_str());
    push_str(&mut footer, ".");
    TaskTable { rows, footer }
}

} // verus!
