//! Attendance records: the session tables and the master table that lists
//! the sessions, the SQL the logger runs on them, and how sessions are
//! named and offered for selection.
use vstd::prelude::*;
use crate::clock::{
    exit_follows, format_local, ist_offset_seconds, nanos_per_second, read_clock, seconds_of, session_of,
    session_of_hour, timestamp_text, LocalDateTime, TIMESTAMP_FORMAT,
};
use crate::text::{
    all_ascii, ascii_upper, int_decimal, int_text, nat_text, decimal, pad_back, pad_end, to_uppercase, trim, trimmed,
    unicode_uppercase,
};

verus! {

/// One student's attendance in a session: when the roll number was first
/// scanned, and when the exit was recorded, if it was.
#[derive(Debug)]
pub struct StudentRecord {
    pub roll_number: String,
    pub entry_timestamp: String,
    pub exit_timestamp: Option<String>,
}

/// One session as the master table lists it.
#[derive(Debug)]
pub struct MasterTableRecord {
    pub table_id: String,
    pub timestamp: String,
    pub course: String,
    pub branch: String,
    pub year: String,
    pub semester: String,
    pub session: String,
}

/// Creates the master table of sessions when the database has none.
pub const MASTER_TABLE_SCHEMA: &'static str = "
            CREATE TABLE IF NOT EXISTS master_table (
                table_id TEXT PRIMARY KEY,
                timestamp DATETIME,
                course TEXT,
                branch TEXT,
                year TEXT CHECK(year IN ('1', '2', '3','4')),
                semester TEXT CHECK(semester IN ('1', '2')),
                session TEXT CHECK(session IN ('forenoon', 'afternoon'))
            );
        ";

/// Records a new session in the master table; the parameters are the
/// fields of a `MasterTableRecord`, in order.
pub const INSERT_MASTER_SQL: &'static str =
    "INSERT INTO master_table (table_id, timestamp, course, branch, year, semester, session) VALUES (?, ?, ?, ?, ?, ?, ?)";

/// Selects the sessions started on a date (`YYYY-MM-DD`).
pub const SESSIONS_ON_DATE_SQL: &'static str =
    "SELECT * FROM master_table WHERE DATE(timestamp) = ?";

/// Selects all sessions, latest first.
pub const MASTER_RECORDS_SQL: &'static str =
    "SELECT * FROM master_table ORDER BY timestamp DESC";

fn framed(prefix: &str, name: &str, suffix: &str) -> (r: String)
    ensures
        r@ == prefix@ + name@ + suffix@,
{
    let mut r = prefix.to_owned();
    r.append(name);
    r.append(suffix);
    r
}

/// SQL that creates the table of a new session.
pub fn create_session_table_sql(table: &str) -> (r: String)
    ensures
        r@ == "CREATE TABLE "@ + table@
            + " (roll_number TEXT PRIMARY KEY, entry_timestamp DATETIME, exit_timestamp DATETIME)"@,
{
    framed(
        "CREATE TABLE ",
        table,
        " (roll_number TEXT PRIMARY KEY, entry_timestamp DATETIME, exit_timestamp DATETIME)",
    )
}

/// SQL that records an entry unless the roll number is already in the session.
pub fn insert_student_sql(table: &str) -> (r: String)
    ensures
        r@ == "INSERT OR IGNORE INTO "@ + table@ + " (roll_number, entry_timestamp) VALUES (?, ?)"@,
{
    framed("INSERT OR IGNORE INTO ", table, " (roll_number, entry_timestamp) VALUES (?, ?)")
}

/// SQL that reads the entry time of a roll number in a session.
pub fn entry_time_sql(table: &str) -> (r: String)
    ensures
        r@ == "SELECT entry_timestamp FROM "@ + table@ + " WHERE roll_number = ?"@,
{
    framed("SELECT entry_timestamp FROM ", table, " WHERE roll_number = ?")
}

/// SQL that records the exit time of a roll number in a session.
pub fn exit_update_sql(table: &str) -> (r: String)
    ensures
        r@ == "UPDATE "@ + table@ + " SET exit_timestamp = ? WHERE roll_number = ?"@,
{
    framed("UPDATE ", table, " SET exit_timestamp = ? WHERE roll_number = ?")
}

/// SQL that reads every record of a session.
pub fn student_records_sql(table: &str) -> (r: String)
    ensures
        r@ == "SELECT * FROM "@ + table@,
{
    let mut r = "SELECT * FROM ".to_owned();
    r.append(table);
    r
}

/// The table name of a session started at `millis` milliseconds after the epoch.
pub open spec fn table_name_for(millis: int) -> Seq<char> {
    seq!['s', '_'] + int_decimal(millis)
}

/// The table name of a session started at `millis` milliseconds after the epoch.
pub fn session_table_name(millis: i64) -> (r: String)
    ensures
        r@ == table_name_for(millis as int),
{
    let mut r = String::new();
    crate::text::push_char(&mut r, 's');
    crate::text::push_char(&mut r, '_');
    let n = int_text(millis);
    r.append(n.as_str());
    r
}

/// The session details as typed: the course trimmed, the branch trimmed and
/// in upper case, and the chosen year and semester (indices from 0) counted
/// from 1.
pub fn session_answers(
    course_line: &str,
    branch_line: &str,
    year_index: usize,
    semester_index: usize,
) -> (r: (String, String, String, String))
    requires
        year_index < usize::MAX,
        semester_index < usize::MAX,
    ensures
        r.0@ == trimmed(course_line@),
        r.1@ == unicode_uppercase(trimmed(branch_line@)),
        all_ascii(trimmed(branch_line@)) ==> r.1@ == trimmed(branch_line@).map_values(
            |c: char| ascii_upper(c),
        ),
        r.2@ == decimal((year_index + 1) as nat),
        r.3@ == decimal((semester_index + 1) as nat),
{
    let course = trim(course_line);
    let branch = trim(branch_line);
    let branch = to_uppercase(branch.as_str());
    let year = nat_text((year_index + 1) as u64);
    let semester = nat_text((semester_index + 1) as u64);
    (course, branch, year, semester)
}

/// The master-table record of a session started at `millis` milliseconds
/// after the epoch, when the local time is `now`.
pub fn session_record(
    millis: i64,
    now: &LocalDateTime,
    course: &str,
    branch: &str,
    year: &str,
    semester: &str,
) -> (r: MasterTableRecord)
    requires
        now.wf(),
    ensures
        r.table_id@ == table_name_for(millis as int),
        r.timestamp@ == timestamp_text(*now),
        r.course@ == course@,
        r.branch@ == branch@,
        r.year@ == year@,
        r.semester@ == semester@,
        r.session@ == session_of(now.hour as nat),
{
    MasterTableRecord {
        table_id: session_table_name(millis),
        timestamp: format_local(now, TIMESTAMP_FORMAT),
        course: course.to_owned(),
        branch: branch.to_owned(),
        year: year.to_owned(),
        semester: semester.to_owned(),
        session: session_of_hour(now.hour),
    }
}

/// The master-table record of a session that starts now: its table is named
/// by the milliseconds since the epoch, and its time and half of the day are
/// those of the same instant in Indian Standard Time.
pub fn start_session(course: &str, branch: &str, year: &str, semester: &str) -> (r:
    MasterTableRecord)
    ensures
        exists|millis: int, now: LocalDateTime|
            {
                &&& now.wf()
                &&& now.nanosecond < nanos_per_second()
                &&& seconds_of(now) == millis / 1000 + ist_offset_seconds()
                &&& r.table_id@ == table_name_for(millis)
                &&& r.timestamp@ == timestamp_text(now)
                &&& r.session@ == session_of(now.hour as nat)
            },
        r.course@ == course@,
        r.branch@ == branch@,
        r.year@ == year@,
        r.semester@ == semester@,
{
    let clock = read_clock();
    let millis = clock.utc_millis;
    let now = clock.kolkata;
    let r = session_record(millis, &now, course, branch, year, semester);
    proof {
        let s = seconds_of(clock.utc);
        let m = clock.utc.nanosecond / 1_000_000;
        assert(0 <= m < 1000);
        assert((s * 1000 + m) / 1000 == s) by (nonlinear_arith)
            requires
                0 <= m < 1000,
        ;
        assert(r.table_id@ == table_name_for(millis as int));
    }
    r
}

/// What recording a scan led to, from the number of rows the insertion added.
#[derive(Debug, PartialEq, Eq, Structural)]
pub enum ScanStep {
    /// The roll number was new in the session: its entry was recorded.
    Entered,
    /// The roll number was already in the session: check for an exit.
    CheckExit,
}

/// After inserting a scanned roll number: no new row means the student was
/// already in, so the exit rule applies; otherwise the entry was recorded.
pub fn scan_step(rows_affected: usize) -> (r: ScanStep)
    ensures
        rows_affected == 0 <==> r == ScanStep::CheckExit,
        rows_affected != 0 <==> r == ScanStep::Entered,
{
    if rows_affected == 0 {
        ScanStep::CheckExit
    } else {
        ScanStep::Entered
    }
}

/// What continuing a recent session does, from the sessions offered.
#[derive(Debug, PartialEq, Eq, Structural)]
pub enum ContinueStep {
    /// A session was chosen: take roll numbers for it.
    TakeRollNumbers,
    /// There was no session today to choose.
    NoRecentSessions,
}

/// Continuing a recent session takes roll numbers only when a session was offered.
pub fn continue_step(options: &Vec<String>) -> (r: ContinueStep)
    ensures
        options@.len() > 0 <==> r == ContinueStep::TakeRollNumbers,
        options@.len() == 0 <==> r == ContinueStep::NoRecentSessions,
{
    if options.len() > 0 {
        ContinueStep::TakeRollNumbers
    } else {
        ContinueStep::NoRecentSessions
    }
}

/// The line a session is offered with when choosing one to continue:
/// start time, half of the day (padded to 9), year-semester, branch (padded
/// to 10) and, in yellow, the course.
pub open spec fn option_text(
    timestamp: Seq<char>,
    session: Seq<char>,
    year: Seq<char>,
    semester: Seq<char>,
    branch: Seq<char>,
    course: Seq<char>,
) -> Seq<char> {
    timestamp + " | "@ + pad_back(session, 9, ' ') + " | "@ + year + "-"@ + semester + " | "@
        + pad_back(branch, 10, ' ') + " | \x1b[33m"@ + course + "\x1b[0m"@
}

/// The choice line of a session record.
pub open spec fn record_option(r: MasterTableRecord) -> Seq<char> {
    option_text(r.timestamp@, r.session@, r.year@, r.semester@, r.branch@, r.course@)
}

/// The line a session is offered with when choosing one to continue.
pub fn session_option(record: &MasterTableRecord) -> (r: String)
    ensures
        r@ == record_option(*record),
{
    let mut r = record.timestamp.clone();
    r.append(" | ");
    let session = pad_end(record.session.as_str(), 9, ' ');
    r.append(session.as_str());
    r.append(" | ");
    r.append(record.year.as_str());
    r.append("-");
    r.append(record.semester.as_str());
    r.append(" | ");
    let branch = pad_end(record.branch.as_str(), 10, ' ');
    r.append(branch.as_str());
    r.append(" | \x1b[33m");
    r.append(record.course.as_str());
    r.append("\x1b[0m");
    r
}

/// The lines the sessions are offered with, in order.
pub fn session_options(records: &Vec<MasterTableRecord>) -> (r: Vec<String>)
    ensures
        r@.len() == records@.len(),
        forall|i: int| 0 <= i < r@.len() ==> #[trigger] r@[i]@ == record_option(records@[i]),
{
    let mut r: Vec<String> = Vec::new();
    let n = records.len();
    let mut i: usize = 0;
    while i < n
        invariant
            n == records@.len(),
            i <= n,
            r@.len() == i,
            forall|j: int| 0 <= j < i ==> #[trigger] r@[j]@ == record_option(records@[j]),
        decreases n - i,
    {
        r.push(session_option(&records[i]));
        i = i + 1;
    }
    r
}

/// One row of a session table, as text: the roll number, its entry time and,
/// once recorded, its exit time.
pub struct AttendanceRow {
    pub roll_number: Seq<char>,
    pub entry: Seq<char>,
    pub exit: Option<Seq<char>>,
}

/// Whether some row holds the roll number.
pub open spec fn has_row(rows: Seq<AttendanceRow>, roll: Seq<char>) -> bool {
    exists|i: int| 0 <= i < rows.len() && #[trigger] rows[i].roll_number == roll
}

/// The position of the row holding the roll number, when some row does.
pub open spec fn row_of(rows: Seq<AttendanceRow>, roll: Seq<char>) -> int {
    choose|i: int| 0 <= i < rows.len() && #[trigger] rows[i].roll_number == roll
}

/// A session table after one scan of `roll`, stored at the time text
/// `now_text`: `INSERT OR IGNORE` (the roll number is the primary key) adds a
/// row with that entry time when the roll number is new; otherwise, when the
/// exit check recorded an exit at `exit`, `UPDATE` sets that row's exit time.
pub open spec fn after_scan(
    rows: Seq<AttendanceRow>,
    roll: Seq<char>,
    now_text: Seq<char>,
    exit: Option<Seq<char>>,
) -> Seq<AttendanceRow> {
    if !has_row(rows, roll) {
        rows.push(AttendanceRow { roll_number: roll, entry: now_text, exit: None })
    } else {
        match exit {
            Some(x) => {
                let i = row_of(rows, roll);
                rows.update(
                    i,
                    AttendanceRow { roll_number: rows[i].roll_number, entry: rows[i].entry, exit: Some(x) },
                )
            },
            None => rows,
        }
    }
}

/// A consistent session table: each roll number has at most one row, and each
/// recorded exit time followed its row's entry time by the two-minute rule.
pub open spec fn attendance_ok(rows: Seq<AttendanceRow>) -> bool {
    &&& forall|i: int, j: int|
        0 <= i < j < rows.len() ==> #[trigger] rows[i].roll_number != #[trigger] rows[j].roll_number
    &&& forall|i: int|
        0 <= i < rows.len() && (#[trigger] rows[i].exit) is Some ==> exit_follows(
            rows[i].entry,
            rows[i].exit->0,
        )
}

/// Whether `exit`, if any, is an exit time the exit check gave for the entry
/// time of the row that holds `roll`.
pub open spec fn exit_checked(rows: Seq<AttendanceRow>, roll: Seq<char>, exit: Option<Seq<char>>) -> bool {
    has_row(rows, roll) && exit is Some ==> exit_follows(rows[row_of(rows, roll)].entry, exit->0)
}

/// Scanning keeps a session table consistent: after any scan, each roll number
/// still has at most one row, no row's roll number or entry time changes (the
/// entry time stays that of the first scan), a new roll number gets a row with
/// the scan's time and no exit, and every recorded exit time followed its
/// entry time by the two-minute rule, given that the exit time is the one the
/// exit check gave for that entry.
pub proof fn lemma_scan_keeps_attendance(
    rows: Seq<AttendanceRow>,
    roll: Seq<char>,
    now_text: Seq<char>,
    exit: Option<Seq<char>>,
)
    requires
        attendance_ok(rows),
        exit_checked(rows, roll, exit),
    ensures
        attendance_ok(after_scan(rows, roll, now_text, exit)),
        after_scan(rows, roll, now_text, exit).len() >= rows.len(),
        forall|j: int|
            0 <= j < rows.len() ==> #[trigger] after_scan(rows, roll, now_text, exit)[j].roll_number
                == rows[j].roll_number && after_scan(rows, roll, now_text, exit)[j].entry
                == rows[j].entry,
        !has_row(rows, roll) ==> after_scan(rows, roll, now_text, exit) == rows.push(
            AttendanceRow { roll_number: roll, entry: now_text, exit: None },
        ),
        has_row(rows, roll) ==> after_scan(rows, roll, now_text, exit).len() == rows.len(),
{
    let after = after_scan(rows, roll, now_text, exit);
    if !has_row(rows, roll) {
        assert forall|i: int, j: int| 0 <= i < j < after.len() implies #[trigger] after[i].roll_number
            != #[trigger] after[j].roll_number by {
            if j == rows.len() {
                assert(rows[i].roll_number != roll);
            }
        }
        assert forall|i: int| 0 <= i < after.len() && (#[trigger] after[i].exit) is Some implies exit_follows(
            after[i].entry,
            after[i].exit->0,
        ) by {
            assert(i < rows.len());
            assert(after[i] == rows[i]);
        }
    } else if exit is Some {
        let k = row_of(rows, roll);
        assert(0 <= k < rows.len() && rows[k].roll_number == roll);
        assert forall|i: int, j: int| 0 <= i < j < after.len() implies #[trigger] after[i].roll_number
            != #[trigger] after[j].roll_number by {
            assert(after[i].roll_number == rows[i].roll_number);
            assert(after[j].roll_number == rows[j].roll_number);
        }
        assert forall|i: int| 0 <= i < after.len() && (#[trigger] after[i].exit) is Some implies exit_follows(
            after[i].entry,
            after[i].exit->0,
        ) by {
            if i != k {
                assert(after[i] == rows[i]);
            }
        }
    }
}

} // verus!
