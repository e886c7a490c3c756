use lab_logger::clock::LocalDateTime;
use lab_logger::database::{
    create_session_table_sql, entry_time_sql, exit_update_sql, insert_student_sql,
    session_answers, session_option, session_options, session_record, session_table_name,
    start_session, student_records_sql, MasterTableRecord, StudentRecord, INSERT_MASTER_SQL,
    MASTER_RECORDS_SQL, MASTER_TABLE_SCHEMA, SESSIONS_ON_DATE_SQL,
};

#[test]
fn session_tables_are_named_by_start_time() {
    assert_eq!(session_table_name(1723563266738), "s_1723563266738");
    assert_eq!(session_table_name(0), "s_0");
    assert_eq!(session_table_name(-1), "s_-1");
}

#[test]
fn sql_of_a_session_table() {
    let t = "s_1723563266738";
    assert_eq!(
        create_session_table_sql(t),
        "CREATE TABLE s_1723563266738 (roll_number TEXT PRIMARY KEY, entry_timestamp DATETIME, exit_timestamp DATETIME)"
    );
    assert_eq!(
        insert_student_sql(t),
        "INSERT OR IGNORE INTO s_1723563266738 (roll_number, entry_timestamp) VALUES (?, ?)"
    );
    assert_eq!(entry_time_sql(t), "SELECT entry_timestamp FROM s_1723563266738 WHERE roll_number = ?");
    assert_eq!(exit_update_sql(t), "UPDATE s_1723563266738 SET exit_timestamp = ? WHERE roll_number = ?");
    assert_eq!(student_records_sql(t), "SELECT * FROM s_1723563266738");
}

#[test]
fn sql_of_the_master_table() {
    assert!(MASTER_TABLE_SCHEMA.contains("CREATE TABLE IF NOT EXISTS master_table ("));
    assert!(INSERT_MASTER_SQL.starts_with("INSERT INTO master_table (table_id, timestamp"));
    assert_eq!(SESSIONS_ON_DATE_SQL, "SELECT * FROM master_table WHERE DATE(timestamp) = ?");
    assert_eq!(MASTER_RECORDS_SQL, "SELECT * FROM master_table ORDER BY timestamp DESC");
}

#[test]
fn session_answers_are_normalised() {
    let (course, branch, year, semester) = session_answers(" Java programming Lab\n", " cse \n", 2, 0);
    assert_eq!(course, "Java programming Lab");
    assert_eq!(branch, "CSE");
    assert_eq!(year, "3");
    assert_eq!(semester, "1");
    let (_, branch, _, _) = session_answers("x", "straße", 0, 1);
    assert_eq!(branch, "STRASSE");
}

fn record() -> MasterTableRecord {
    let now = LocalDateTime { year: 2024, month: 8, day: 13, hour: 21, minute: 4, second: 26, nanosecond: 738_000_000 };
    session_record(1723563266738, &now, "Java Lab", "CSE", "3", "1")
}

#[test]
fn a_session_record() {
    let r = record();
    assert_eq!(r.table_id, "s_1723563266738");
    assert_eq!(r.timestamp, "2024-08-13 21:04:26");
    assert_eq!(r.course, "Java Lab");
    assert_eq!(r.branch, "CSE");
    assert_eq!(r.year, "3");
    assert_eq!(r.semester, "1");
    assert_eq!(r.session, "afternoon");
}

#[test]
fn a_session_started_now() {
    let r = start_session("C", "ECE", "1", "2");
    assert!(r.table_id.starts_with("s_"));
    assert_eq!(r.timestamp.len(), 19);
    assert!(r.session == "forenoon" || r.session == "afternoon");
    assert_eq!(r.branch, "ECE");
}

#[test]
fn session_choice_lines() {
    let r = record();
    let expected = format!(
        "{} | {:<9} | {}-{} | {:<10} | \x1b[33m{}\x1b[0m",
        r.timestamp, r.session, r.year, r.semester, r.branch, r.course
    );
    assert_eq!(session_option(&r), expected);
    assert_eq!(session_option(&r), "2024-08-13 21:04:26 | afternoon | 3-1 | CSE        | \x1b[33mJava Lab\x1b[0m");
    let lines = session_options(&vec![record(), record()]);
    assert_eq!(lines.len(), 2);
    assert_eq!(lines[1], expected);
}

#[test]
fn student_records_hold_optional_exits() {
    let s = StudentRecord {
        roll_number: "12345A67B8".to_string(),
        entry_timestamp: "2024-08-13 21:04:26".to_string(),
        exit_timestamp: None,
    };
    assert!(s.exit_timestamp.is_none());
}
