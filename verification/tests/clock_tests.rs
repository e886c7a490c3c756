use lab_logger::clock::{
    current_date, current_timestamp, exit_check, exit_check_at, exit_decision, session_of_hour,
    ExitCheck, LocalDateTime,
};

fn at(year: i32, month: u32, day: u32, hour: u32, minute: u32, second: u32) -> LocalDateTime {
    LocalDateTime { year, month, day, hour, minute, second, nanosecond: 0 }
}

#[test]
fn sessions_split_at_noon() {
    assert_eq!(session_of_hour(0), "forenoon");
    assert_eq!(session_of_hour(11), "forenoon");
    assert_eq!(session_of_hour(12), "afternoon");
    assert_eq!(session_of_hour(23), "afternoon");
}

#[test]
fn exit_needs_two_whole_minutes() {
    let entry = "2024-03-05 10:00:00";
    match exit_check_at(&at(2024, 3, 5, 10, 1, 59), entry) {
        ExitCheck::TooSoon => {}
        _ => panic!("one minute fifty-nine is too soon"),
    }
    match exit_check_at(&at(2024, 3, 5, 10, 2, 0), entry) {
        ExitCheck::Exit(t) => assert_eq!(t, "2024-03-05 10:02:00"),
        _ => panic!("two minutes records the exit"),
    }
    let almost = LocalDateTime { nanosecond: 999_999_999, ..at(2024, 3, 5, 10, 1, 59) };
    assert!(matches!(exit_check_at(&almost, entry), ExitCheck::TooSoon));
}

#[test]
fn exit_across_midnight_and_months() {
    match exit_check_at(&at(2024, 3, 1, 0, 1, 0), "2024-02-29 23:59:00") {
        ExitCheck::Exit(t) => assert_eq!(t, "2024-03-01 00:01:00"),
        _ => panic!("two minutes across a leap day"),
    }
    assert!(matches!(exit_check_at(&at(2023, 12, 31, 23, 59, 0), "2024-01-01 00:00:00"), ExitCheck::TooSoon));
}

#[test]
fn unreadable_entry_times() {
    assert!(matches!(exit_check_at(&at(2024, 3, 5, 10, 0, 0), "yesterday"), ExitCheck::Unreadable));
    assert!(matches!(exit_check_at(&at(2024, 3, 5, 10, 0, 0), "2024-02-30 10:00:00"), ExitCheck::Unreadable));
    assert!(matches!(exit_check("not a time"), ExitCheck::Unreadable));
}

#[test]
fn decision_on_parsed_entries() {
    let now = at(2024, 3, 5, 10, 5, 0);
    assert!(matches!(exit_decision(&now, None), ExitCheck::Unreadable));
    assert!(matches!(exit_decision(&now, Some(at(2024, 3, 5, 10, 4, 0))), ExitCheck::TooSoon));
    match exit_decision(&now, Some(at(2024, 3, 5, 9, 0, 0))) {
        ExitCheck::Exit(t) => assert_eq!(t, "2024-03-05 10:05:00"),
        _ => panic!("an hour later records the exit"),
    }
    // an entry in the future never records an exit
    assert!(matches!(exit_decision(&now, Some(at(2024, 3, 5, 11, 0, 0))), ExitCheck::TooSoon));
}

#[test]
fn timestamps_from_the_clock_have_the_stored_shape() {
    let t = current_timestamp();
    assert_eq!(t.len(), 19);
    assert!(chrono::NaiveDateTime::parse_from_str(&t, "%Y-%m-%d %H:%M:%S").is_ok());
    let d = current_date();
    assert_eq!(d.len(), 10);
    assert!(chrono::NaiveDate::parse_from_str(&d, "%Y-%m-%d").is_ok());
    // an entry made a moment ago is too soon for an exit
    assert!(matches!(exit_check(&t), ExitCheck::TooSoon));
}

#[test]
fn years_are_written_with_four_digits() {
    match exit_check_at(&at(987, 1, 2, 3, 4, 5), "0987-01-02 03:00:00") {
        ExitCheck::Exit(t) => assert_eq!(t, "0987-01-02 03:04:05"),
        _ => panic!("four minutes records the exit"),
    }
}
