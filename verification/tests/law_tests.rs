use lab_logger::api::{db_file_label, db_file_name, select_db_files};
use lab_logger::config::parse_lab_names;
use lab_logger::console::centre;
use lab_logger::database::start_session;
use lab_logger::http::{request_target, route_request, Route, Target};
use lab_logger::text::trim;

#[test]
fn a_monthly_database_is_listed_and_labelled() {
    for (month, year, label) in [(1, 2024, "Jan 2024"), (8, 2025, "Aug 2025"), (12, 0, "Dec 0")] {
        let name = db_file_name(month, year);
        assert_eq!(select_db_files(vec![name.clone()]), vec![name.clone()]);
        assert_eq!(db_file_label(&name).as_deref(), Some(label));
    }
}

#[test]
fn a_negative_year_loses_its_label_year() {
    // the law leaves negative years out: `07--5.db` is labelled without a year
    assert_eq!(db_file_label(&db_file_name(7, -5)).as_deref(), Some("Jul "));
}

#[test]
fn trimming_twice_is_trimming_once() {
    for s in ["  a  ", "\u{3000}", "b\t", "", "x y"] {
        assert_eq!(trim(&trim(s)), trim(s));
    }
}

#[test]
fn lab_names_hold_no_commas_and_no_outer_space() {
    for name in parse_lab_names("  Java Lab ,\tC Lab , , Python\u{a0}Lab  ") {
        assert!(!name.contains(','));
        assert_eq!(name.trim(), name);
    }
}

#[test]
fn a_database_request_reaches_its_database() {
    for (line, file, table) in [
        ("GET /db/03-2024/s_1723563266738 HTTP/1.1", "03-2024.db", "s_1723563266738"),
        ("GET /db/03-2024 HTTP/1.1", "03-2024.db", ""),
    ] {
        let name = match route_request(line) {
            Route::File(name) => name,
            _ => panic!("a database request routes to a fixed path"),
        };
        match request_target(&name) {
            Target::Database { file: f, table: t } => {
                assert_eq!(f, file);
                assert_eq!(t, table);
            }
            _ => panic!("a database request targets a database"),
        }
    }
}

#[test]
fn the_banner_title_line_fills_the_frame() {
    let line = format!("||{}||", centre("Wellcome to Lab Logger", 36));
    assert_eq!(line.chars().count(), 40);
}

#[test]
fn session_tables_are_named_by_the_clock_in_milliseconds() {
    let before = std::time::SystemTime::now()
        .duration_since(std::time::UNIX_EPOCH)
        .unwrap()
        .as_millis() as i64;
    let r = start_session("C", "ECE", "1", "2");
    let millis: i64 = r.table_id["s_".len()..].parse().unwrap();
    assert!((millis - before).abs() < 10_000);
}
