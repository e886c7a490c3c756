use lab_logger::database::{
    continue_step, scan_step, start_session, ContinueStep, ScanStep,
};
use lab_logger::http::{
    reply_bytes, reply_for, resolve_route, route_request, Outcome, Reply, Route, Target,
};

fn text(r: Reply) -> (String, String) {
    match r {
        Reply::Text { status, body } => (status, body),
        Reply::Bytes { .. } => panic!("expected a text reply"),
    }
}

#[test]
fn routes_resolve_to_targets() {
    assert!(resolve_route(Route::Malformed, true).is_none());
    assert!(matches!(resolve_route(route_request("GET /x.css HTTP/1.1"), false), Some(Target::NotFound)));
    match resolve_route(route_request("GET /x.css HTTP/1.1"), true) {
        Some(Target::ReadFile(f)) => assert_eq!(f, "web/x.css"),
        _ => panic!("an existing web file is read"),
    }
    assert!(matches!(resolve_route(route_request("GET /list_db HTTP/1.1"), false), Some(Target::ListDb)));
    assert!(matches!(
        resolve_route(route_request("GET /db/03-2024 HTTP/1.1"), false),
        Some(Target::Database { .. })
    ));
}

#[test]
fn replies_for_each_outcome() {
    let file = Target::ReadFile("web/index.html".to_string());
    assert_eq!(text(reply_for(&file, Outcome::Text("<p>".into()))), ("HTTP/1.1 200 OK".into(), "<p>".into()));
    assert_eq!(
        text(reply_for(&file, Outcome::Failed)),
        ("HTTP/1.1 500 Internal Server Error".into(), "Internal Server Error".into())
    );
    match reply_for(&file, Outcome::Bytes(vec![0xff, 0])) {
        Reply::Bytes { status, bytes } => {
            assert_eq!(status, "HTTP/1.1 200 OK");
            assert_eq!(bytes, vec![0xff, 0]);
        }
        _ => panic!("binary files are sent as bytes"),
    }
    let db = Target::Database { file: "03-2024.db".into(), table: String::new() };
    assert_eq!(text(reply_for(&db, Outcome::Text("[]".into()))), ("HTTP/1.1 200 OK".into(), "[]".into()));
    assert_eq!(
        text(reply_for(&db, Outcome::Failed)),
        ("HTTP/1.1 404 NOT FOUND".into(), "haha not found".into())
    );
    assert_eq!(
        text(reply_for(&Target::ListDb, Outcome::Failed)),
        ("HTTP/1.1 404 NOT FOUND".into(), "haha not found".into())
    );
    assert_eq!(
        text(reply_for(&Target::NotFound, Outcome::Text("x".into()))),
        ("HTTP/1.1 404 NOT FOUND".into(), "haha not found".into())
    );
}

#[test]
fn reply_bytes_frame_the_body() {
    let r = Reply::Text { status: "HTTP/1.1 200 OK".into(), body: "é".into() };
    assert_eq!(reply_bytes(r), "HTTP/1.1 200 OK\r\nContent-Length: 2\r\n\r\né".as_bytes().to_vec());
    let r = Reply::Bytes { status: "HTTP/1.1 200 OK".into(), bytes: vec![1, 2, 3] };
    let mut expected = b"HTTP/1.1 200 OK\r\nContent-Length: 3\r\n\r\n".to_vec();
    expected.extend_from_slice(&[1, 2, 3]);
    assert_eq!(reply_bytes(r), expected);
}

#[test]
fn scan_and_continue_steps() {
    assert_eq!(scan_step(0), ScanStep::CheckExit);
    assert_eq!(scan_step(1), ScanStep::Entered);
    assert_eq!(continue_step(&vec![]), ContinueStep::NoRecentSessions);
    assert_eq!(continue_step(&vec!["s".to_string()]), ContinueStep::TakeRollNumbers);
}

#[test]
fn sessions_are_stamped_in_indian_standard_time() {
    let r = start_session("C", "ECE", "1", "2");
    let millis: i64 = r.table_id["s_".len()..].parse().unwrap();
    let stamp = chrono::NaiveDateTime::parse_from_str(&r.timestamp, "%Y-%m-%d %H:%M:%S").unwrap();
    assert_eq!(stamp.and_utc().timestamp(), millis.div_euclid(1000) + 19800);
    let expected = if stamp.format("%H").to_string() < "12".to_string() { "forenoon" } else { "afternoon" };
    assert_eq!(r.session, expected);
}
