use lab_logger::http::{
    path_join, request_target, response_head, route_request, text_response, Route, Target,
    NOT_FOUND_BODY, NOT_FOUND_STATUS, OK_STATUS, SERVER_ERROR_BODY, SERVER_ERROR_STATUS,
};

fn file(r: Route) -> Option<String> {
    match r {
        Route::File(f) => Some(f),
        _ => None,
    }
}

fn checked(r: Route) -> Option<String> {
    match r {
        Route::FileIfPresent(f) => Some(f),
        _ => None,
    }
}

#[test]
fn fixed_routes() {
    assert_eq!(file(route_request("GET / HTTP/1.1")).as_deref(), Some("web/index.html"));
    assert_eq!(file(route_request("GET /?x=1 HTTP/1.1")).as_deref(), Some("web/index.html"));
    assert_eq!(file(route_request("GET /config HTTP/1.1")).as_deref(), Some("config.json"));
    assert_eq!(file(route_request("GET /list_db HTTP/1.1")).as_deref(), Some("list_db"));
}

#[test]
fn database_routes_keep_the_path() {
    assert_eq!(
        file(route_request("GET /db/03-2024/s_1723563266738?t=1 HTTP/1.1")).as_deref(),
        Some("db/03-2024/s_1723563266738?t=1")
    );
    assert_eq!(file(route_request("GET /db/03-2024 HTTP/1.1")).as_deref(), Some("db/03-2024"));
}

#[test]
fn other_paths_go_under_web() {
    assert_eq!(checked(route_request("GET /style.css HTTP/1.1")).as_deref(), Some("web/style.css"));
    assert_eq!(checked(route_request("GET /app.js?v=2 HTTP/1.1")).as_deref(), Some("web/app.js"));
    assert_eq!(checked(route_request("GET /config.json HTTP/1.1")).as_deref(), Some("web/config.json"));
    // an absolute path replaces the web root, as `Path::join` does
    assert_eq!(checked(route_request("GET //etc/hosts HTTP/1.1")).as_deref(), Some("/etc/hosts"));
    // the word after the fifth byte, whatever the method
    assert_eq!(checked(route_request("POST /form HTTP/1.1")).as_deref(), Some("/form"));
}

#[test]
fn malformed_lines() {
    assert!(matches!(route_request("GET"), Route::Malformed));
    assert!(matches!(route_request("GET /"), Route::Malformed));
    assert!(matches!(route_request("GET /     "), Route::Malformed));
    // byte 5 falls inside the two-byte 'é'
    assert!(matches!(route_request("GET é/x HTTP/1.1"), Route::Malformed));
    // byte 5 right after a two-byte character
    assert_eq!(checked(route_request("GEé /x HTTP/1.1")).as_deref(), Some("/x"));
}

#[test]
fn targets() {
    match request_target("db/03-2024/s_1?x=1") {
        Target::Database { file, table } => {
            assert_eq!(file, "03-2024.db");
            assert_eq!(table, "s_1");
        }
        _ => panic!("expected a database target"),
    }
    match request_target("db/03-2024") {
        Target::Database { file, table } => {
            assert_eq!(file, "03-2024.db");
            assert_eq!(table, "");
        }
        _ => panic!("expected a database target"),
    }
    assert!(matches!(request_target("db"), Target::NotFound));
    assert!(matches!(request_target("db?x/y"), Target::NotFound));
    assert!(matches!(request_target("list_db"), Target::ListDb));
    match request_target("web/index.html") {
        Target::ReadFile(f) => assert_eq!(f, "web/index.html"),
        _ => panic!("expected a file"),
    }
}

#[test]
fn replies() {
    assert_eq!(response_head(OK_STATUS, 5), "HTTP/1.1 200 OK\r\nContent-Length: 5\r\n\r\n");
    assert_eq!(
        text_response(NOT_FOUND_STATUS, NOT_FOUND_BODY),
        "HTTP/1.1 404 NOT FOUND\r\nContent-Length: 14\r\n\r\nhaha not found"
    );
    assert_eq!(
        text_response(SERVER_ERROR_STATUS, SERVER_ERROR_BODY),
        "HTTP/1.1 500 Internal Server Error\r\nContent-Length: 21\r\n\r\nInternal Server Error"
    );
    // the length counts UTF-8 bytes, not characters
    assert_eq!(text_response(OK_STATUS, "é✓"), "HTTP/1.1 200 OK\r\nContent-Length: 5\r\n\r\né✓");
}

#[test]
fn joins() {
    assert_eq!(path_join("web/", "a.html"), "web/a.html");
    assert_eq!(path_join("databases", "03-2024.db"), "databases/03-2024.db");
    assert_eq!(path_join("databases", "/abs"), "/abs");
    assert_eq!(path_join("", "x"), "x");
    for (a, b) in [("web/", "a"), ("databases", "03-2024.db"), ("web", "/x"), ("web", "")] {
        let expected = std::path::Path::new(a).join(b);
        assert_eq!(path_join(a, b), expected.to_str().unwrap());
    }
}
