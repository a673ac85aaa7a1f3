use simple_http::config::ServerConfig;
use simple_http::connection::{error_response, file_response, Action, Connection, Event, TargetKind};
use simple_http::listing::{render_directory, DirEntry};
use simple_http::path::{is_within_root, resolve, Canonical};
use simple_http::request::HttpRequest;
use simple_http::response::{parse_status_line, HttpResponse};
use simple_http::status::{HttpStatus, ServerError};

fn lines(ls: &[&str]) -> Vec<Option<String>> {
    ls.iter().map(|l| Some(l.to_string())).collect()
}

fn config(root: &str) -> ServerConfig {
    ServerConfig {
        host: "127.0.0.1".to_string(),
        port: "8080".to_string(),
        root: root.to_string(),
        username: None,
        password: None,
    }
}

fn text_of(bytes: &[u8]) -> String {
    String::from_utf8(bytes.to_vec()).unwrap()
}

fn run_to_path(conn: &mut Connection, request_line: &str) -> Action {
    let req = HttpRequest::parse(&lines(&[request_line, ""]));
    conn.step(Event::Parsed(req))
}

#[test]
fn reason_phrases() {
    assert_eq!(HttpStatus::OK.reason(), "OK");
    assert_eq!(HttpStatus::Forbidden.reason(), "Forbidden");
    assert_eq!(HttpStatus::NotFound.reason(), "Not Found");
    assert_eq!(HttpStatus::InternalServerError.reason(), "Internal Server Error");
}

#[test]
fn status_codes_both_ways() {
    assert_eq!(u16::from(HttpStatus::OK), 200);
    assert_eq!(HttpStatus::Forbidden.code(), 403);
    assert_eq!(u16::from(HttpStatus::NotFound), 404);
    assert_eq!(HttpStatus::InternalServerError.code(), 500);
    assert_eq!(HttpStatus::try_from(404), Ok(HttpStatus::NotFound));
    assert_eq!(HttpStatus::try_from(200), Ok(HttpStatus::OK));
    assert_eq!(HttpStatus::try_from(201), Err(ServerError::HttpStatusError));
    assert_eq!(HttpStatus::try_from(0), Err(ServerError::HttpStatusError));
}

#[test]
fn parse_root_request() {
    let req = HttpRequest::parse(&lines(&["GET / HTTP/1.1", "Host: x", ""])).unwrap();
    assert_eq!(req.method, "GET");
    assert_eq!(req.version, "HTTP/1.1");
    assert_eq!(req.path, "");
    assert_eq!(req.query, "");
    assert_eq!(req.header("Host"), Some(" x".to_string()));
    assert!(req.body.is_none());
}

#[test]
fn parse_splits_query_on_first_question_mark() {
    let req = HttpRequest::parse(&lines(&["GET /dir/a.txt?x=1?y=2 HTTP/1.1"])).unwrap();
    assert_eq!(req.path, "dir/a.txt");
    assert_eq!(req.query, "x=1?y=2");
    let req = HttpRequest::parse(&lines(&["GET  \t /b?   HTTP/1.0  "])).unwrap();
    assert_eq!(req.path, "b");
    assert_eq!(req.query, "");
    assert_eq!(req.version, "HTTP/1.0");
}

#[test]
fn parse_rejects_bad_request_lines() {
    assert_eq!(HttpRequest::parse(&Vec::new()).err(), Some(ServerError::RequestParseError));
    assert_eq!(HttpRequest::parse(&vec![None]).err(), Some(ServerError::RequestParseError));
    assert_eq!(HttpRequest::parse(&lines(&[""])).err(), Some(ServerError::RequestParseError));
    assert_eq!(HttpRequest::parse(&lines(&["GET /"])).err(), Some(ServerError::RequestParseError));
    assert_eq!(
        HttpRequest::parse(&lines(&["GET / HTTP/1.1 extra"])).err(),
        Some(ServerError::RequestParseError)
    );
}

#[test]
fn header_lines_without_one_colon_are_dropped() {
    let req = HttpRequest::parse(&lines(&[
        "GET / HTTP/1.1",
        "NoColon",
        "Host: localhost:8080",
        "Accept: */*",
        "X:1",
    ]))
    .unwrap();
    assert_eq!(req.header("NoColon"), None);
    assert_eq!(req.header("Host"), None);
    assert_eq!(req.header("Accept"), Some(" */*".to_string()));
    assert_eq!(req.header("X"), Some("1".to_string()));
    assert_eq!(req.headers.len(), 2);
}

#[test]
fn headers_stop_at_blank_line_and_last_write_wins() {
    let mut ls = lines(&["GET / HTTP/1.1", "A: 1", "a: 2", "A: 3"]);
    ls.push(None);
    ls.push(Some("B: 4".to_string()));
    ls.push(Some(String::new()));
    ls.push(Some("C: 5".to_string()));
    let req = HttpRequest::parse(&ls).unwrap();
    assert_eq!(req.header("A"), Some(" 3".to_string()));
    assert_eq!(req.header("a"), Some(" 2".to_string()));
    assert_eq!(req.header("B"), Some(" 4".to_string()));
    assert_eq!(req.header("C"), None);
}

#[test]
fn containment_is_segment_aware() {
    assert!(is_within_root("/srv/pub", "/srv/pub"));
    assert!(is_within_root("/srv/pub", "/srv/pub/a.txt"));
    assert!(!is_within_root("/srv/pub", "/srv/public"));
    assert!(!is_within_root("/srv/pub", "/etc/passwd"));
    assert!(!is_within_root("/srv/pub", "/srv"));
    assert!(is_within_root("/", "/etc"));
}

#[test]
fn resolve_outcomes() {
    assert_eq!(resolve("/srv", Canonical::Resolved("/srv/a".to_string())), Ok("/srv/a".to_string()));
    assert_eq!(resolve("/srv", Canonical::Resolved("/etc/passwd".to_string())), Err(HttpStatus::Forbidden));
    assert_eq!(resolve("/srv", Canonical::NotFound), Err(HttpStatus::NotFound));
    assert_eq!(resolve("/srv", Canonical::Failed), Err(HttpStatus::InternalServerError));
}

#[test]
fn serialize_text_response() {
    let r = HttpResponse::text(HttpStatus::OK, "héllo".to_string());
    assert_eq!(text_of(&r.head_bytes()), "HTTP/1.1 200 OK\r\nContent-Length: 6\r\n\r\nhéllo");
    assert_eq!(r.to_bytes(), r.head_bytes());
}

#[test]
fn serialize_headers_and_binary() {
    let mut r = HttpResponse::binary(HttpStatus::OK, vec![0xFF, 0x00, 0x41]);
    r.headers.push(("Server".to_string(), "x".to_string()));
    let head = r.head_bytes();
    assert_eq!(text_of(&head), "HTTP/1.1 200 OK\r\nServer: x\r\nContent-Length: 3\r\n\r\n");
    let mut wire = head.clone();
    wire.extend_from_slice(&[0xFF, 0x00, 0x41]);
    assert_eq!(r.to_bytes(), wire);
}

#[test]
fn error_pages() {
    let r = error_response(HttpStatus::NotFound);
    assert_eq!(r.status, HttpStatus::NotFound);
    assert_eq!(r.body, "<h1>404: Not Found</h1>");
    assert_eq!(
        text_of(&r.to_bytes()),
        "HTTP/1.1 404 Not Found\r\nContent-Length: 23\r\n\r\n<h1>404: Not Found</h1>"
    );
    assert_eq!(error_response(HttpStatus::Forbidden).body, "<h1>403: Forbidden</h1>");
    assert_eq!(
        error_response(HttpStatus::InternalServerError).body,
        "<h1>500: Internal Server Error</h1>"
    );
}

#[test]
fn status_line_round_trip() {
    for s in [HttpStatus::OK, HttpStatus::Forbidden, HttpStatus::NotFound, HttpStatus::InternalServerError] {
        let r = HttpResponse::text(s, "body".to_string());
        let (code, reason) = parse_status_line(&r.to_bytes()).unwrap();
        assert_eq!(code, s.code());
        assert_eq!(reason, s.reason().as_bytes().to_vec());
        assert_eq!(HttpStatus::try_from(code as u32), Ok(s));
    }
    assert_eq!(parse_status_line(b"HTTP/1.0 200 OK\r\n"), None);
    assert_eq!(parse_status_line(b"HTTP/1.1 2x0 OK\r\n"), None);
    assert_eq!(parse_status_line(b"HTTP/1.1 200 OK"), None);
}

#[test]
fn content_length_counts_bytes() {
    let r = file_response("ab€".as_bytes().to_vec());
    assert_eq!(r.body, "ab€");
    assert!(r.contents.is_none());
    assert!(text_of(&r.to_bytes()).contains("Content-Length: 5\r\n\r\nab€"));
}

#[test]
fn directory_listing_markup() {
    let entries = vec![
        DirEntry { path: "/srv/www/a.txt".to_string(), size: 5, is_dir: false },
        DirEntry { path: "/srv/www/sub".to_string(), size: 4096, is_dir: true },
    ];
    let page = render_directory("/srv/www", "/srv/www", &entries);
    assert_eq!(
        page,
        "<h1>root</h1><br><br><table styling='width:50%'><tr><th>Size</th><th>Name</th></tr>\
<tr><td>5</td><td><a href='/a.txt'>/a.txt</a></td></tr>\
<tr><td>4096</td><td><a href='/sub'>/sub/</a></td></tr></table>"
    );
    assert_eq!(
        render_directory("/srv/www", "/srv/www/sub", &Vec::new()),
        "<h1>root/sub</h1><br><br><table styling='width:50%'><tr><th>Size</th><th>Name</th></tr></table>"
    );
}

#[test]
fn config_root_must_be_absolute() {
    assert!(config("/srv").has_valid_root());
    assert!(!config("srv").has_valid_root());
    assert!(!config("").has_valid_root());
}

#[test]
fn scenario_directory_listing() {
    let mut conn = Connection::new(&config("/srv/www"));
    match run_to_path(&mut conn, "GET / HTTP/1.1") {
        Action::Canonicalize(p) => assert_eq!(p, ""),
        other => panic!("unexpected {:?}", other),
    }
    match conn.step(Event::Canonicalized(Canonical::Resolved("/srv/www".to_string()))) {
        Action::Inspect(p) => assert_eq!(p, "/srv/www"),
        other => panic!("unexpected {:?}", other),
    }
    match conn.step(Event::Inspected(TargetKind::Directory)) {
        Action::ListDirectory(p) => assert_eq!(p, "/srv/www"),
        other => panic!("unexpected {:?}", other),
    }
    let entries = vec![
        DirEntry { path: "/srv/www/a.txt".to_string(), size: 5, is_dir: false },
        DirEntry { path: "/srv/www/sub".to_string(), size: 4096, is_dir: true },
    ];
    match conn.step(Event::Listed(entries)) {
        Action::Respond(r) => {
            assert_eq!(r.status, HttpStatus::OK);
            assert!(r.body.contains("<tr><td>5</td><td><a href='/a.txt'>/a.txt</a></td></tr>"));
            let wire = text_of(&r.to_bytes());
            assert!(wire.starts_with("HTTP/1.1 200 OK\r\n"));
            assert!(wire.contains(&format!("Content-Length: {}\r\n\r\n", r.body.len())));
        }
        other => panic!("unexpected {:?}", other),
    }
    assert!(conn.is_done());
}

#[test]
fn scenario_text_file() {
    let mut conn = Connection::new(&config("/srv/www"));
    match run_to_path(&mut conn, "GET /a.txt HTTP/1.1") {
        Action::Canonicalize(p) => assert_eq!(p, "a.txt"),
        other => panic!("unexpected {:?}", other),
    }
    conn.step(Event::Canonicalized(Canonical::Resolved("/srv/www/a.txt".to_string())));
    match conn.step(Event::Inspected(TargetKind::File)) {
        Action::ReadFile(p) => assert_eq!(p, "/srv/www/a.txt"),
        other => panic!("unexpected {:?}", other),
    }
    match conn.step(Event::Read(b"hello".to_vec())) {
        Action::Respond(r) => {
            assert_eq!(r.status, HttpStatus::OK);
            assert_eq!(r.body, "hello");
            assert_eq!(text_of(&r.to_bytes()), "HTTP/1.1 200 OK\r\nContent-Length: 5\r\n\r\nhello");
        }
        other => panic!("unexpected {:?}", other),
    }
}

#[test]
fn scenario_traversal_forbidden() {
    let mut conn = Connection::new(&config("/srv/www"));
    match run_to_path(&mut conn, "GET /../../etc/passwd HTTP/1.1") {
        Action::Canonicalize(p) => assert_eq!(p, "../../etc/passwd"),
        other => panic!("unexpected {:?}", other),
    }
    match conn.step(Event::Canonicalized(Canonical::Resolved("/etc/passwd".to_string()))) {
        Action::Respond(r) => {
            assert_eq!(r.status, HttpStatus::Forbidden);
            assert!(text_of(&r.to_bytes()).starts_with("HTTP/1.1 403 Forbidden\r\n"));
        }
        other => panic!("unexpected {:?}", other),
    }
    assert!(conn.is_done());
}

#[test]
fn scenario_missing_file() {
    let mut conn = Connection::new(&config("/srv/www"));
    run_to_path(&mut conn, "GET /missing.txt HTTP/1.1");
    match conn.step(Event::Canonicalized(Canonical::NotFound)) {
        Action::Respond(r) => {
            assert_eq!(r.status, HttpStatus::NotFound);
            assert!(text_of(&r.to_bytes()).starts_with("HTTP/1.1 404 Not Found\r\n"));
        }
        other => panic!("unexpected {:?}", other),
    }
}

#[test]
fn scenario_empty_connection() {
    let mut conn = Connection::new(&config("/srv/www"));
    let parsed = HttpRequest::parse(&Vec::new());
    match conn.step(Event::Parsed(parsed)) {
        Action::Respond(r) => {
            assert_eq!(r.status, HttpStatus::InternalServerError);
            assert_eq!(r.body, "<h1>500: Internal Server Error</h1>");
        }
        other => panic!("unexpected {:?}", other),
    }
}

#[test]
fn scenario_binary_file() {
    let mut conn = Connection::new(&config("/srv/www"));
    run_to_path(&mut conn, "GET /img.bin HTTP/1.1");
    conn.step(Event::Canonicalized(Canonical::Resolved("/srv/www/img.bin".to_string())));
    conn.step(Event::Inspected(TargetKind::File));
    match conn.step(Event::Read(vec![0x89, 0xFF, 0x00])) {
        Action::Respond(r) => {
            assert_eq!(r.status, HttpStatus::OK);
            assert_eq!(r.body, "");
            assert_eq!(r.contents, Some(vec![0x89, 0xFF, 0x00]));
            let mut expected = b"HTTP/1.1 200 OK\r\nContent-Length: 3\r\n\r\n".to_vec();
            expected.extend_from_slice(&[0x89, 0xFF, 0x00]);
            assert_eq!(r.to_bytes(), expected);
        }
        other => panic!("unexpected {:?}", other),
    }
}

#[test]
fn special_file_closes_without_response() {
    let mut conn = Connection::new(&config("/srv/www"));
    run_to_path(&mut conn, "GET /fifo HTTP/1.1");
    conn.step(Event::Canonicalized(Canonical::Resolved("/srv/www/fifo".to_string())));
    assert!(matches!(conn.step(Event::Inspected(TargetKind::Other)), Action::Close));
    assert!(conn.is_done());
}

#[test]
fn io_failure_answers_internal_error() {
    let mut conn = Connection::new(&config("/srv/www"));
    run_to_path(&mut conn, "GET /x HTTP/1.1");
    match conn.step(Event::Canonicalized(Canonical::Failed)) {
        Action::Respond(r) => assert_eq!(r.status, HttpStatus::InternalServerError),
        other => panic!("unexpected {:?}", other),
    }
    let mut conn = Connection::new(&config("/srv/www"));
    run_to_path(&mut conn, "GET /x HTTP/1.1");
    conn.step(Event::Canonicalized(Canonical::Resolved("/srv/www/x".to_string())));
    conn.step(Event::Inspected(TargetKind::Directory));
    match conn.step(Event::Failed) {
        Action::Respond(r) => assert_eq!(r.status, HttpStatus::InternalServerError),
        other => panic!("unexpected {:?}", other),
    }
}

#[test]
fn out_of_order_event_closes() {
    let mut conn = Connection::new(&config("/srv/www"));
    assert!(matches!(conn.step(Event::Read(vec![1])), Action::Close));
    assert!(conn.is_done());
}
