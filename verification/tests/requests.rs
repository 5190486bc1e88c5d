//! The request pipeline, driven through the free `serve_request` function
//! with an in-memory content root.
use vrs::configuration::Configuration;
use vrs::server::serve_request;
use vrs::state::AppState;
use vrs::store::ContentStore;

/// A content root like the one the server is tested against: an index
/// page and the four status-code pages.
fn test_store() -> ContentStore {
    let mut store = ContentStore::new();
    store.add_file(
        "index.html".as_bytes().to_vec(),
        "<html><body>hello</body></html>".as_bytes().to_vec(),
    );
    store.add_file("400.html".as_bytes().to_vec(), "<html>bad request</html>".as_bytes().to_vec());
    store.add_file("404.html".as_bytes().to_vec(), "<html>not found</html>".as_bytes().to_vec());
    store.add_file(
        "405.html".as_bytes().to_vec(),
        "<html>method not allowed</html>".as_bytes().to_vec(),
    );
    store.add_file(
        "500.html".as_bytes().to_vec(),
        "<html>internal server error</html>".as_bytes().to_vec(),
    );
    store
}

fn test_serve_request(input: &[u8]) -> String {
    let config = Configuration::test_config();
    let store = test_store();
    let mut state = AppState::default();
    let response = serve_request(&config, input, &store, &mut state).expect("serving failed");
    String::from_utf8(response).expect("response is not UTF-8")
}

/// Create a request buffer for testing the server's core.
/// info: the main part of the HTTP request (e.g. "GET / HTTP/1.1")
/// headers: the headers of the HTTP request (e.g. "Origin:localhost")
fn create_test_buffer(info: &str, headers: Vec<&str>) -> Vec<u8> {
    let mut buf_utf8 = String::new();

    buf_utf8.push_str(info);
    buf_utf8.push('\n');

    for header in headers {
        buf_utf8.push_str(header);
        buf_utf8.push('\n');
    }

    buf_utf8.into_bytes()
}

/// Given an HTTP response, returns the status code.
fn get_response_code(body: &str) -> u16 {
    let first_line = body.lines().next().expect("response body is empty");
    let response_code = first_line
        .split(' ')
        .nth(1)
        .expect("response body's first line is too short");
    response_code.parse().expect("status code is not a number")
}

#[test]
fn requests_get_index_is_ok() {
    let res = test_serve_request(&create_test_buffer(
        "GET / HTTP/1.1",
        vec!["User-Agent:rust", "Origin:localhost"],
    ));
    assert_eq!(get_response_code(&res), 200);
}

#[test]
fn requests_no_headers_is_bad_request() {
    let res = test_serve_request(&create_test_buffer("GET / HTTP/1.1", vec![]));
    assert_eq!(get_response_code(&res), 400);
}

#[test]
fn requests_nonexistent_file_is_not_found() {
    let res = test_serve_request(&create_test_buffer(
        "GET /notfound HTTP/1.1",
        vec!["User-Agent:rust", "Origin:localhost"],
    ));
    assert_eq!(get_response_code(&res), 404);
}

#[test]
fn requests_path_traversal_is_bad_request() {
    let res = test_serve_request(&create_test_buffer(
        "GET /../../../etc/passwd HTTP/1.1",
        vec!["User-Agent:rust", "Origin:localhost"],
    ));
    assert_eq!(get_response_code(&res), 400);
}

#[test]
fn requests_forbidden_method_is_not_allowed() {
    let res = test_serve_request(&create_test_buffer(
        "POST / HTTP/1.1",
        vec!["User-Agent:rust", "Origin:localhost"],
    ));
    assert_eq!(get_response_code(&res), 405);
}

#[test]
fn requests_no_crash_on_empty_body() {
    let res = test_serve_request(&[]);
    assert_eq!(get_response_code(&res), 400);
}

#[test]
fn requests_no_crash_on_bad_unicode() {
    let res = test_serve_request(&[0xc6]);
    assert_eq!(get_response_code(&res), 400);
}

#[test]
fn requests_ok_response_has_exact_content_length() {
    let res = test_serve_request(&create_test_buffer(
        "GET / HTTP/1.1",
        vec!["User-Agent:rust", "Origin:localhost"],
    ));
    assert_eq!(get_response_code(&res), 200);
    let body = res.split("\r\n\r\n").nth(1).expect("response has no body");
    assert_eq!(body, "<html><body>hello</body></html>");
    let expected = format!("\r\nContent-Length:{}", body.len());
    assert!(res.contains(&expected));
}

#[test]
fn requests_cors_header_echoes_allowed_origin() {
    let res = test_serve_request(&create_test_buffer(
        "GET / HTTP/1.1",
        vec!["User-Agent:rust", "Origin:localhost"],
    ));
    assert!(res.contains("\r\nAccess-Control-Allow-Origin:localhost"));
}

#[test]
fn requests_cors_header_is_null_for_unknown_origin() {
    let res = test_serve_request(&create_test_buffer(
        "GET / HTTP/1.1",
        vec!["User-Agent:rust", "Origin:evil.example"],
    ));
    assert!(res.contains("\r\nAccess-Control-Allow-Origin:null"));
}

#[test]
fn requests_missing_fallback_page_still_answers() {
    let config = Configuration::test_config();
    let store = ContentStore::new();
    let mut state = AppState::default();
    let response =
        serve_request(&config, &create_test_buffer("GET / HTTP/1.1", vec![]), &store, &mut state)
            .expect("serving failed");
    let text = String::from_utf8(response).expect("response is not UTF-8");
    assert_eq!(get_response_code(&text), 400);
    assert!(text.contains("<p>400 Bad Request</p>"));
}

#[test]
fn requests_caching_is_idempotent() {
    let mut config = Configuration::test_config();
    config.cache_files = true;
    let store = test_store();
    let mut state = AppState::with_cache();
    let buf = create_test_buffer("GET / HTTP/1.1", vec!["Origin:localhost"]);
    let first = serve_request(&config, &buf, &store, &mut state).expect("serving failed");
    let second = serve_request(&config, &buf, &store, &mut state).expect("serving failed");
    assert_eq!(first, second);
    assert_eq!(get_response_code(&String::from_utf8(first).unwrap()), 200);
}

#[test]
fn requests_cached_entry_survives_store_change() {
    let mut config = Configuration::test_config();
    config.cache_files = true;
    let mut store = test_store();
    let mut state = AppState::with_cache();
    let buf = create_test_buffer("GET / HTTP/1.1", vec!["Origin:localhost"]);
    let first = serve_request(&config, &buf, &store, &mut state).expect("serving failed");
    store.add_file("index.html".as_bytes().to_vec(), "<html>changed</html>".as_bytes().to_vec());
    let second = serve_request(&config, &buf, &store, &mut state).expect("serving failed");
    assert_eq!(first, second);
}

#[test]
fn requests_directory_listing_lists_entries() {
    let config = Configuration::test_config();
    let mut store = test_store();
    store.add_dir(
        "docs".as_bytes().to_vec(),
        vec!["a.html".as_bytes().to_vec(), "b.css".as_bytes().to_vec()],
    );
    let mut state = AppState::default();
    let buf = create_test_buffer("GET /docs HTTP/1.1", vec!["Origin:localhost"]);
    let response = serve_request(&config, &buf, &store, &mut state).expect("serving failed");
    let text = String::from_utf8(response).unwrap();
    assert_eq!(get_response_code(&text), 200);
    assert!(text.contains("<li>a.html</li>"));
    assert!(text.contains("<li>b.css</li>"));
}

#[test]
fn requests_empty_directory_is_not_found() {
    let config = Configuration::test_config();
    let mut store = test_store();
    store.add_dir("empty".as_bytes().to_vec(), vec![]);
    let mut state = AppState::default();
    let buf = create_test_buffer("GET /empty HTTP/1.1", vec!["Origin:localhost"]);
    let response = serve_request(&config, &buf, &store, &mut state).expect("serving failed");
    let text = String::from_utf8(response).unwrap();
    assert_eq!(get_response_code(&text), 404);
    assert!(text.contains("The requested directory is empty."));
}

#[test]
fn requests_json_directory_listing() {
    let mut config = Configuration::test_config();
    config.format_directory_listing_as_json = true;
    let mut store = test_store();
    store.add_dir(
        "docs".as_bytes().to_vec(),
        vec!["a.html".as_bytes().to_vec(), "b.css".as_bytes().to_vec()],
    );
    let mut state = AppState::default();
    let buf = create_test_buffer("GET /docs HTTP/1.1", vec!["Origin:localhost"]);
    let response = serve_request(&config, &buf, &store, &mut state).expect("serving failed");
    let text = String::from_utf8(response).unwrap();
    assert_eq!(get_response_code(&text), 200);
    assert!(text.ends_with("[\"a.html\",\"b.css\"]"));
    assert!(text.contains("\r\nContent-Type:application/json"));
}

#[test]
fn requests_non_utf8_file_is_server_error() {
    let config = Configuration::test_config();
    let mut store = test_store();
    store.add_file("raw.bin".as_bytes().to_vec(), vec![0xc6]);
    let mut state = AppState::default();
    let buf = create_test_buffer("GET /raw.bin HTTP/1.1", vec!["Origin:localhost"]);
    let response = serve_request(&config, &buf, &store, &mut state).expect("serving failed");
    let text = String::from_utf8(response).unwrap();
    assert_eq!(get_response_code(&text), 500);
}

#[test]
fn requests_security_headers_are_applied() {
    let mut config = Configuration::test_config();
    config.use_security_headers = true;
    let store = test_store();
    let mut state = AppState::default();
    let buf = create_test_buffer("GET / HTTP/1.1", vec!["Origin:localhost"]);
    let response = serve_request(&config, &buf, &store, &mut state).expect("serving failed");
    let text = String::from_utf8(response).unwrap();
    assert!(text.contains("\r\nX-Content-Type-Options:nosniff"));
    assert!(text.contains("\r\nX-Frame-Options:DENY"));
    assert!(text.contains("\r\nCross-Origin-Resource-Policy:same-origin"));
}

#[test]
fn requests_extra_headers_are_applied() {
    let mut config = Configuration::test_config();
    config.append_extra_headers = true;
    config.extra_headers =
        vec![("ServerHost".as_bytes().to_vec(), "VanillaRustlangServer".as_bytes().to_vec())];
    let store = test_store();
    let mut state = AppState::default();
    let buf = create_test_buffer("GET / HTTP/1.1", vec!["Origin:localhost"]);
    let response = serve_request(&config, &buf, &store, &mut state).expect("serving failed");
    let text = String::from_utf8(response).unwrap();
    assert!(text.contains("\r\nServerHost:VanillaRustlangServer"));
}

#[test]
fn requests_time_header_is_present_when_enabled() {
    let mut config = Configuration::test_config();
    config.use_time_header = true;
    let store = test_store();
    let mut state = AppState::default();
    let buf = create_test_buffer("GET / HTTP/1.1", vec!["Origin:localhost"]);
    let response = serve_request(&config, &buf, &store, &mut state).expect("serving failed");
    let text = String::from_utf8(response).unwrap();
    assert!(text.contains("\r\nTime:"));
}

#[test]
fn requests_allow_all_origins_sends_star() {
    let mut config = Configuration::test_config();
    config.allow_all_origins = true;
    let store = test_store();
    let mut state = AppState::default();
    let buf = create_test_buffer("GET / HTTP/1.1", vec!["Origin:anywhere"]);
    let response = serve_request(&config, &buf, &store, &mut state).expect("serving failed");
    let text = String::from_utf8(response).unwrap();
    assert!(text.contains("\r\nAccess-Control-Allow-Origin:*"));
}

#[test]
fn requests_whole_response_bytes_for_index() {
    let res = test_serve_request(&create_test_buffer("GET / HTTP/1.1", vec!["Origin:localhost"]));
    assert_eq!(
        res,
        "HTTP/1.1 200 OK\r\nAccess-Control-Allow-Origin:localhost\r\nContent-Type:text/html\r\nContent-Length:31\r\n\r\n<html><body>hello</body></html>"
    );
}

#[test]
fn requests_whole_response_bytes_for_missing_file() {
    let res = test_serve_request(&create_test_buffer(
        "GET /missing.html HTTP/1.1",
        vec!["Origin:localhost"],
    ));
    assert_eq!(
        res,
        "HTTP/1.1 404 Not Found\r\nAccess-Control-Allow-Origin:localhost\r\nContent-Type:text/html\r\nContent-Length:22\r\n\r\n<html>not found</html>"
    );
}

#[test]
fn requests_status_line_parses_back_for_each_code() {
    let mut checks: Vec<(&str, Vec<&str>, u16)> = Vec::new();
    checks.push(("GET / HTTP/1.1", vec!["Origin:localhost"], 200));
    checks.push(("GET /missing HTTP/1.1", vec!["Origin:localhost"], 404));
    checks.push(("PUT / HTTP/1.1", vec!["Origin:localhost"], 405));
    checks.push(("GET /.. HTTP/1.1", vec!["Origin:localhost"], 400));
    for (info, headers, expected) in checks {
        let res = test_serve_request(&create_test_buffer(info, headers));
        assert_eq!(get_response_code(&res), expected);
    }
}
