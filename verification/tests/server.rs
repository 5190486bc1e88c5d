//! The request pipeline, driven through a constructed `Server` with its
//! access policy.
use vrs::configuration::Configuration;
use vrs::server::Server;
use vrs::state::AppState;
use vrs::status::ServerError;
use vrs::store::ContentStore;

fn create_test_server() -> Server {
    Server::new(Configuration::test_config()).expect("test server creation failed")
}

fn server_test_store() -> ContentStore {
    let mut store = ContentStore::new();
    store.add_file(
        "index.html".as_bytes().to_vec(),
        "<html><body>hello</body></html>".as_bytes().to_vec(),
    );
    store.add_file("400.html".as_bytes().to_vec(), "<html>bad request</html>".as_bytes().to_vec());
    store.add_file("404.html".as_bytes().to_vec(), "<html>not found</html>".as_bytes().to_vec());
    store.add_file(
        "405.html".as_bytes().to_vec(),
        "<html>method not allowed</html>".as_bytes().to_vec(),
    );
    store.add_file(
        "500.html".as_bytes().to_vec(),
        "<html>internal server error</html>".as_bytes().to_vec(),
    );
    store
}

/// Create a request buffer for testing the server's core.
/// info: the main part of the HTTP request (e.g. "GET / HTTP/1.1")
/// headers: the headers of the HTTP requests (e.g. "Origin:localhost")
fn server_test_buffer(info: &str, headers: Vec<&str>) -> Vec<u8> {
    let mut buf_utf8 = String::new();

    buf_utf8.push_str(info);
    buf_utf8.push('\n');

    for header in headers {
        buf_utf8.push_str(header);
        buf_utf8.push('\n');
    }

    buf_utf8.into_bytes()
}

fn server_response_code(body: &str) -> u16 {
    let first_line = body.lines().next().expect("response body is empty");
    let response_code = first_line
        .split(' ')
        .nth(1)
        .expect("response body's first line is too short");
    response_code.parse().expect("status code is not a number")
}

fn serve(server: &Server, input: &[u8]) -> String {
    let store = server_test_store();
    let mut state = AppState::default();
    let response = server.serve_request(input, &store, &mut state).expect("serving failed");
    String::from_utf8(response).expect("response is not UTF-8")
}

#[test]
fn server_get_index_is_ok() {
    let test_server = create_test_server();
    let req = serve(
        &test_server,
        &server_test_buffer("GET / HTTP/1.1", vec!["User-Agent:rust", "Origin:localhost"]),
    );
    assert_eq!(server_response_code(&req), 200);
}

#[test]
fn server_no_headers_is_bad_request() {
    let test_server = create_test_server();
    let req = serve(&test_server, &server_test_buffer("GET / HTTP/1.1", vec![]));
    assert_eq!(server_response_code(&req), 400);
}

#[test]
fn server_nonexistent_file_is_not_found() {
    let test_server = create_test_server();
    let req = serve(
        &test_server,
        &server_test_buffer("GET /notfound HTTP/1.1", vec!["User-Agent:rust", "Origin:localhost"]),
    );
    assert_eq!(server_response_code(&req), 404);
}

#[test]
fn server_path_traversal_is_bad_request() {
    let test_server = create_test_server();
    let req = serve(
        &test_server,
        &server_test_buffer(
            "GET /../../../etc/passwd HTTP/1.1",
            vec!["User-Agent:rust", "Origin:localhost"],
        ),
    );
    assert_eq!(server_response_code(&req), 400);
}

#[test]
fn server_forbidden_method_is_not_allowed() {
    let test_server = create_test_server();
    let req = serve(
        &test_server,
        &server_test_buffer("POST / HTTP/1.1", vec!["User-Agent:rust", "Origin:localhost"]),
    );
    assert_eq!(server_response_code(&req), 405);
}

#[test]
fn server_no_crash_on_empty_body() {
    let test_server = create_test_server();
    let res = serve(&test_server, &[]);
    assert_eq!(server_response_code(&res), 400);
}

#[test]
fn server_no_crash_on_bad_unicode() {
    let test_server = create_test_server();
    let res = serve(&test_server, &[0xc6]);
    assert_eq!(server_response_code(&res), 400);
}

#[test]
fn server_rejects_unknown_method_token() {
    let mut config = Configuration::test_config();
    config.allowed_methods = vec!["FETCH".as_bytes().to_vec()];
    assert!(Server::new(config).is_err());
}

#[test]
fn cors_new_rejects_unknown_method_token() {
    let r = vrs::cors::Cors::new(
        vec!["localhost".as_bytes().to_vec()],
        false,
        vec!["FETCH".as_bytes().to_vec()],
    );
    match r {
        Err(e) => assert_eq!(e, ServerError::CorsError),
        Ok(_) => panic!("an unknown method token was accepted"),
    }
}

#[test]
fn cors_method_and_origin_checks() {
    let cors = vrs::cors::Cors::new(
        vec!["localhost".as_bytes().to_vec()],
        false,
        vec!["GET".as_bytes().to_vec(), "HEAD".as_bytes().to_vec()],
    )
    .expect("policy creation failed");
    assert!(cors.method_is_allowed(&"GET / HTTP/1.1".as_bytes().to_vec()));
    assert!(cors.method_is_allowed(&"HEAD / HTTP/1.1".as_bytes().to_vec()));
    assert!(!cors.method_is_allowed(&"POST / HTTP/1.1".as_bytes().to_vec()));
    assert!(cors.origin_is_allowed(&"localhost".as_bytes().to_vec()));
    assert!(!cors.origin_is_allowed(&"elsewhere".as_bytes().to_vec()));
}

#[test]
fn cors_allow_all_origins_allows_any() {
    let cors = vrs::cors::Cors::new(Vec::new(), true, vec!["GET".as_bytes().to_vec()])
        .expect("policy creation failed");
    assert!(cors.origin_is_allowed(&"anywhere".as_bytes().to_vec()));
}

#[test]
fn server_head_requests_reach_their_path() {
    let mut config = Configuration::test_config();
    config.allowed_methods = vec!["GET".as_bytes().to_vec(), "HEAD".as_bytes().to_vec()];
    let server = Server::new(config).expect("server creation failed");
    let store = server_test_store();
    let mut state = AppState::default();
    let response = server
        .serve_request(
            &server_test_buffer("HEAD /missing.html HTTP/1.1", vec!["Origin:localhost"]),
            &store,
            &mut state,
        )
        .expect("serving failed");
    let text = String::from_utf8(response).unwrap();
    assert_eq!(server_response_code(&text), 404);
    let ok = server
        .serve_request(
            &server_test_buffer("HEAD /index.html HTTP/1.1", vec!["Origin:localhost"]),
            &store,
            &mut state,
        )
        .expect("serving failed");
    assert_eq!(server_response_code(&String::from_utf8(ok).unwrap()), 200);
}
