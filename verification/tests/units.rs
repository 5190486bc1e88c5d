//! The smaller pieces: path resolution, file naming, the document
//! writers, and the configuration surface.
use vrs::configuration::Config;
use vrs::configuration::Configuration;
use vrs::file::find_mime_type;
use vrs::file::get_file_extension;
use vrs::htmlbuilder::HTMLBuilder;
use vrs::http::HttpProtocolVersion;
use vrs::http::Method;
use vrs::response::json_builder::JSONBuilder;
use vrs::response::utils::build_html;
use vrs::response::utils::map_as_json_str;
use vrs::response::utils::vec_as_json_str;
use vrs::socket::headers_complete;
use vrs::socket::parse_utf8;
use vrs::socket::read_stream;
use vrs::socket::utf8_ok;
use vrs::socket::ReadStreamError;
use vrs::status::StatusCode;
use vrs::status::TestStatusCode;
use vrs::uri::find_urn;
use vrs::uri::path_is_valid;
use vrs::uri::URI;

fn b(s: &str) -> Vec<u8> {
    s.as_bytes().to_vec()
}

#[test]
fn uri_find_urn_extracts_target() {
    assert_eq!(find_urn(&b("GET /styles.css HTTP/1.1")), Some(b("styles.css")));
}

#[test]
fn uri_find_urn_empty_target_is_index() {
    assert_eq!(find_urn(&b("GET / HTTP/1.1")), Some(b("index.html")));
}

#[test]
fn uri_find_urn_rejects_traversal() {
    assert_eq!(find_urn(&b("GET /../../etc/passwd HTTP/1.1")), None);
    assert_eq!(find_urn(&b("GET /.. HTTP/1.1")), None);
}

#[test]
fn uri_find_urn_handles_any_method_token() {
    assert_eq!(find_urn(&b("HEAD /x HTTP/1.1")), Some(b("x")));
    assert_eq!(find_urn(&b("OPTIONS /a/b.css HTTP/1.1")), Some(b("a/b.css")));
    assert_eq!(find_urn(&b("HEAD / HTTP/1.1")), Some(b("index.html")));
}

#[test]
fn uri_find_urn_allows_inner_parent_steps() {
    assert_eq!(find_urn(&b("GET /a/../b.html HTTP/1.1")), Some(b("a/../b.html")));
}

#[test]
fn uri_path_is_valid_cases() {
    assert!(path_is_valid(&b("index.html")));
    assert!(path_is_valid(&b("a/b/c")));
    assert!(path_is_valid(&b("a/../b")));
    assert!(path_is_valid(&b("./a")));
    assert!(path_is_valid(&b("")));
    assert!(!path_is_valid(&b("..")));
    assert!(!path_is_valid(&b("a/../../b")));
    assert!(!path_is_valid(&b("/etc/passwd")));
}

#[test]
fn uri_struct_tracks_resolution() {
    let mut uri = URI::new();
    uri.find(&b("GET /page.html HTTP/1.1"));
    assert_eq!(uri.get(), &Some(b("page.html")));
    let mut bad = URI::default();
    bad.find(&b("GET /.. HTTP/1.1"));
    assert_eq!(bad.get(), &None);
    assert!(URI::path_is_valid(&b("ok/path")));
}

#[test]
fn file_extension_is_after_last_dot() {
    assert_eq!(get_file_extension(&b("index.html")), b("html"));
    assert_eq!(get_file_extension(&b("archive.tar.gz")), b("gz"));
    assert_eq!(get_file_extension(&b("notfound")), b("otfound"));
}

#[test]
fn file_mime_types() {
    assert_eq!(find_mime_type(&b("html")), b("text/html"));
    assert_eq!(find_mime_type(&b("css")), b("text/css"));
    assert_eq!(find_mime_type(&b("js")), b("application/javascript"));
    assert_eq!(find_mime_type(&b("gif")), b("text/plain"));
}

#[test]
fn status_code_mappings() {
    assert_eq!(StatusCode::OK.as_u16(), 200);
    assert_eq!(StatusCode::BadRequest.as_u16(), 400);
    assert_eq!(StatusCode::NotFound.as_u16(), 404);
    assert_eq!(StatusCode::MethodNotAllowed.as_u16(), 405);
    assert_eq!(StatusCode::InternalServerError.as_u16(), 500);
    assert_eq!(StatusCode::OK.as_str(), "OK");
    assert_eq!(StatusCode::BadRequest.as_str(), "Bad Request");
    assert_eq!(StatusCode::NotFound.as_str(), "Not Found");
    assert_eq!(StatusCode::MethodNotAllowed.as_str(), "Method Not Allowed");
    assert_eq!(StatusCode::InternalServerError.as_str(), "Internal Server Error");
}

#[test]
fn enum_tokens() {
    assert_eq!(HttpProtocolVersion::OneDotOne.as_str(), "HTTP/1.1");
    assert_eq!(HttpProtocolVersion::Two.as_str(), "HTTP/2");
    assert_eq!(Method::GET.as_str(), "GET");
    assert_eq!(Method::HEAD.as_str(), "HEAD");
    assert_eq!(Method::OPTIONS.as_str(), "OPTIONS");
    assert_eq!(TestStatusCode::OK, TestStatusCode::OK);
    assert_ne!(TestStatusCode::OK, TestStatusCode::NotFound);
}

#[test]
fn json_builder_builds_objects() {
    let mut jb = JSONBuilder::new();
    jb.add_pair(b("a"), b("1"));
    jb.add_pair(b("b"), b("2"));
    let out = jb.build();
    assert_eq!(out, b("{\"a\": \"1\",\"b\": \"2\"}"));
}

#[test]
fn json_renderings() {
    assert_eq!(map_as_json_str(&vec![]), b("{}"));
    assert_eq!(
        map_as_json_str(&vec![(b("response"), b("done"))]),
        b("{\"response\": \"done\"}")
    );
    assert_eq!(vec_as_json_str(&vec![]), b("[]"));
    assert_eq!(vec_as_json_str(&vec![b("a"), b("c")]), b("[\"a\",\"c\"]"));
}

#[test]
fn html_shell_wraps_parts() {
    let doc = build_html(&vec![b("<title>t</title>")], &vec![b("<p>x</p>")]);
    assert_eq!(
        doc,
        b("<!DOCTYPE html><html><head><title>t</title></head><body><p>x</p></body></html>")
    );
}

#[test]
fn html_builder_has_standard_head() {
    let mut html = HTMLBuilder::new();
    assert_eq!(html.get_len(), 3);
    html.add_to_head(b("<title>t</title>"));
    html.add_to_body(b("<p>x</p>"));
    assert_eq!(html.get_len(), 5);
    let doc = String::from_utf8(html.construct()).unwrap();
    assert!(doc.starts_with("<!DOCTYPE html><html><head><meta charset=\"UTF-8\" />"));
    assert!(doc.ends_with("<body><p>x</p></body></html>"));
}

#[test]
fn socket_utf8_gate() {
    assert!(utf8_ok("plain text".as_bytes()));
    assert!(!utf8_ok(&[0xc6]));
    let headers = vrs::headers::Headers::new();
    assert!(parse_utf8(&headers, &b("ok")).is_ok());
    let err = parse_utf8(&headers, &vec![0xc6]).err().expect("bad bytes were accepted");
    assert_eq!(err.1, 400);
}

#[test]
fn socket_terminator_detection() {
    assert!(headers_complete("GET / HTTP/1.1\r\n\r\n".as_bytes()));
    assert!(headers_complete("a\n\nrest".as_bytes()));
    assert!(!headers_complete("GET / HTTP/1.1\r\n".as_bytes()));
    assert!(!headers_complete("".as_bytes()));
}

#[test]
fn socket_read_stream_splits_headers() {
    let (headers, buf) = read_stream("GET / HTTP/1.1\nOrigin:localhost\n".as_bytes())
        .expect("reading failed");
    assert_eq!(headers.get(&b("Origin")), Some(&b("localhost")));
    assert_eq!(buf, b("GET / HTTP/1.1\nOrigin:localhost\n"));
    assert_eq!(read_stream(&[]).err(), Some(400));
}

#[test]
fn read_stream_error_keeps_buffer() {
    let e = ReadStreamError::from(b("partial"));
    assert!(!e.message().is_empty());
}

#[test]
fn configuration_defaults() {
    let c = Configuration::read_from_vars();
    assert_eq!(c.addr, b("0.0.0.0"));
    assert_eq!(c.port, 80);
    assert!(c.allow_all_origins);
    assert_eq!(c.allowed_methods, vec![b("GET")]);
    assert!(c.cache_files);
    let t = Configuration::test_config();
    assert_eq!(t.addr, b("localhost"));
    assert_eq!(t.allowed_origins, vec![b("localhost")]);
    assert!(!t.cache_files);
    let cloned = t.clone();
    assert_eq!(cloned.allowed_origins, t.allowed_origins);
}

#[test]
fn init_resolves_bind_settings() {
    let stock = vrs::init();
    assert_eq!(stock.addr, Some(b("0.0.0.0")));
    assert_eq!(stock.port, Some(80));
    assert!(!stock.debug_info);
    let merged = vrs::init_builder(Config { addr: None, port: Some(8080), debug_info: true });
    assert_eq!(merged.addr, Some(b("127.0.0.1")));
    assert_eq!(merged.port, Some(8080));
    assert!(merged.debug_info);
}
