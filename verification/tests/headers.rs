//! The header map, the header-block parser, and the extra-header helper.
use vrs::configuration::Configuration;
use vrs::headers::find_buf_headers;
use vrs::response::builder::ResponseBuilder;
use vrs::response::utils::apply_extra_headers;

fn bytes(s: &str) -> Vec<u8> {
    s.as_bytes().to_vec()
}

#[test]
fn test_apply_headers_works() {
    let mut response: ResponseBuilder = ResponseBuilder::new(Configuration::test_config());
    apply_extra_headers(&mut response, &vec![(bytes("ServerHost"), bytes("VanillaRustlangServer"))]);
    let headers = response.headers;
    assert_eq!(headers.len(), 1);
    assert_eq!(headers.get(&bytes("ServerHost")), Some(&bytes("VanillaRustlangServer")));
}

#[test]
fn headers_parse_name_value_pairs() {
    let parsed = find_buf_headers("Host:example\nOrigin:localhost\n".as_bytes())
        .expect("parsing failed");
    assert_eq!(parsed.get(&bytes("Host")), Some(&bytes("example")));
    assert_eq!(parsed.get(&bytes("Origin")), Some(&bytes("localhost")));
    assert_eq!(parsed.len(), 2);
}

#[test]
fn headers_strip_leading_spaces_in_values() {
    let parsed = find_buf_headers("User-Agent:   rust agent\n".as_bytes()).expect("parsing failed");
    assert_eq!(parsed.get(&bytes("User-Agent")), Some(&bytes("rust agent")));
}

#[test]
fn headers_value_runs_from_first_colon() {
    let parsed = find_buf_headers("A:b c:d\nReferer: http://example/x\n".as_bytes())
        .expect("parsing failed");
    assert_eq!(parsed.get(&bytes("A")), Some(&bytes("b c:d")));
    assert_eq!(parsed.get(&bytes("Referer")), Some(&bytes("http://example/x")));
}

#[test]
fn headers_line_without_value_is_not_committed() {
    let r = find_buf_headers("NoColonHere\nAlsoNoValue:\n".as_bytes());
    assert_eq!(r.err(), Some(400));
}

#[test]
fn headers_empty_block_is_rejected() {
    assert_eq!(find_buf_headers("".as_bytes()).err(), Some(400));
}

#[test]
fn headers_non_utf8_block_is_rejected() {
    assert_eq!(find_buf_headers(&[0xc6, 0x0a]).err(), Some(400));
}

#[test]
fn headers_later_value_replaces_earlier() {
    let parsed =
        find_buf_headers("A:one\nA:two\n".as_bytes()).expect("parsing failed");
    assert_eq!(parsed.get(&bytes("A")), Some(&bytes("two")));
    assert_eq!(parsed.len(), 1);
}

#[test]
fn headers_insert_replaces_in_place() {
    let mut h = vrs::headers::Headers::new();
    h.insert(bytes("A"), bytes("1"));
    h.insert(bytes("B"), bytes("2"));
    h.insert(bytes("A"), bytes("3"));
    assert_eq!(h.len(), 2);
    assert_eq!(h.get(&bytes("A")), Some(&bytes("3")));
    let (k, v) = h.pair_at(0);
    assert_eq!((k, v), (&bytes("A"), &bytes("3")));
}
