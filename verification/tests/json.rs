use bare_server::header::Header;
use bare_server::json::read_mapping;
use bare_server::json::write_mapping;

fn header(name: &[u8], value: &[u8]) -> Header {
    Header::new(name, value)
}

#[test]
fn no_headers_make_an_empty_object() {
    assert_eq!(write_mapping(&vec![]), b"{}".to_vec());
}

#[test]
fn headers_become_members_in_order() {
    let list = vec![header(b"B", b"2"), header(b"a", b"1"), header(b"B", b"3")];
    assert_eq!(write_mapping(&list), b"{\"B\":\"2\",\"a\":\"1\",\"B\":\"3\"}".to_vec());
}

#[test]
fn quotes_and_backslashes_are_escaped() {
    let list = vec![header(b"etag", b"W/\"a\\b\"")];
    assert_eq!(write_mapping(&list), b"{\"etag\":\"W/\\\"a\\\\b\\\"\"}".to_vec());
}

#[test]
fn bytes_outside_visible_ascii_are_written_as_escapes() {
    let list = vec![header(b"x", &[9, 0x1f, b' ', b'~', 0x7f, 0x80, 0xe9, 0xff])];
    assert_eq!(
        write_mapping(&list),
        b"{\"x\":\"\\u0009\\u001f ~\\u007f\\u0080\\u00e9\\u00ff\"}".to_vec()
    );
}

#[test]
fn written_mapping_is_read_back() {
    let list = vec![header(b"Content-Type", b"text/html; charset=\"utf-8\""), header(b"x", b"a\\b\tc")];
    let mut read = read_mapping(&write_mapping(&list)).unwrap();
    read.sort_by(|a, b| a.name.cmp(&b.name));
    assert_eq!(read, list);
}

#[test]
fn text_that_is_no_object_of_strings_is_not_read() {
    assert_eq!(read_mapping(b""), None);
    assert_eq!(read_mapping(b"{"), None);
    assert_eq!(read_mapping(b"{\"a\": [\"b\"]}"), None);
    assert_eq!(read_mapping(&[b'{', b'"', 0xff, b'"', b':', b'"', b'"', b'}']), None);
}

#[test]
fn object_of_strings_is_read() {
    let mut read = read_mapping(b" { \"a\" : \"\\u00e9\", \"b\" : \"\" } ").unwrap();
    read.sort_by(|a, b| a.name.cmp(&b.name));
    assert_eq!(read, vec![header(b"a", "\u{e9}".as_bytes()), header(b"b", b"")]);
}
