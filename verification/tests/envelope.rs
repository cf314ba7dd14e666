use bare_server::codec::split_headers;
use bare_server::envelope::assemble;
use bare_server::envelope::decode_bare_headers;
use bare_server::envelope::decode_forward_headers;
use bare_server::envelope::denied;
use bare_server::envelope::merge;
use bare_server::envelope::process_headers;
use bare_server::envelope::read_list;
use bare_server::envelope::relay_headers;
use bare_server::error::Error;
use bare_server::header::Header;

fn header(name: &str, value: &str) -> Header {
    Header::new(name.as_bytes(), value.as_bytes())
}

fn names(list: &[&str]) -> Vec<Vec<u8>> {
    list.iter().map(|n| n.as_bytes().to_vec()).collect()
}

fn sorted(mut list: Vec<Header>) -> Vec<Header> {
    list.sort_by(|a, b| a.name.cmp(&b.name));
    list
}

#[test]
fn no_mapping_sent_decodes_to_nothing() {
    let inbound = vec![header("accept", "*/*"), header("x-bare-url", "https://a.example/")];
    assert_eq!(decode_bare_headers(&inbound), Ok(Vec::new()));
}

#[test]
fn main_header_decodes_to_its_entries() {
    let inbound = vec![header("X-Bare-Headers", "{\"Accept\": \"text/html\", \"x-a\": \"1\"}")];
    let decoded = sorted(decode_bare_headers(&inbound).unwrap());
    assert_eq!(decoded, vec![header("Accept", "text/html"), header("x-a", "1")]);
}

#[test]
fn repeated_key_keeps_its_last_value() {
    let inbound = vec![header("x-bare-headers", "{\"a\": \"1\", \"a\": \"2\"}")];
    assert_eq!(decode_bare_headers(&inbound), Ok(vec![header("a", "2")]));
}

#[test]
fn chunks_decode_to_the_joined_mapping() {
    let inbound = vec![
        header("x-bare-headers-0", ";{\"accept\":"),
        header("x-bare-headers-1", ";\"text/html\"}"),
    ];
    assert_eq!(decode_bare_headers(&inbound), Ok(vec![header("accept", "text/html")]));
}

#[test]
fn chunks_that_are_no_json_are_reported() {
    let inbound = vec![header("x-bare-headers-0", ";{\"accept\":"), header("x-bare-headers-1", ";")];
    let e = decode_bare_headers(&inbound).unwrap_err();
    assert_eq!(e.error, Error::InvalidBareHeader("x-bare-headers".to_string()));
    assert_eq!(e.context, "While reading the header mapping");
    assert_eq!(e.status(), 400);
}

#[test]
fn main_header_that_is_no_object_of_strings_is_reported() {
    for text in ["", "[]", "{\"a\": 1}", "{\"a\": \"b\"} x", "\"a\""] {
        let e = decode_bare_headers(&vec![header("x-bare-headers", text)]).unwrap_err();
        assert_eq!(e.error, Error::InvalidBareHeader("x-bare-headers".to_string()));
    }
}

#[test]
fn empty_object_decodes_to_nothing() {
    assert_eq!(decode_bare_headers(&vec![header("x-bare-headers", "{}")]), Ok(Vec::new()));
}

#[test]
fn forward_list_is_split_on_comma_and_space() {
    let inbound = vec![header("X-Bare-Forward-Headers", "accept, accept-language,x, , cookie")];
    assert_eq!(
        decode_forward_headers(&inbound),
        names(&["accept", "accept-language,x", "cookie"])
    );
}

#[test]
fn forward_list_drops_the_denied_names() {
    let inbound = vec![header(
        "x-bare-forward-headers",
        "connection, accept, transfer-encoding, host, origin, referer, Host",
    )];
    assert_eq!(decode_forward_headers(&inbound), names(&["accept", "Host"]));
}

#[test]
fn forward_list_not_sent_names_nothing() {
    assert_eq!(decode_forward_headers(&vec![header("accept", "*/*")]), names(&[]));
    assert_eq!(decode_forward_headers(&vec![header("x-bare-forward-headers", "")]), names(&[]));
}

#[test]
fn denied_names_are_matched_exactly() {
    assert!(denied(b""));
    assert!(denied(b"connection"));
    assert!(denied(b"transfer-encoding"));
    assert!(denied(b"host"));
    assert!(denied(b"origin"));
    assert!(denied(b"referer"));
    assert!(!denied(b"Host"));
    assert!(!denied(b"hos"));
    assert!(!denied(b"accept"));
}

#[test]
fn list_header_is_read_where_sent() {
    let inbound = vec![header("X-Bare-Pass-Status", "204, 304")];
    assert_eq!(read_list(&inbound, b"x-bare-pass-status"), Some(names(&["204", "304"])));
    assert_eq!(read_list(&inbound, b"x-bare-pass-headers"), None);
    assert_eq!(read_list(&vec![header("a", "")], b"a"), Some(names(&[""])));
}

#[test]
fn relayed_headers_come_as_the_client_sent_them() {
    let inbound = vec![
        header("Accept", "text/html"),
        header("accept", "second"),
        header("Cookie", "a=b"),
    ];
    let relayed = relay_headers(&inbound, &names(&["cookie", "accept", "x-absent"])).unwrap();
    assert_eq!(relayed, vec![header("Cookie", "a=b"), header("Accept", "text/html")]);
}

#[test]
fn malformed_name_in_forward_list_is_reported() {
    let inbound = vec![header("accept", "*/*")];
    let e = relay_headers(&inbound, &names(&["accept", "bad name", "(also)"])).unwrap_err();
    assert_eq!(e.error, Error::InvalidHeader("bad name".to_string()));
    assert_eq!(e.context, "While relaying headers");
    assert_eq!(e.status(), 400);
}

#[test]
fn merge_puts_relayed_before_mapping_before_length() {
    let merged = merge(
        vec![header("Accept", "*/*")],
        vec![header("x-a", "1"), header("accept", "text/html")],
        Some(b"42".to_vec()),
    )
    .unwrap();
    assert_eq!(
        merged.headers(),
        &vec![
            header("Accept", "*/*"),
            header("x-a", "1"),
            header("accept", "text/html"),
            header("content-length", "42"),
        ]
    );
    assert_eq!(merged.len(), 4);
}

#[test]
fn host_never_goes_upstream() {
    let merged = merge(
        vec![header("Host", "a.example"), header("accept", "*/*")],
        vec![header("host", "b.example"), header("HOST", "c.example"), header("x-host", "d")],
        None,
    )
    .unwrap();
    assert_eq!(merged.into_headers(), vec![header("accept", "*/*"), header("x-host", "d")]);
}

#[test]
fn merge_reports_the_first_malformed_header() {
    let e = merge(
        vec![header("accept", "*/*")],
        vec![header("x-a", "line\nbreak"), header("bad name", "v")],
        None,
    )
    .unwrap_err();
    assert_eq!(e.error, Error::InvalidHeader("x-a".to_string()));
    assert_eq!(e.context, "While merging headers");
    let e = merge(vec![], vec![header("", "v")], None).unwrap_err();
    assert_eq!(e.error, Error::InvalidHeader("".to_string()));
}

#[test]
fn malformed_name_that_is_no_text_is_shown_with_replacements() {
    let e = merge(vec![Header::new(&[b'a', 0xff, b'b'], b"v")], vec![], None).unwrap_err();
    assert_eq!(e.error, Error::InvalidHeader("a\u{fffd}b".to_string()));
}

#[test]
fn assemble_reads_the_allowlists() {
    let inbound = vec![
        header("x-bare-pass-headers", "etag, x-a"),
        header("content-length", "3"),
        header("x-bare-forward-headers", "accept"),
        header("accept", "*/*"),
    ];
    let data = assemble(&inbound, vec![header("x-b", "2")]).unwrap();
    assert_eq!(
        data.processed_headers.headers(),
        &vec![header("accept", "*/*"), header("x-b", "2"), header("content-length", "3")]
    );
    assert_eq!(data.pass_headers, Some(names(&["etag", "x-a"])));
    assert_eq!(data.status, None);
}

#[test]
fn envelope_is_decoded_whole() {
    let inbound = vec![
        header("Host", "proxy.example"),
        header("X-Bare-Url", "https://a.example/"),
        header("X-Bare-Headers", "{\"Host\": \"a.example\", \"Accept\": \"text/html\"}"),
        header("X-Bare-Forward-Headers", "accept-language, host"),
        header("Accept-Language", "en"),
        header("X-Bare-Pass-Status", "404"),
    ];
    let data = process_headers(&inbound).unwrap();
    assert_eq!(
        sorted(data.processed_headers.into_headers()),
        vec![header("Accept", "text/html"), header("Accept-Language", "en")]
    );
    assert_eq!(data.pass_headers, None);
    assert_eq!(data.status, Some(names(&["404"])));
}

#[test]
fn undecodable_mapping_is_reported_before_anything_else() {
    let inbound = vec![
        header("x-bare-headers", "{"),
        header("x-bare-forward-headers", "bad name"),
    ];
    let e = process_headers(&inbound).unwrap_err();
    assert_eq!(e.error, Error::InvalidBareHeader("x-bare-headers".to_string()));
}

#[test]
fn parts_of_the_request_data_can_be_changed() {
    let mut data = process_headers(&vec![header("accept", "*/*")]).unwrap();
    {
        let (processed, pass_headers, status) = data.explode_ref_mut();
        assert_eq!(processed.len(), 0);
        *pass_headers = Some(names(&["etag"]));
        *status = Some(names(&["404"]));
    }
    assert_eq!(data.pass_headers, Some(names(&["etag"])));
    assert_eq!(data.status, Some(names(&["404"])));
}

#[test]
fn empty_chunk_is_reported_as_a_missing_mapping() {
    let inbound = vec![header("x-bare-url", "https://a.example/"), header("x-bare-headers-0", "")];
    let e = decode_bare_headers(&inbound).unwrap_err();
    assert_eq!(e.error, Error::MissingBareHeader("X-BARE-HEADERS".to_string()));
    assert_eq!(e.context, "While joining headers");
    let e = process_headers(&inbound).unwrap_err();
    assert_eq!(e.error, Error::MissingBareHeader("X-BARE-HEADERS".to_string()));
    assert_eq!(e.status(), 400);
}

#[test]
fn mapping_decodes_alike_whole_and_in_chunks() {
    let long = "v".repeat(7000);
    let text = format!("{{\"accept\":\"text/html\",\"x-long\":\"{}\"}}", long);
    let whole = vec![
        header("accept", "*/*"),
        header("X-Bare-Headers", &text),
        header("x-bare-url", "https://a.example/"),
    ];
    let chunked = split_headers(&whole);
    assert_eq!(chunked.len(), 5);
    let expected = vec![header("accept", "text/html"), header("x-long", &long)];
    assert_eq!(sorted(decode_bare_headers(&whole).unwrap()), expected);
    assert_eq!(sorted(decode_bare_headers(&chunked).unwrap()), expected);
}
