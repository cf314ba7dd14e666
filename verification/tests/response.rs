use bare_server::codec::join_bare_headers;
use bare_server::header::get_header;
use bare_server::header::Header;
use bare_server::json::write_mapping;
use bare_server::response::add_cors_headers;
use bare_server::response::compose_response;
use bare_server::response::contains_text;
use bare_server::response::respond;

fn header(name: &str, value: &str) -> Header {
    Header::new(name.as_bytes(), value.as_bytes())
}

fn names(list: &[&str]) -> Vec<Vec<u8>> {
    list.iter().map(|n| n.as_bytes().to_vec()).collect()
}

fn value(headers: &Vec<Header>, name: &str) -> Option<String> {
    get_header(headers, name.as_bytes()).map(|v| String::from_utf8(v).unwrap())
}

#[test]
fn status_not_allowed_is_hidden_behind_200() {
    let response = respond(404, &vec![], vec![], &None, &None).unwrap();
    assert_eq!(response.status, 200);
    assert_eq!(value(&response.headers, "x-bare-status"), Some("404".to_string()));
    assert_eq!(value(&response.headers, "x-bare-status-text"), Some("Not Found".to_string()));
}

#[test]
fn status_allowed_is_the_transport_status() {
    let response = respond(404, &vec![], vec![], &None, &Some(names(&["204", "404"]))).unwrap();
    assert_eq!(response.status, 404);
    assert_eq!(value(&response.headers, "x-bare-status"), Some("404".to_string()));
}

#[test]
fn status_not_in_the_list_is_hidden() {
    let response = respond(404, &vec![], vec![], &None, &Some(names(&["204", "40"]))).unwrap();
    assert_eq!(response.status, 200);
}

#[test]
fn status_without_words_yields_no_response() {
    assert_eq!(respond(299, &vec![], vec![], &None, &None), None);
    assert_eq!(respond(99, &vec![], vec![], &None, &None), None);
    assert_eq!(respond(1000, &vec![], vec![], &None, &None), None);
}

#[test]
fn content_type_comes_back_whatever_is_allowed() {
    let upstream = vec![header("Content-Type", "text/html"), header("etag", "\"x\"")];
    for allowed in [None, Some(names(&[])), Some(names(&["etag"])), Some(names(&["content-type"]))]
    {
        let response = respond(200, &upstream, vec![], &allowed, &None).unwrap();
        assert_eq!(value(&response.headers, "content-type"), Some("text/html".to_string()));
        let count = response.headers.iter().filter(|h| h.name.eq_ignore_ascii_case(b"content-type"));
        assert_eq!(count.count(), 1);
    }
}

#[test]
fn no_content_type_upstream_means_none_in_the_response() {
    let response = respond(200, &vec![header("etag", "x")], vec![], &None, &None).unwrap();
    assert_eq!(value(&response.headers, "content-type"), None);
}

#[test]
fn response_is_laid_out_in_order() {
    let upstream = vec![header("ETag", "x"), header("Content-Type", "text/html")];
    let response = compose_response(
        204,
        b"No Content",
        &upstream,
        b"body".to_vec(),
        &Some(names(&["etag", "x-absent"])),
        &Some(names(&["204"])),
    );
    assert_eq!(response.status, 204);
    assert_eq!(response.body, b"body".to_vec());
    assert_eq!(
        response.headers,
        vec![
            header("x-bare-headers", "{\"ETag\":\"x\",\"Content-Type\":\"text/html\"}"),
            header("ETag", "x"),
            header("content-type", "text/html"),
            header("x-bare-status", "204"),
            header("x-bare-status-text", "No Content"),
            header("access-control-allow-origin", "*"),
            header("access-control-allow-headers", "*"),
            header("access-control-allow-methods", "*"),
            header("access-control-expose-headers", "*"),
        ]
    );
}

#[test]
fn passed_header_cannot_stand_in_for_a_status_header() {
    let upstream = vec![header("X-Bare-Status", "forged"), header("Access-Control-Allow-Origin", "x")];
    let allowed = Some(names(&["x-bare-status", "access-control-allow-origin"]));
    let response = respond(500, &upstream, vec![], &allowed, &None).unwrap();
    assert_eq!(value(&response.headers, "x-bare-status"), Some("500".to_string()));
    assert_eq!(value(&response.headers, "access-control-allow-origin"), Some("*".to_string()));
    assert_eq!(response.headers.len(), 7);
}

#[test]
fn long_header_set_comes_back_in_chunks() {
    let upstream = vec![header("x-long", &"v".repeat(7000))];
    let response = respond(200, &upstream, vec![], &None, &None).unwrap();
    assert_eq!(value(&response.headers, "x-bare-headers"), None);
    assert_eq!(value(&response.headers, "x-bare-headers-0").unwrap().len(), 3073);
    assert_eq!(value(&response.headers, "x-bare-headers-1").unwrap().len(), 3073);
    let object = write_mapping(&upstream);
    assert_eq!(object.len(), 7013);
    assert_eq!(value(&response.headers, "x-bare-headers-2").unwrap().len(), 1 + 7013 - 6144);
    assert_eq!(bare_server::codec::join_bare_headers(&response.headers), Ok(object));
}

#[test]
fn cors_headers_replace_what_was_there() {
    let mut headers = vec![
        header("Access-Control-Allow-Origin", "https://a.example"),
        header("accept", "*/*"),
    ];
    add_cors_headers(&mut headers);
    assert_eq!(
        headers,
        vec![
            header("accept", "*/*"),
            header("access-control-allow-origin", "*"),
            header("access-control-allow-headers", "*"),
            header("access-control-allow-methods", "*"),
            header("access-control-expose-headers", "*"),
        ]
    );
}

#[test]
fn text_is_found_in_a_list_only_whole() {
    assert!(contains_text(&names(&["204", "404"]), b"404"));
    assert!(!contains_text(&names(&["204", "404"]), b"40"));
    assert!(!contains_text(&names(&[]), b""));
    assert!(contains_text(&names(&[""]), b""));
}

#[test]
fn response_carries_the_whole_upstream_header_set() {
    let long = "v".repeat(4000);
    let sets = vec![
        vec![],
        vec![header("ETag", "\"x\""), header("Set-Cookie", "a=1"), header("set-cookie", "b=2")],
        vec![header("x-long", &long), header("content-type", "text/plain")],
    ];
    for upstream in sets {
        let response = respond(301, &upstream, vec![], &None, &None).unwrap();
        assert_eq!(join_bare_headers(&response.headers), Ok(write_mapping(&upstream)));
    }
}

#[test]
fn status_out_of_range_has_no_words() {
    for status in [0u16, 1, 99, 1000, 9999, 65535] {
        assert_eq!(respond(status, &vec![], vec![], &None, &None), None);
    }
    assert!(respond(100, &vec![], vec![], &None, &None).is_some());
}

#[test]
fn header_asked_for_comes_back_as_upstream_gave_it() {
    let upstream = vec![header("ETag", "1"), header("etag", "2"), header("Vary", "accept")];
    let asked = Some(names(&["x-none", "ETAG", "vary"]));
    let response = respond(200, &upstream, vec![], &asked, &None).unwrap();
    assert_eq!(value(&response.headers, "etag"), Some("1".to_string()));
    assert_eq!(value(&response.headers, "vary"), Some("accept".to_string()));
    assert_eq!(value(&response.headers, "x-none"), None);
}
