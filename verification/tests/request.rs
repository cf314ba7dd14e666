use bare_server::envelope::merge;
use bare_server::error::Error;
use bare_server::header::Header;
use bare_server::request::target_url;
use bare_server::request::translate_request;
use bare_server::request::Version;

fn header(name: &str, value: &str) -> Header {
    Header::new(name.as_bytes(), value.as_bytes())
}

#[test]
fn third_version_takes_the_url_whole() {
    let inbound = vec![header("X-Bare-URL", "http://a.example:8080/b?c=d")];
    assert_eq!(target_url(Version::V3, &inbound), Ok(b"http://a.example:8080/b?c=d".to_vec()));
}

#[test]
fn third_version_without_url_is_refused() {
    let inbound = vec![header("x-bare-host", "a.example")];
    let e = target_url(Version::V3, &inbound).unwrap_err();
    assert_eq!(e.error, Error::MissingBareHeader("x-bare-url".to_string()));
    assert_eq!(e.context, "While processing v3 request.");
    assert_eq!(e.status(), 400);
}

#[test]
fn second_version_without_parts_goes_to_the_default() {
    assert_eq!(target_url(Version::V2, &Vec::new()), Ok(b"https://example.com/".to_vec()));
}

#[test]
fn second_version_puts_the_parts_together() {
    let inbound = vec![
        header("x-bare-path", "/b?c=d"),
        header("x-bare-protocol", "http:"),
        header("X-Bare-Host", "a.example"),
        header("x-bare-url", "https://ignored.example/"),
    ];
    assert_eq!(target_url(Version::V2, &inbound), Ok(b"http://a.example/b?c=d".to_vec()));
}

#[test]
fn second_version_fills_in_what_is_missing() {
    let inbound = vec![header("x-bare-host", "a.example")];
    assert_eq!(target_url(Version::V2, &inbound), Ok(b"https://a.example/".to_vec()));
}

#[test]
fn second_version_does_not_check_the_parts() {
    let inbound = vec![header("x-bare-protocol", "no scheme"), header("x-bare-path", "no slash")];
    assert_eq!(
        target_url(Version::V2, &inbound),
        Ok(b"no scheme//example.comno slash".to_vec())
    );
}

#[test]
fn request_carries_method_headers_and_body() {
    let inbound = vec![header("x-bare-url", "https://a.example/")];
    let processed = merge(vec![header("accept", "*/*")], vec![], None).unwrap();
    let request =
        translate_request(Version::V3, b"POST", &inbound, &processed, b"body".to_vec(), 4).unwrap();
    assert_eq!(request.url, b"https://a.example/".to_vec());
    assert_eq!(request.method, b"POST".to_vec());
    assert_eq!(request.headers, vec![header("accept", "*/*")]);
    assert_eq!(request.body, b"body".to_vec());
}

#[test]
fn body_over_the_limit_makes_no_request() {
    let inbound = vec![header("x-bare-url", "https://a.example/")];
    let processed = merge(vec![], vec![], None).unwrap();
    let e = translate_request(Version::V3, b"POST", &inbound, &processed, b"body!".to_vec(), 4)
        .unwrap_err();
    assert_eq!(e.error, Error::Generic("invalid_body".to_string()));
    assert_eq!(e.context, "Couldn't parse request body.");
    assert_eq!(e.status(), 500);
}

#[test]
fn missing_url_is_reported_before_the_body() {
    let processed = merge(vec![], vec![], None).unwrap();
    let e = translate_request(Version::V3, b"GET", &Vec::new(), &processed, b"body!".to_vec(), 4)
        .unwrap_err();
    assert_eq!(e.error, Error::MissingBareHeader("x-bare-url".to_string()));
}
