use bare_server::codec::chunk_headers_of;
use bare_server::codec::join_bare_headers;
use bare_server::codec::split_headers;
use bare_server::codec::MAX_HEADER_VALUE;
use bare_server::error::Error;
use bare_server::header::Header;

fn header(name: &str, value: &[u8]) -> Header {
    Header::new(name.as_bytes(), value)
}

fn value_of(len: usize) -> Vec<u8> {
    (0..len).map(|i| b'a' + (i % 26) as u8).collect()
}

fn round_trip(len: usize) {
    let value = value_of(len);
    let sent = split_headers(&vec![header("x-bare-headers", &value)]);
    assert_eq!(join_bare_headers(&sent), Ok(value));
}

#[test]
fn round_trip_of_empty_value() {
    round_trip(0);
}

#[test]
fn round_trip_of_one_byte() {
    round_trip(1);
}

#[test]
fn round_trip_just_below_the_limit() {
    round_trip(3071);
}

#[test]
fn round_trip_at_the_limit() {
    round_trip(3072);
}

#[test]
fn round_trip_just_above_the_limit() {
    round_trip(3073);
}

#[test]
fn round_trip_of_ten_thousand_bytes() {
    round_trip(10000);
}

#[test]
fn round_trip_of_bytes_that_are_no_text() {
    let value: Vec<u8> = (0..7000usize).map(|i| (i % 256) as u8).collect();
    let sent = split_headers(&vec![header("X-Bare-Headers", &value)]);
    assert_eq!(join_bare_headers(&sent), Ok(value));
}

#[test]
fn limit_is_3072() {
    assert_eq!(MAX_HEADER_VALUE, 3072);
}

#[test]
fn value_at_the_limit_is_not_split() {
    let value = value_of(3072);
    let list = vec![header("x-bare-headers", &value)];
    assert_eq!(split_headers(&list), list);
}

#[test]
fn value_above_the_limit_is_split_in_two() {
    let value = value_of(3073);
    let sent = split_headers(&vec![header("x-bare-headers", &value)]);
    assert_eq!(sent.len(), 2);
    assert_eq!(sent[0].name, b"X-BARE-HEADERS-0".to_vec());
    assert_eq!(sent[0].value.len(), 3073);
    assert_eq!(sent[0].value[0], b';');
    assert_eq!(&sent[0].value[1..], &value[..3072]);
    assert_eq!(sent[1].name, b"X-BARE-HEADERS-1".to_vec());
    assert_eq!(sent[1].value, vec![b';', value[3072]]);
}

#[test]
fn ten_thousand_bytes_make_four_chunks() {
    let value = value_of(10000);
    let sent = chunk_headers_of(&value);
    assert_eq!(sent.len(), 4);
    assert_eq!(sent[3].name, b"X-BARE-HEADERS-3".to_vec());
    assert_eq!(sent[3].value.len(), 1 + 10000 - 3 * 3072);
}

#[test]
fn chunk_names_count_in_decimal() {
    let value = value_of(3072 * 11);
    let sent = chunk_headers_of(&value);
    assert_eq!(sent.len(), 11);
    assert_eq!(sent[9].name, b"X-BARE-HEADERS-9".to_vec());
    assert_eq!(sent[10].name, b"X-BARE-HEADERS-10".to_vec());
}

#[test]
fn other_headers_pass_through_in_order() {
    let long = value_of(4000);
    let list = vec![
        header("Accept", b"*/*"),
        header("x-bare-headers", &long),
        header("accept", b"text/html"),
        header("x-other", &long),
    ];
    let sent = split_headers(&list);
    assert_eq!(sent.len(), 5);
    assert_eq!(sent[0], list[0]);
    assert_eq!(sent[1].name, b"X-BARE-HEADERS-0".to_vec());
    assert_eq!(sent[2].name, b"X-BARE-HEADERS-1".to_vec());
    assert_eq!(sent[3], list[2]);
    assert_eq!(sent[4], list[3]);
}

#[test]
fn main_header_wins_over_chunks() {
    let list = vec![header("x-bare-headers-0", b";{}"), header("X-Bare-Headers", b"{\"a\":\"b\"}")];
    assert_eq!(join_bare_headers(&list), Ok(b"{\"a\":\"b\"}".to_vec()));
}

#[test]
fn chunks_are_joined_in_ascending_order() {
    let list = vec![
        header("x-bare-headers-1", b";cd"),
        header("x-bare-headers-0", b";ab"),
        header("x-bare-headers-3", b";zz"),
    ];
    assert_eq!(join_bare_headers(&list), Ok(b"abcd".to_vec()));
}

#[test]
fn nothing_sent_joins_to_nothing() {
    assert_eq!(join_bare_headers(&vec![header("accept", b"*/*")]), Ok(Vec::new()));
}

#[test]
fn chunk_without_marker_is_unreadable() {
    let list = vec![header("x-bare-headers-0", b";ab"), header("x-bare-headers-1", b"cd")];
    let e = join_bare_headers(&list).unwrap_err();
    assert_eq!(e.error, Error::InvalidBareHeader("x-bare-headers".to_string()));
    assert_eq!(e.context, "While joining headers");
    assert_eq!(e.status(), 400);
}

#[test]
fn chunks_that_hold_nothing_count_as_missing() {
    let list = vec![header("x-bare-headers-0", b";")];
    let e = join_bare_headers(&list).unwrap_err();
    assert_eq!(e.error, Error::MissingBareHeader("X-BARE-HEADERS".to_string()));
    assert_eq!(e.context, "While joining headers");
}

#[test]
fn round_trip_among_other_headers() {
    for len in [0usize, 1, 3071, 3072, 3073, 10000] {
        let value = value_of(len);
        let list = vec![
            header("accept", b"*/*"),
            header("X-Bare-Headers", &value),
            header("x-bare-url", b"https://a.example/"),
        ];
        assert_eq!(join_bare_headers(&split_headers(&list)), Ok(value));
    }
}

#[test]
fn list_of_nothing_but_chunks_is_joined_to_its_end() {
    let list = vec![
        header("x-bare-headers-2", b";ef"),
        header("x-bare-headers-0", b";ab"),
        header("x-bare-headers-1", b";cd"),
    ];
    assert_eq!(join_bare_headers(&list), Ok(b"abcdef".to_vec()));
}

#[test]
fn lone_chunk_with_empty_value_counts_as_missing() {
    let list = vec![header("x-bare-headers-0", b"")];
    let e = join_bare_headers(&list).unwrap_err();
    assert_eq!(e.error, Error::MissingBareHeader("X-BARE-HEADERS".to_string()));
    assert_eq!(e.context, "While joining headers");
    assert_eq!(e.status(), 400);
    assert_eq!(e.error.id(), "request.headers.x-bare-headers");
}

#[test]
fn chunks_with_empty_values_count_as_missing() {
    let list = vec![
        header("accept", b"*/*"),
        header("X-Bare-Headers-1", b""),
        header("x-bare-headers-0", b""),
    ];
    let e = join_bare_headers(&list).unwrap_err();
    assert_eq!(e.error, Error::MissingBareHeader("X-BARE-HEADERS".to_string()));
}

#[test]
fn empty_chunk_among_chunks_that_hold_something_is_unreadable() {
    let list = vec![header("x-bare-headers-0", b""), header("x-bare-headers-1", b";ab")];
    let e = join_bare_headers(&list).unwrap_err();
    assert_eq!(e.error, Error::InvalidBareHeader("x-bare-headers".to_string()));
    let list = vec![header("x-bare-headers-0", b";ab"), header("x-bare-headers-1", b"")];
    let e = join_bare_headers(&list).unwrap_err();
    assert_eq!(e.error, Error::InvalidBareHeader("x-bare-headers".to_string()));
}
