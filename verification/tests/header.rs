use bare_server::header::append_header;
use bare_server::header::copy_headers;
use bare_server::header::find_header;
use bare_server::header::get_header;
use bare_server::header::remove_header;
use bare_server::header::set_header;
use bare_server::header::valid_name;
use bare_server::header::valid_value;
use bare_server::header::Header;
use bare_server::text::bytes_equal;
use bare_server::text::decimal_text;
use bare_server::text::find_from;
use bare_server::text::literal;
use bare_server::text::lower_byte;
use bare_server::text::matches_at;
use bare_server::text::names_match;
use bare_server::text::split_text;
use bare_server::version::MaintainerData;
use bare_server::version::ProjectData;
use bare_server::version::VersionData;

fn header(name: &str, value: &str) -> Header {
    Header::new(name.as_bytes(), value.as_bytes())
}

fn is_name_byte(b: u8) -> bool {
    b.is_ascii_alphanumeric() || b"!\"#$%&'*+-.^_`|~".contains(&b)
}

#[test]
fn name_bytes_are_letters_digits_and_some_signs() {
    for b in 0..=255u8 {
        assert_eq!(valid_name(&[b]), is_name_byte(b), "byte {}", b);
        assert_eq!(valid_name(&[b'a', b]), is_name_byte(b), "byte {}", b);
    }
}

#[test]
fn name_has_between_one_and_65535_bytes() {
    assert!(!valid_name(b""));
    assert!(valid_name(&vec![b'a'; 64]));
    assert!(valid_name(&vec![b'a'; 65]));
    assert!(valid_name(&vec![b'A'; 65535]));
    assert!(!valid_name(&vec![b'a'; 65536]));
    let mut long = vec![b'a'; 100];
    long[70] = b' ';
    assert!(!valid_name(&long));
}

#[test]
fn value_bytes_are_tab_and_all_from_space_but_delete() {
    for b in 0..=255u8 {
        assert_eq!(valid_value(&[b]), b == 9 || (b >= 32 && b != 127), "byte {}", b);
        assert_eq!(valid_value(&[b'a', b, b'c']), b == 9 || (b >= 32 && b != 127), "byte {}", b);
    }
    assert!(valid_value(b""));
}

#[test]
fn header_is_valid_when_name_and_value_are() {
    assert!(header("Accept", "text/html").is_valid());
    assert!(!header("Accept", "text\r\nhtml").is_valid());
    assert!(!header("Accept:", "text/html").is_valid());
    assert_eq!(header("a", "b").copy(), header("a", "b"));
}

#[test]
fn lookup_takes_the_first_match_in_any_casing() {
    let list = vec![header("a", "1"), header("Accept", "2"), header("ACCEPT", "3")];
    assert_eq!(find_header(&list, b"accept"), 1);
    assert_eq!(find_header(&list, b"b"), 3);
    assert_eq!(get_header(&list, b"aCCept"), Some(b"2".to_vec()));
    assert_eq!(get_header(&list, b"accep"), None);
    assert_eq!(copy_headers(&list), list);
}

#[test]
fn headers_are_removed_set_and_appended() {
    let mut list = vec![header("a", "1"), header("B", "2"), header("A", "3"), header("c", "4")];
    remove_header(&mut list, b"a");
    assert_eq!(list, vec![header("B", "2"), header("c", "4")]);
    set_header(&mut list, b"b", b"5");
    assert_eq!(list, vec![header("c", "4"), header("b", "5")]);
    append_header(&mut list, b"C", b"6");
    assert_eq!(list, vec![header("c", "4"), header("b", "5"), header("C", "6")]);
}

#[test]
fn names_match_without_regard_to_ascii_case() {
    assert!(names_match(b"Content-Type", b"content-type"));
    assert!(names_match(b"", b""));
    assert!(!names_match(b"content-type", b"content_type"));
    assert!(!names_match(b"a", b"ab"));
    assert!(!names_match(&[0xc9], &[0xe9]));
    assert_eq!(lower_byte(b'A'), b'a');
    assert_eq!(lower_byte(b'Z'), b'z');
    assert_eq!(lower_byte(b'@'), b'@');
    assert_eq!(lower_byte(b'['), b'[');
    assert_eq!(lower_byte(b'a'), b'a');
}

#[test]
fn numbers_are_written_in_decimal() {
    assert_eq!(decimal_text(0), b"0".to_vec());
    assert_eq!(decimal_text(9), b"9".to_vec());
    assert_eq!(decimal_text(10), b"10".to_vec());
    assert_eq!(decimal_text(404), b"404".to_vec());
    assert_eq!(decimal_text(65535), b"65535".to_vec());
    assert_eq!(decimal_text(usize::MAX), usize::MAX.to_string().into_bytes());
}

#[test]
fn text_is_split_on_every_separator_from_the_left() {
    let pieces = |s: &str, sep: &str| -> Vec<String> {
        split_text(s.as_bytes(), sep.as_bytes())
            .into_iter()
            .map(|p| String::from_utf8(p).unwrap())
            .collect()
    };
    assert_eq!(pieces("a, b", ", "), vec!["a", "b"]);
    assert_eq!(pieces("", ", "), vec![""]);
    assert_eq!(pieces("a, ", ", "), vec!["a", ""]);
    assert_eq!(pieces(", , ", ", "), vec!["", "", ""]);
    assert_eq!(pieces("a,b", ", "), vec!["a,b"]);
    assert_eq!(pieces("aaa", "aa"), vec!["", "a"]);
    assert_eq!(pieces("a, b", ""), vec!["a, b"]);
    assert_eq!(pieces("", ""), vec![""]);
    for (s, sep) in [("a, b, , c", ", "), ("xxaxxxbxx", "xx"), ("abc", "abcd")] {
        let expected: Vec<String> = s.split(sep).map(|p| p.to_string()).collect();
        assert_eq!(pieces(s, sep), expected);
    }
}

#[test]
fn patterns_are_found_from_an_offset() {
    assert_eq!(find_from(b"a, b, c", b", ", 0), 1);
    assert_eq!(find_from(b"a, b, c", b", ", 2), 4);
    assert_eq!(find_from(b"a, b, c", b", ", 5), 7);
    assert_eq!(find_from(b"a, b, c", b", ", 7), 7);
    assert_eq!(find_from(b"a, b, c", b", ", 70), 7);
    assert_eq!(find_from(b"abc", b"", 1), 1);
    assert!(matches_at(b"abc", b"bc", 1));
    assert!(!matches_at(b"abc", b"bc", 2));
    assert!(!matches_at(b"abc", b"bc", 9));
    assert!(matches_at(b"abc", b"", 3));
    assert!(bytes_equal(b"abc", b"abc"));
    assert!(!bytes_equal(b"abc", b"abd"));
    assert!(!bytes_equal(b"abc", b"ab"));
    assert_eq!(literal("host"), b"host".to_vec());
}

#[test]
fn server_describes_itself() {
    let data = VersionData::default();
    assert_eq!(data.versions, vec!["v2".to_string()]);
    assert_eq!(data.language, "Rust");
    assert_eq!(data.maintainer, MaintainerData::default());
    assert_eq!(data.maintainer.email, "nebuladev@undefinedbhvr.com");
    assert_eq!(data.maintainer.website, "https://github.com/NebulaServices");
    assert_eq!(data.project, ProjectData::default());
    assert_eq!(data.project.name, "Nebula TOMPHTTP Server");
    assert_eq!(
        data.project.description,
        "Clean implementation of the TOMPHttp Specification in Rust."
    );
    assert_eq!(data.project.email, "");
    assert_eq!(data.project.website, "https://github.com/NebulaServices/bare-server-rust");
    assert_eq!(data.project.repository, "https://github.com/NebulaServices/bare-server-rust");
    assert_eq!(data.project.version, "1.0.0");
}
