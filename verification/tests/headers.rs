use http_handle::decimal::decimal;
use http_handle::{append_header, Body, HeaderMultimap, Method};

fn strings(values: &[&str]) -> Vec<String> {
    values.iter().map(|v| v.to_string()).collect()
}

#[test]
fn new_multimap_is_empty() {
    let m = HeaderMultimap::new();
    assert!(m.is_empty());
    assert_eq!(m.lookup("Accept"), None);
    assert_eq!(m.lines(), Vec::<Vec<u8>>::new());
}

#[test]
fn append_header_adds_and_never_overwrites() {
    let mut m = HeaderMultimap::new();
    append_header(&mut m, "Accept", "text/html");
    assert!(!m.is_empty());
    assert_eq!(m.lookup("Accept"), Some(&strings(&["text/html"])[..]));
    append_header(&mut m, "Accept", "text/html");
    append_header(&mut m, "Accept", "*/*");
    assert_eq!(m.lookup("Accept"), Some(&strings(&["text/html", "text/html", "*/*"])[..]));
}

#[test]
fn append_header_keeps_names_apart() {
    let mut m = HeaderMultimap::new();
    append_header(&mut m, "Accept", "a");
    append_header(&mut m, "accept", "b");
    append_header(&mut m, "Accept-Language", "c");
    assert_eq!(m.lookup("Accept"), Some(&strings(&["a"])[..]));
    assert_eq!(m.lookup("accept"), Some(&strings(&["b"])[..]));
    assert_eq!(m.lookup("Accept-Language"), Some(&strings(&["c"])[..]));
    assert_eq!(m.lookup("ACCEPT"), None);
    assert_eq!(m.lookup(""), None);
}

#[test]
fn append_header_takes_an_empty_value() {
    let mut m = HeaderMultimap::new();
    append_header(&mut m, "Expect", "");
    assert_eq!(m.lookup("Expect"), Some(&strings(&[""])[..]));
    assert_eq!(m.lines(), vec![b"Expect: \0".to_vec()]);
}

#[test]
fn lines_group_the_values_of_a_name() {
    let mut m = HeaderMultimap::new();
    append_header(&mut m, "A", "1");
    append_header(&mut m, "B", "2");
    append_header(&mut m, "A", "3");
    append_header(&mut m, "C", "4");
    append_header(&mut m, "B", "5");
    assert_eq!(
        m.lines(),
        vec![
            b"A: 1\0".to_vec(),
            b"A: 3\0".to_vec(),
            b"B: 2\0".to_vec(),
            b"B: 5\0".to_vec(),
            b"C: 4\0".to_vec(),
        ]
    );
}

#[test]
fn lines_hold_the_bytes_of_name_and_value() {
    let mut m = HeaderMultimap::new();
    append_header(&mut m, "X-Name", "caf\u{e9}");
    assert_eq!(
        m.lines(),
        vec![vec![b'X', b'-', b'N', b'a', b'm', b'e', b':', b' ', b'c', b'a', b'f', 0xc3, 0xa9, 0]]
    );
}

#[test]
fn decimal_writes_digits_without_leading_zeros() {
    assert_eq!(decimal(0), "0");
    assert_eq!(decimal(7), "7");
    assert_eq!(decimal(10), "10");
    assert_eq!(decimal(100), "100");
    assert_eq!(decimal(9_876_543_210), "9876543210");
    assert_eq!(decimal(usize::MAX), usize::MAX.to_string());
}

#[test]
fn body_knows_its_size() {
    assert_eq!(Body::fixed(0).get_size(), Some(0));
    assert_eq!(Body::fixed(1024).get_size(), Some(1024));
    assert_eq!(Body::streamed().get_size(), None);
}

#[test]
fn five_methods_are_executable() {
    assert!(Method::Get.is_executable());
    assert!(Method::Head.is_executable());
    assert!(Method::Post.is_executable());
    assert!(Method::Put.is_executable());
    assert!(Method::Delete.is_executable());
    assert!(!Method::Options.is_executable());
    assert!(!Method::Trace.is_executable());
    assert!(!Method::Connect.is_executable());
}
