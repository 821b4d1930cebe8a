use http_wire::{Error, Header, Headers, Status};

#[test]
fn headers_parse_headers() {
    let buf = b"Host: example.com\r\n\r\n";
    let mut parser = Headers::new(buf, 100);

    match parser.parse(0) {
        Ok(Status::Complete(len)) => assert_eq!(buf.len(), len),
        _ => assert!(false),
    };

    assert_eq!(parser.headers.len(), 1);
    assert_eq!(parser.headers[0].name(), "Host");
    assert_eq!(parser.headers[0].value(), b"example.com");
}

#[test]
fn parse_partial_headers() {
    let mut parser = Headers::new(b"Host: ", 100);

    match parser.parse(0) {
        Ok(Status::Partial) => assert_eq!(0, parser.headers.len()),
        _ => assert!(false),
    };
}

#[test]
fn parse_error_headers() {
    let mut parsed = Headers::new(b"H\tst: example.com\r\n\r\n", 100);

    match parsed.parse(0) {
        Err(Error::Parse) => assert!(true),
        _ => assert!(false),
    };
}

#[test]
fn headers_only_complete_length() {
    let buf = b"Host: example.com\r\n\r\n";
    let mut parser = Headers::new(buf, 4);
    assert!(matches!(parser.parse(0), Ok(Status::Complete(21))));
    assert_eq!(parser.headers.len(), 1);
}

#[test]
fn zero_capacity_with_a_header_is_an_error() {
    let mut parser = Headers::new(b"Host: example.com\r\n\r\n", 0);
    assert!(matches!(parser.parse(0), Err(Error::Parse)));
    assert_eq!(parser.headers.len(), 0);
}

#[test]
fn zero_capacity_without_headers_completes() {
    let mut parser = Headers::new(b"\r\n", 0);
    assert!(matches!(parser.parse(0), Ok(Status::Complete(2))));
}

#[test]
fn capacity_one_with_two_headers_is_an_error() {
    let mut parser = Headers::new(b"A: 1\r\nB: 2\r\n\r\n", 1);
    assert!(matches!(parser.parse(0), Err(Error::Parse)));
    assert_eq!(parser.headers.len(), 1);
    assert_eq!(parser.headers[0].name(), "A");
}

#[test]
fn value_blanks_are_trimmed() {
    let buf = b"X-Key: \t a b \t\r\nEmpty:\r\n\r\n";
    let mut parser = Headers::new(buf, 8);
    assert!(matches!(parser.parse(0), Ok(Status::Complete(n)) if n == buf.len()));
    assert_eq!(parser.headers.len(), 2);
    assert_eq!(parser.headers[0].name(), "X-Key");
    assert_eq!(parser.headers[0].value(), b"a b");
    assert_eq!(parser.headers[1].name(), "Empty");
    assert_eq!(parser.headers[1].value(), b"");
}

#[test]
fn views_point_into_the_buffer() {
    let buf = b"Host: example.com\r\n\r\n";
    let mut parser = Headers::new(buf, 2);
    assert!(parser.parse(0).is_ok());
    let name = parser.headers[0].value();
    assert_eq!(name.as_ptr(), buf[6..].as_ptr());
}

#[test]
fn bare_line_feed_is_an_error() {
    let mut parser = Headers::new(b"Host: a\n\r\n", 2);
    assert!(matches!(parser.parse(0), Err(Error::Parse)));
}

#[test]
fn folded_line_is_an_error() {
    let mut parser = Headers::new(b"A: 1\r\n more\r\n\r\n", 4);
    assert!(matches!(parser.parse(0), Err(Error::Parse)));
}

#[test]
fn empty_name_is_an_error() {
    let mut parser = Headers::new(b": v\r\n\r\n", 4);
    assert!(matches!(parser.parse(0), Err(Error::Parse)));
}

#[test]
fn control_byte_in_value_is_an_error() {
    let mut parser = Headers::new(b"A: x\x01y\r\n\r\n", 4);
    assert!(matches!(parser.parse(0), Err(Error::Parse)));
}

#[test]
fn every_prefix_of_a_header_block_is_partial() {
    let buf = b"Host: example.com\r\nAccept: */*\r\n\r\n";
    for j in 0..buf.len() {
        let mut parser = Headers::new(&buf[..j], 8);
        assert!(matches!(parser.parse(0), Ok(Status::Partial)), "prefix {}", j);
    }
}

#[test]
fn outcomes_compare_by_value() {
    let mut parser = Headers::new(b"Host: example.com\r\n\r\n", 1);
    assert_eq!(parser.parse(0), Ok(Status::Complete(21)));
    let mut parser = Headers::new(b"Host", 1);
    assert_eq!(parser.parse(0), Ok(Status::Partial));
    let mut parser = Headers::new(b"Ho\x7fst: a\r\n\r\n", 1);
    assert_eq!(parser.parse(0), Err(Error::Parse));
}
