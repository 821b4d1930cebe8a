use http_wire::{Error, Header, Request, Status};

#[test]
fn parse_request() {
    let buf = b"GET / HTTP/1.0\r\n\r\n";
    let mut request = Request::new(buf, 100);

    match request.parse(0) {
        Ok(Status::Complete(len)) => assert_eq!(buf.len(), len),
        _ => assert!(false),
    };

    assert_eq!(request.headers.len(), 0);
}

#[test]
fn request_parse_headers() {
    let buf = b"GET / HTTP/1.0\r\nHost: example.com\r\n\r\n";
    let mut request = Request::new(buf, 100);

    match request.parse(0) {
        Ok(Status::Complete(len)) => assert_eq!(buf.len(), len),
        _ => assert!(false),
    };

    assert_eq!(request.headers.len(), 1);
    assert_eq!(request.headers[0].name(), "Host");
    assert_eq!(request.headers[0].value(), b"example.com");
}

#[test]
fn parse_partial_request() {
    let mut request = Request::new(b"GET / HTTP/1.0\r\n", 100);

    match request.parse(0) {
        Ok(Status::Partial) => assert_eq!(b"/", request.path().unwrap()),
        _ => assert!(false),
    };
}

#[test]
fn parse_error_request() {
    let mut request = Request::new(b"G\tT / HTTP/1.0\r\n\r\n", 100);

    match request.parse(0) {
        Err(Error::Parse) => assert!(true),
        _ => assert!(false),
    };
}

#[test]
fn request_line_parts() {
    let buf = b"GET / HTTP/1.0\r\n\r\n";
    let mut request = Request::new(buf, 100);
    assert!(matches!(request.parse(0), Ok(Status::Complete(18))));
    assert_eq!(request.method(), Some("GET"));
    assert_eq!(request.path(), Some(&b"/"[..]));
    assert_eq!(request.minor_version(), Some(0));
}

#[test]
fn request_parts_absent_before_parse() {
    let request = Request::new(b"GET / HTTP/1.1\r\n\r\n", 4);
    assert_eq!(request.method(), None);
    assert_eq!(request.path(), None);
    assert_eq!(request.minor_version(), None);
}

#[test]
fn request_with_query_and_minor_one() {
    let buf = b"POST /a/b?c=%20d HTTP/1.1\r\nContent-Length: 0\r\nX: y\r\n\r\nbody";
    let mut request = Request::new(buf, 4);
    assert!(matches!(request.parse(0), Ok(Status::Complete(n)) if n == buf.len() - 4));
    assert_eq!(request.method(), Some("POST"));
    assert_eq!(request.path(), Some(&b"/a/b?c=%20d"[..]));
    assert_eq!(request.minor_version(), Some(1));
    assert_eq!(request.headers.len(), 2);
    assert_eq!(request.headers[1].name(), "X");
    assert_eq!(request.headers[1].value(), b"y");
}

#[test]
fn request_with_bad_version_is_an_error() {
    for buf in [
        &b"GET / HTTP/2.0\r\n\r\n"[..],
        &b"GET / HTTP/1.x\r\n\r\n"[..],
        &b"GET / HTTP/1.1 \r\n\r\n"[..],
        &b"GET  / HTTP/1.1\r\n\r\n"[..],
        &b" GET / HTTP/1.1\r\n\r\n"[..],
        &b"GET /\x01 HTTP/1.1\r\n\r\n"[..],
    ] {
        let mut request = Request::new(buf, 4);
        assert!(matches!(request.parse(0), Err(Error::Parse)));
        assert_eq!(request.method(), None);
    }
}

#[test]
fn every_prefix_of_a_request_is_partial() {
    let buf = b"GET /index.html HTTP/1.1\r\nHost: example.com\r\n\r\n";
    for j in 0..buf.len() {
        let mut request = Request::new(&buf[..j], 8);
        assert!(matches!(request.parse(0), Ok(Status::Partial)), "prefix {}", j);
    }
    let mut request = Request::new(buf, 8);
    assert!(matches!(request.parse(7), Ok(Status::Complete(n)) if n == buf.len()));
}

#[test]
fn request_hint_does_not_change_the_outcome() {
    let buf = b"GET / HTTP/1.0\r\nHost: example.com\r\n\r\n";
    for hint in [0usize, 5, 20, buf.len()] {
        let mut request = Request::new(buf, 8);
        assert!(matches!(request.parse(hint), Ok(Status::Complete(n)) if n == buf.len()));
        assert_eq!(request.headers.len(), 1);
    }
}
