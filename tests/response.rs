use http_wire::{Error, Header, Response, Status};

#[test]
fn parse_response() {
    let buf = b"HTTP/1.1 200 OK\r\n\r\n";
    let mut response = Response::new(buf, 100);

    match response.parse(0) {
        Ok(Status::Complete(len)) => assert_eq!(buf.len(), len),
        _ => assert!(false),
    };

    assert_eq!(response.minor_version().unwrap(), 1);
    assert_eq!(response.status().unwrap(), 200);
    assert_eq!(response.description().unwrap(), b"OK");
    assert_eq!(response.headers.len(), 0);
}

#[test]
fn response_parse_headers() {
    let buf = b"HTTP/1.0 404 Not Found\r\nHost: example.com\r\n\r\n";
    let mut response = Response::new(buf, 100);

    match response.parse(0) {
        Ok(Status::Complete(len)) => assert_eq!(buf.len(), len),
        _ => assert!(false),
    };

    assert_eq!(response.headers.len(), 1);
    assert_eq!(response.headers[0].name(), "Host");
    assert_eq!(response.headers[0].value(), b"example.com");
}

#[test]
fn parse_partial_response() {
    let mut response = Response::new(b"HTTP/1.1 200 OK\r\n", 100);

    match response.parse(0) {
        Ok(Status::Partial) => assert_eq!(200, response.status().unwrap()),
        _ => assert!(false),
    };
}

#[test]
fn parse_error_response() {
    let mut response = Response::new(b"HTTP/1.0 2\t00 OK\r\n\r\n", 100);

    match response.parse(0) {
        Err(Error::Parse) => assert!(true),
        _ => assert!(false),
    };
}

#[test]
fn status_line_complete_length() {
    let mut response = Response::new(b"HTTP/1.1 200 OK\r\n\r\n", 4);
    assert!(matches!(response.parse(0), Ok(Status::Complete(19))));
}

#[test]
fn status_code_above_255() {
    let mut response = Response::new(b"HTTP/1.0 404 Not Found\r\n\r\n", 4);
    assert!(response.parse(0).is_ok());
    assert_eq!(response.status(), Some(404));
    assert_eq!(response.minor_version(), Some(0));
    assert_eq!(response.description(), Some(&b"Not Found"[..]));
}

#[test]
fn empty_reason_after_space() {
    let mut response = Response::new(b"HTTP/1.1 204 \r\n\r\n", 4);
    assert!(matches!(response.parse(0), Ok(Status::Complete(17))));
    assert_eq!(response.description(), Some(&b""[..]));
}

#[test]
fn malformed_status_lines_are_errors() {
    for buf in [
        &b"HTTP/1.1 200\r\n\r\n"[..],
        &b"HTTP/1.1 2000 OK\r\n\r\n"[..],
        &b"HTTP/1.1  200 OK\r\n\r\n"[..],
        &b"HTTP/1.a 200 OK\r\n\r\n"[..],
        &b"HTTX/1.1 200 OK\r\n\r\n"[..],
        &b"HTTP/1.1 200 O\x00K\r\n\r\n"[..],
    ] {
        let mut response = Response::new(buf, 4);
        assert!(matches!(response.parse(0), Err(Error::Parse)));
        assert_eq!(response.status(), None);
    }
}

#[test]
fn every_prefix_of_a_response_is_partial() {
    let buf = b"HTTP/1.1 301 Moved\r\nLocation: /x\r\n\r\n";
    for j in 0..buf.len() {
        let mut response = Response::new(&buf[..j], 8);
        assert!(matches!(response.parse(0), Ok(Status::Partial)), "prefix {}", j);
    }
}
