use leda::gemini::header::{Header, RedirectCode, StatusCode};
use leda::gemini::response::{header_cutoff, split_response, Response};
use leda::gemini::Error;

#[test]
fn header_and_body_are_split() {
    let (header, body) = split_response(b"20 text/gemini\r\nhello").unwrap();
    assert_eq!(header, "20 text/gemini\r\n");
    assert_eq!(body, Some(b"hello".to_vec()));
}

#[test]
fn no_bytes_after_the_header_is_no_body() {
    let (header, body) = split_response(b"20 text/gemini\r\n").unwrap();
    assert_eq!(header, "20 text/gemini\r\n");
    assert_eq!(body, None);
}

#[test]
fn header_ends_at_the_first_line_end() {
    assert_eq!(header_cutoff(b"20 a\r\nb\r\nc"), Some(6));
    assert_eq!(header_cutoff(b"\r\n"), Some(2));
    assert_eq!(header_cutoff(b"\r\r\n"), Some(3));
    assert_eq!(header_cutoff(b"\n\r\r\nx"), Some(4));
    let (header, body) = split_response(b"20 a\r\nb\r\nc").unwrap();
    assert_eq!(header, "20 a\r\n");
    assert_eq!(body, Some(b"b\r\nc".to_vec()));
}

#[test]
fn response_without_line_end_fails() {
    for raw in [&b""[..], b"2", b"\r", b"\n", b"20 text/gemini", b"20 x\n\r", b"20 x\r", b"20 x\n"] {
        assert_eq!(header_cutoff(raw), None);
        match split_response(raw) {
            Err(Error::HeaderFormat(message)) => assert_eq!(
                message,
                "There must be at least 1 <CR><LF> at the end of the header, but such a sequence was not found."
            ),
            other => panic!("expected a header error, got {:?}", other),
        }
        assert!(matches!(Response::from_bytes(raw), Err(Error::HeaderFormat(_))));
    }
}

#[test]
fn body_is_kept_byte_for_byte() {
    let mut raw = b"20 application/octet-stream\r\n".to_vec();
    let body: Vec<u8> = (0..=255u8).collect();
    raw.extend_from_slice(&body);
    let response = Response::from_bytes(&raw).unwrap();
    assert_eq!(response.header.status, StatusCode::Success);
    assert_eq!(response.header.meta, "application/octet-stream");
    assert_eq!(response.body, Some(body));
}

#[test]
fn response_parses() {
    let response = Response::from_bytes(b"20 text/gemini\r\n# hello\n").unwrap();
    assert_eq!(response.header.status, StatusCode::Success);
    assert_eq!(response.header.meta, "text/gemini");
    assert_eq!(response.body, Some(b"# hello\n".to_vec()));

    let response = Response::from_bytes(b"31 gemini://example.org/\r\n").unwrap();
    assert_eq!(response.header.status, StatusCode::Redirect(RedirectCode::Permanent));
    assert_eq!(response.header.meta, "gemini://example.org/");
    assert_eq!(response.body, None);
}

#[test]
fn response_with_a_bad_header_fails() {
    for raw in [&b"99 foo\r\nbody"[..], b"20foo\r\n", b"\r\n", b"2\r\n", b"20\r\n"] {
        assert!(matches!(Response::from_bytes(raw), Err(Error::HeaderFormat(_))));
    }
    let mut raw = b"20 ".to_vec();
    raw.extend_from_slice(&[b'x'; 1025]);
    raw.extend_from_slice(b"\r\n");
    assert!(matches!(Response::from_bytes(&raw), Err(Error::HeaderFormat(_))));
}

#[test]
fn header_is_read_leniently() {
    let (header, body) = split_response(b"20 caf\xc3\xa9\r\n").unwrap();
    assert_eq!(header, "20 caf\u{e9}\r\n");
    assert_eq!(body, None);

    let (header, _) = split_response(b"20 a\xffb\r\n").unwrap();
    assert_eq!(header, "20 a\u{fffd}b\r\n");
    let response = Response::from_bytes(b"20 a\xffb\r\nrest").unwrap();
    assert_eq!(response.header.meta, "a\u{fffd}b");
    assert_eq!(response.body, Some(b"rest".to_vec()));
}

#[test]
fn new_keeps_header_and_body() {
    let header = Header { status: StatusCode::Success, meta: "text/plain".to_string() };
    let response = Response::new(header.clone(), Some(vec![1, 2, 3]));
    assert_eq!(response.header, header);
    assert_eq!(response.body, Some(vec![1, 2, 3]));
    let response = Response::new(header.clone(), None);
    assert_eq!(response.header, header);
    assert_eq!(response.body, None);
}

#[test]
fn empty_body_is_no_body() {
    let header = Header { status: StatusCode::Success, meta: String::new() };
    let response = Response::new(header, Some(Vec::new()));
    assert_eq!(response.body, None);
}
