use leda::gemini::header::{
    CertFailCode, FailPermanentCode, FailTemporaryCode, Header, InputCode, RedirectCode,
    StatusCode, MAX_META_BYTES,
};
use leda::gemini::Error;

fn table() -> Vec<(u8, &'static str, StatusCode)> {
    vec![
        (10, "10", StatusCode::Input(InputCode::Input)),
        (11, "11", StatusCode::Input(InputCode::Sensitive)),
        (20, "20", StatusCode::Success),
        (30, "30", StatusCode::Redirect(RedirectCode::Temporary)),
        (31, "31", StatusCode::Redirect(RedirectCode::Permanent)),
        (40, "40", StatusCode::FailTemporary(FailTemporaryCode::Temporary)),
        (41, "41", StatusCode::FailTemporary(FailTemporaryCode::ServerUnavailable)),
        (42, "42", StatusCode::FailTemporary(FailTemporaryCode::CGIError)),
        (43, "43", StatusCode::FailTemporary(FailTemporaryCode::ProxyError)),
        (44, "44", StatusCode::FailTemporary(FailTemporaryCode::SlowDown)),
        (50, "50", StatusCode::FailPermanent(FailPermanentCode::Permanent)),
        (51, "51", StatusCode::FailPermanent(FailPermanentCode::NotFound)),
        (52, "52", StatusCode::FailPermanent(FailPermanentCode::Gone)),
        (53, "53", StatusCode::FailPermanent(FailPermanentCode::ProxyRefused)),
        (59, "59", StatusCode::FailPermanent(FailPermanentCode::BadRequest)),
        (60, "60", StatusCode::CertFail(CertFailCode::CertRequired)),
        (61, "61", StatusCode::CertFail(CertFailCode::CertNotAuthorized)),
        (62, "62", StatusCode::CertFail(CertFailCode::CertNotValid)),
    ]
}

fn header_error(line: &str) -> String {
    match Header::try_from(line.to_string()) {
        Err(Error::HeaderFormat(message)) => message,
        other => panic!("expected a header error, got {:?}", other),
    }
}

#[test]
fn every_status_survives_the_round_trip() {
    for (_, _, status) in table() {
        let wire = status.to_string();
        assert_eq!(StatusCode::from_string(&wire).unwrap(), status);
    }
}

#[test]
fn status_table_is_exact() {
    for (code, wire, status) in table() {
        assert_eq!(status.code(), code);
        assert_eq!(status.to_string(), wire);
        assert_eq!(StatusCode::from_string(wire).unwrap(), status);
        assert_eq!(StatusCode::from_code(code), Some(status));
    }
}

#[test]
fn numbers_outside_the_table_are_no_status() {
    let known: Vec<u8> = table().iter().map(|entry| entry.0).collect();
    for code in 0..=255u8 {
        if !known.contains(&code) {
            assert_eq!(StatusCode::from_code(code), None);
        }
    }
    for code in 0..100u8 {
        let wire = format!("{:02}", code);
        assert_eq!(StatusCode::from_string(&wire).is_ok(), known.contains(&code), "{}", wire);
    }
}

#[test]
fn malformed_status_text_is_rejected() {
    for wire in ["", "2", "200", "2x", "x0", " 20", "20 ", "+2", "\u{662}\u{660}", "2\u{b2}"] {
        match StatusCode::from_string(wire) {
            Err(Error::HeaderFormat(message)) => {
                assert_eq!(message, format!("Header status code ({}) was not recognized", wire))
            },
            other => panic!("expected a header error for {:?}, got {:?}", wire, other),
        }
    }
}

#[test]
fn header_parses() {
    let header = Header::try_from("20 text/gemini\r\n".to_string()).unwrap();
    assert_eq!(header.status, StatusCode::Success);
    assert_eq!(header.meta, "text/gemini");

    let header = Header::try_from("51 Not found\r\n".to_string()).unwrap();
    assert_eq!(header.status, StatusCode::FailPermanent(FailPermanentCode::NotFound));
    assert_eq!(header.meta, "Not found");
}

#[test]
fn unknown_status_fails() {
    assert!(matches!(Header::try_from("99 foo\r\n".to_string()), Err(Error::HeaderFormat(_))));
    assert_eq!(header_error("99 foo\r\n"), "Header status code (99) was not recognized");
    assert_eq!(header_error("2x foo\r\n"), "Header status code (2x) was not recognized");
}

#[test]
fn missing_space_fails() {
    assert!(matches!(Header::try_from("20foo\r\n".to_string()), Err(Error::HeaderFormat(_))));
    assert_eq!(
        header_error("20foo\r\n"),
        "Missing space after status, provided header: 20foo\r\n"
    );
    assert_eq!(header_error("20\ttext\r\n"), "Missing space after status, provided header: 20\ttext\r\n");
}

#[test]
fn short_header_fails() {
    for line in ["", "2", "20", "\r\n", "20\r\n"] {
        assert_eq!(
            header_error(line),
            format!("Missing space after status, provided header: {}", line)
        );
    }
}

#[test]
fn oversized_meta_fails() {
    let line = format!("20 {}\r\n", "x".repeat(1025));
    assert!(matches!(Header::try_from(line.clone()), Err(Error::HeaderFormat(_))));
    assert_eq!(
        header_error(&line),
        "The header's meta info was too long, maximum length is 1024 bytes, actual length was 1025 bytes"
    );
}

#[test]
fn meta_of_the_greatest_length_is_accepted() {
    assert_eq!(MAX_META_BYTES, 1024);
    let meta = "x".repeat(1024);
    let header = Header::try_from(format!("20 {}\r\n", meta)).unwrap();
    assert_eq!(header.meta, meta);
}

#[test]
fn meta_is_measured_in_bytes() {
    let fits = "\u{e9}".repeat(512);
    let header = Header::try_from(format!("20 {}\r\n", fits)).unwrap();
    assert_eq!(header.meta, fits);

    let too_long = "\u{e9}".repeat(513);
    assert_eq!(
        header_error(&format!("20 {}\r\n", too_long)),
        "The header's meta info was too long, maximum length is 1024 bytes, actual length was 1026 bytes"
    );
}

#[test]
fn missing_line_end_fails() {
    assert!(matches!(Header::try_from("20 ok".to_string()), Err(Error::HeaderFormat(_))));
    for line in ["20 ok", "20 ok\n", "20 ok\r", "20 ok\n\r", "20 ", "20 \n", "20 \r"] {
        assert_eq!(
            header_error(line),
            "Meta information for the header doesn't end in <CR><LF>"
        );
    }
}

#[test]
fn meta_keeps_its_spaces() {
    let header = Header::try_from("20  text/gemini; lang=en  \r\n".to_string()).unwrap();
    assert_eq!(header.meta, " text/gemini; lang=en  ");
}

#[test]
fn meta_may_be_empty() {
    let header = Header::try_from("20 \r\n".to_string()).unwrap();
    assert_eq!(header.status, StatusCode::Success);
    assert_eq!(header.meta, "");
}

#[test]
fn meta_may_hold_line_ends() {
    let header = Header::try_from("20 a\r\nb\r\n".to_string()).unwrap();
    assert_eq!(header.meta, "a\r\nb");
}

#[test]
fn rules_are_checked_in_order() {
    // no space and no line end: the space is missed first
    assert_eq!(header_error("99x"), "Missing space after status, provided header: 99x");
    // no line end and an unknown status: the line end is missed first
    assert_eq!(header_error("99 x"), "Meta information for the header doesn't end in <CR><LF>");
    // too long and an unknown status: the length is refused first
    let line = format!("99 {}\r\n", "x".repeat(2000));
    assert_eq!(
        header_error(&line),
        "The header's meta info was too long, maximum length is 1024 bytes, actual length was 2000 bytes"
    );
}

#[test]
fn header_for_display() {
    let header = Header { status: StatusCode::Success, meta: "text/gemini".to_string() };
    assert_eq!(header.to_string(), "20: text/gemini");
    let header = Header {
        status: StatusCode::CertFail(CertFailCode::CertNotValid),
        meta: String::new(),
    };
    assert_eq!(header.to_string(), "62: ");
}
