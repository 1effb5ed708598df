use crewlink::probe::{verdict, verdict_of_response};

#[test]
fn a_healthy_server_is_told_by_its_status_line() {
    assert_eq!(verdict("HTTP/1.0 200 OK"), Ok(()));
    assert_eq!(verdict("HTTP/1.1 200 OK\r"), Ok(()));
    assert_eq!(verdict("HTTP/1.1 200"), Ok(()));
    assert_eq!(verdict_of_response(&b"HTTP/1.0 200 OK\r\ncontent-type: application/json\r\n\r\n{}".to_vec()), Ok(()));
}

#[test]
fn anything_else_is_unhealthy() {
    for line in ["HTTP/1.0 500 Internal Server Error", "HTTP/2 200", "HTTP/1.0  200", "HTTP/1.0 2000", "SSH-2.0-x", "HTTP/1.0"] {
        assert_eq!(verdict(line), Err(format!("unhealthy: {line}")));
        assert_eq!(verdict(&format!("{line} \t\u{a0}\u{3000}\r")), Err(format!("unhealthy: {line}")));
    }
}

#[test]
fn a_silent_server_is_unhealthy() {
    let words = "the server accepted the connection and said nothing".to_owned();
    assert_eq!(verdict(""), Err(words.clone()));
    assert_eq!(verdict(" \r"), Err(words.clone()));
    assert_eq!(verdict_of_response(&Vec::new()), Err(words.clone()));
    assert_eq!(verdict_of_response(&b"\r\nHTTP/1.0 200 OK".to_vec()), Err(words));
}

#[test]
fn bytes_that_are_not_text_are_replaced() {
    assert_eq!(verdict_of_response(&vec![0xff, b'x']), Err("unhealthy: \u{fffd}x".to_owned()));
}

#[test]
fn white_space_is_what_unicode_says() {
    for code in 0u32..0x3100 {
        if let Some(c) = char::from_u32(code) {
            let trimmed = verdict(&format!("x{c}")) == Err("unhealthy: x".to_owned());
            assert_eq!(trimmed, c.is_whitespace(), "{code:x}");
        }
    }
}
