use fetchy::http1::head::{
    add_field, has_body, read_chunk_size, read_field, read_status, Field,
};

#[test]
fn status_lines() {
    assert_eq!(read_status(b"HTTP/1.1 200 OK"), Some(200));
    assert_eq!(read_status(b"HTTP/1.0 404 Not Found"), Some(404));
    assert_eq!(read_status(b"HTTP/1.1 204"), Some(204));
    assert_eq!(read_status(b"HTTP/1.1 204 "), Some(204));
    assert_eq!(read_status(b"HTTP/1.9 999 whatever it is"), Some(999));
    assert_eq!(read_status(b"HTTP/1.1 007 x"), Some(7));
}

#[test]
fn status_lines_that_are_none() {
    assert_eq!(read_status(b""), None);
    assert_eq!(read_status(b"HTTP/1.1 20"), None);
    assert_eq!(read_status(b"HTTP/1.1 2000"), None);
    assert_eq!(read_status(b"HTTP/1.1 200OK"), None);
    assert_eq!(read_status(b"HTTP/2.0 200 OK"), None);
    assert_eq!(read_status(b"HTTP/1.x 200 OK"), None);
    assert_eq!(read_status(b"http/1.1 200 OK"), None);
    assert_eq!(read_status(b"HTTP/1.1  200 OK"), None);
    assert_eq!(read_status(b"HTTP/1.1 2a0 OK"), None);
    assert_eq!(read_status(b"HTTP/1.1\t200 OK"), None);
    assert_eq!(read_status(b" HTTP/1.1 200 OK"), None);
}

#[test]
fn field_lines() {
    assert_eq!(read_field(b"Content-Length: 42"), Some(Field::Length(42)));
    assert_eq!(read_field(b"content-length:42"), Some(Field::Length(42)));
    assert_eq!(read_field(b"CONTENT-LENGTH: \t 0 \t"), Some(Field::Length(0)));
    assert_eq!(read_field(b"Content-Length: 18446744073709551615"), Some(Field::Length(u64::MAX)));
    assert_eq!(read_field(b"Transfer-Encoding: chunked"), Some(Field::Chunked));
    assert_eq!(read_field(b"transfer-encoding:  CHUNKED "), Some(Field::Chunked));
    assert_eq!(read_field(b"Content-Type: text/html"), Some(Field::Other));
    assert_eq!(read_field(b"X-Empty:"), Some(Field::Other));
    assert_eq!(read_field(b"Date: Mon, 01 Jan 2024 00:00:00 GMT"), Some(Field::Other));
}

#[test]
fn field_lines_that_are_none() {
    assert_eq!(read_field(b""), None);
    assert_eq!(read_field(b"no colon here"), None);
    assert_eq!(read_field(b": value"), None);
    assert_eq!(read_field(b"Content-Length:"), None);
    assert_eq!(read_field(b"Content-Length: "), None);
    assert_eq!(read_field(b"Content-Length: 4 2"), None);
    assert_eq!(read_field(b"Content-Length: -1"), None);
    assert_eq!(read_field(b"Content-Length: 0x10"), None);
    assert_eq!(read_field(b"Content-Length: 18446744073709551616"), None);
    assert_eq!(read_field(b"Transfer-Encoding: gzip"), None);
    assert_eq!(read_field(b"Transfer-Encoding: gzip, chunked"), None);
    assert_eq!(read_field(b"Transfer-Encoding:"), None);
}

#[test]
fn framing_is_gathered_field_by_field() {
    assert_eq!(add_field(None, false, Field::Other), Some((None, false)));
    assert_eq!(add_field(None, false, Field::Length(5)), Some((Some(5), false)));
    assert_eq!(add_field(None, false, Field::Chunked), Some((None, true)));
    assert_eq!(add_field(Some(5), false, Field::Chunked), Some((Some(5), true)));
    assert_eq!(add_field(Some(5), true, Field::Other), Some((Some(5), true)));
    assert_eq!(add_field(Some(5), false, Field::Length(5)), Some((Some(5), false)));
    assert_eq!(add_field(Some(5), false, Field::Length(6)), None);
    assert_eq!(add_field(Some(0), true, Field::Length(1)), None);
}

#[test]
fn which_responses_have_a_body() {
    assert!(has_body(false, 200, Some(5), false));
    assert!(has_body(false, 200, Some(0), false));
    assert!(has_body(false, 200, None, true));
    assert!(has_body(false, 404, Some(5), false));
    assert!(!has_body(false, 200, None, false));
    assert!(!has_body(true, 200, Some(5), false));
    assert!(!has_body(true, 200, None, true));
    assert!(!has_body(false, 204, Some(5), false));
    assert!(!has_body(false, 304, None, true));
    assert!(!has_body(false, 100, Some(5), false));
    assert!(!has_body(false, 199, Some(5), true));
}

#[test]
fn chunk_sizes() {
    assert_eq!(read_chunk_size(b"0"), Some(0));
    assert_eq!(read_chunk_size(b"3"), Some(3));
    assert_eq!(read_chunk_size(b"1a"), Some(26));
    assert_eq!(read_chunk_size(b"1A"), Some(26));
    assert_eq!(read_chunk_size(b"ff;name=value"), Some(255));
    assert_eq!(read_chunk_size(b"ff ; name"), Some(255));
    assert_eq!(read_chunk_size(b" 10 "), Some(16));
    assert_eq!(read_chunk_size(b"0;"), Some(0));
    assert_eq!(read_chunk_size(b""), None);
    assert_eq!(read_chunk_size(b";ext"), None);
    assert_eq!(read_chunk_size(b"xyz"), None);
    assert_eq!(read_chunk_size(b"1 2"), None);
    assert_eq!(read_chunk_size(b"-1"), None);
}

#[test]
fn chunk_sizes_leave_room_for_the_line_break() {
    let most = format!("{:x}", usize::MAX - 2);
    assert_eq!(read_chunk_size(most.as_bytes()), Some(usize::MAX - 2));
    let more = format!("{:x}", usize::MAX - 1);
    assert_eq!(read_chunk_size(more.as_bytes()), None);
    let beyond = format!("{:x}", usize::MAX);
    assert_eq!(read_chunk_size(beyond.as_bytes()), None);
    assert_eq!(read_chunk_size(b"fffffffffffffffffffffffffffffffff"), None);
}
