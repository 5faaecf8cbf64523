use web_server::http::{response, route, starts_with, Route};

#[test]
fn front_page_request_is_home() {
    assert_eq!(route(b"GET / HTTP/1.1\r\nHost: localhost\r\n\r\n"), Route::Home);
    assert_eq!(route(b"GET / HTTP/1.1\r\n"), Route::Home);
}

#[test]
fn sleep_request_is_sleep() {
    assert_eq!(route(b"GET /sleep HTTP/1.1\r\nHost: localhost\r\n\r\n"), Route::Sleep);
}

#[test]
fn other_requests_are_not_found() {
    assert_eq!(route(b"GET /other HTTP/1.1\r\n"), Route::NotFound);
    assert_eq!(route(b"POST / HTTP/1.1\r\n"), Route::NotFound);
    assert_eq!(route(b"GET / HTTP/1.1\r"), Route::NotFound);
    assert_eq!(route(b" GET / HTTP/1.1\r\n"), Route::NotFound);
    assert_eq!(route(b""), Route::NotFound);
}

#[test]
fn zero_padded_buffer_is_routed_by_its_start() {
    let mut buffer = [0u8; 1024];
    let line = b"GET /sleep HTTP/1.1\r\n";
    buffer[..line.len()].copy_from_slice(line);
    assert_eq!(route(&buffer), Route::Sleep);
    assert_eq!(route(&[0u8; 1024]), Route::NotFound);
}

#[test]
fn routes_name_status_file_and_delay() {
    assert_eq!(Route::Home.status_line(), "HTTP/1.1 200 OK");
    assert_eq!(Route::Sleep.status_line(), "HTTP/1.1 200 OK");
    assert_eq!(Route::NotFound.status_line(), "HTTP/1.1 404 NOT FOUND");
    assert_eq!(Route::Home.filename(), "hello.html");
    assert_eq!(Route::Sleep.filename(), "hello.html");
    assert_eq!(Route::NotFound.filename(), "404.html");
    assert_eq!(Route::Home.delay_secs(), None);
    assert_eq!(Route::Sleep.delay_secs(), Some(5));
    assert_eq!(Route::NotFound.delay_secs(), None);
}

#[test]
fn starts_with_compares_the_first_bytes() {
    assert!(starts_with(b"abcdef", b"abc"));
    assert!(starts_with(b"abc", b"abc"));
    assert!(starts_with(b"abc", b""));
    assert!(starts_with(b"", b""));
    assert!(!starts_with(b"ab", b"abc"));
    assert!(!starts_with(b"abd", b"abc"));
    assert!(!starts_with(b"xbc", b"abc"));
}

#[test]
fn response_carries_status_length_and_body() {
    let bytes = response("HTTP/1.1 200 OK", b"<h1>Hello!</h1>");
    assert_eq!(
        bytes,
        b"HTTP/1.1 200 OK\r\nContent-Length: 15\r\n\r\n<h1>Hello!</h1>".to_vec()
    );
}

#[test]
fn response_with_empty_body_has_length_zero() {
    let bytes = response("HTTP/1.1 404 NOT FOUND", b"");
    assert_eq!(bytes, b"HTTP/1.1 404 NOT FOUND\r\nContent-Length: 0\r\n\r\n".to_vec());
}

#[test]
fn response_length_counts_bytes_in_decimal() {
    let body = vec![b'x'; 1203];
    let bytes = response("S", &body);
    let head = b"S\r\nContent-Length: 1203\r\n\r\n";
    assert_eq!(bytes.len(), head.len() + 1203);
    assert_eq!(&bytes[..head.len()], &head[..]);
    assert_eq!(&bytes[head.len()..], &body[..]);
    let nine = response("S", b"123456789");
    assert_eq!(nine, b"S\r\nContent-Length: 9\r\n\r\n123456789".to_vec());
    let ten = response("S", b"1234567890");
    assert_eq!(ten, b"S\r\nContent-Length: 10\r\n\r\n1234567890".to_vec());
}

#[test]
fn response_matches_the_formatted_text() {
    let contents = "<!DOCTYPE html>\n<p>h\u{e9}llo</p>\n";
    let status_line = Route::Home.status_line();
    let length = contents.len();
    let expected = format!("{status_line}\r\nContent-Length: {length}\r\n\r\n{contents}");
    assert_eq!(response(status_line, contents.as_bytes()), expected.into_bytes());
}
