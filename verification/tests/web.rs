use worker_pool::text::copy_of;
use worker_pool::text::starts_with;
use worker_pool::text::text_of;
use worker_pool::text::InvalidUtf8;
use worker_pool::web::web_response;
use worker_pool::web::PAGE_HEAD;
use worker_pool::web::PAGE_TAIL;

#[test]
fn root_request_is_answered_with_the_page() {
    let request = b"GET / HTTP/1.1\r\nHost: localhost\r\n\r\n";
    let expected = format!(
        "HTTP/1.1 200 OK\r\n\r\n{}GET / HTTP/1.1\r\nHost: localhost\r\n\r\n{}",
        PAGE_HEAD, PAGE_TAIL
    );
    assert_eq!(web_response(request), Ok(expected));
}

#[test]
fn page_shows_the_request_between_head_and_tail() {
    let answer = web_response(b"GET / HTTP/1.1\r\n").unwrap();
    assert!(answer.starts_with("HTTP/1.1 200 OK\r\n\r\n<!DOCTYPE html>\n        <html lang='no'>\n"));
    assert!(answer.contains("<title>Calcumulator</title>"));
    assert!(answer.contains("<div>Header fra klient gav f\u{221a}\u{220f}lgende: GET / HTTP/1.1\r\n\n            </div>"));
    assert!(answer.ends_with("</body>\n        </html>\n        "));
}

#[test]
fn padded_buffer_is_shown_with_its_padding() {
    let mut buffer = [0u8; 32];
    buffer[..16].copy_from_slice(b"GET / HTTP/1.1\r\n");
    let answer = web_response(&buffer).unwrap();
    let shown = format!("GET / HTTP/1.1\r\n{}", "\0".repeat(16));
    assert_eq!(answer, format!("HTTP/1.1 200 OK\r\n\r\n{}{}{}", PAGE_HEAD, shown, PAGE_TAIL));
}

#[test]
fn other_requests_are_not_found() {
    assert_eq!(web_response(b"GET /index.html HTTP/1.1\r\n"), Ok("HTTP/1.1 404 NOT FOUND\r\n\r\n".to_string()));
    assert_eq!(web_response(b"POST / HTTP/1.1\r\n"), Ok("HTTP/1.1 404 NOT FOUND\r\n\r\n".to_string()));
    assert_eq!(web_response(b"GET / HTTP/1.1"), Ok("HTTP/1.1 404 NOT FOUND\r\n\r\n".to_string()));
    assert_eq!(web_response(b""), Ok("HTTP/1.1 404 NOT FOUND\r\n\r\n".to_string()));
    assert_eq!(web_response(&[0xff, 0xfe]), Ok("HTTP/1.1 404 NOT FOUND\r\n\r\n".to_string()));
}

#[test]
fn root_request_that_is_not_text_is_refused() {
    let mut request = b"GET / HTTP/1.1\r\n".to_vec();
    request.push(0xff);
    assert_eq!(web_response(&request), Err(InvalidUtf8));
}

#[test]
fn text_is_decoded_or_refused() {
    assert_eq!(text_of(b"abc".to_vec()), Ok("abc".to_string()));
    assert_eq!(text_of(vec![0xc3, 0xa9]), Ok("\u{e9}".to_string()));
    assert_eq!(text_of(Vec::new()), Ok(String::new()));
    assert_eq!(text_of(vec![0xc3]), Err(InvalidUtf8));
    assert_eq!(text_of(vec![0xed, 0xa0, 0x80]), Err(InvalidUtf8));
}

#[test]
fn prefix_is_compared_byte_by_byte() {
    assert!(starts_with(b"exit now", b"exit"));
    assert!(starts_with(b"exit", b"exit"));
    assert!(starts_with(b"exit", b""));
    assert!(starts_with(b"", b""));
    assert!(!starts_with(b"exi", b"exit"));
    assert!(!starts_with(b"exiT", b"exit"));
    assert!(!starts_with(b"", b"e"));
}

#[test]
fn copy_holds_the_same_bytes() {
    assert_eq!(copy_of(b"bytes"), b"bytes".to_vec());
    assert_eq!(copy_of(b""), Vec::<u8>::new());
}
