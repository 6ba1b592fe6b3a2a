use async_await_future::http::{Error, HttpStatus};
use async_await_future::query_string::QueryString;

#[test]
fn error_messages() {
    assert_eq!(Error::InvalidRequest.message(), "Error: Invalid Request");
    assert_eq!(Error::InvalidProtocol.message(), "Error: Invalid Protocol");
    assert_eq!(Error::InvalidMethod.message(), "Error: Invalid Method");
    assert_eq!(Error::IO("disk gone".to_string()).message(), "Error: disk gone");
    assert_eq!(Error::Utf8("bad byte".to_string()).message(), "Error: bad byte");
}

#[test]
fn status_codes_and_text() {
    assert_eq!(HttpStatus::OK.code(), 200);
    assert_eq!(HttpStatus::NotFound.code(), 404);
    assert_eq!(HttpStatus::BadRequest.code(), 400);
    assert_eq!(HttpStatus::OK.text(), "200 OK");
    assert_eq!(HttpStatus::NotFound.text(), "404 Not Found");
    assert_eq!(HttpStatus::BadRequest.text(), "400 Bad Request");
}

#[test]
fn query_string_pairs() {
    let q = QueryString::from("a=1&b=2=3&c&d=&a=4&=5");
    assert_eq!(q.get(&"a".to_string()), Some(&"4".to_string()));
    assert_eq!(q.get(&"b".to_string()), Some(&"2=3".to_string()));
    assert_eq!(q.get(&"c".to_string()), None);
    assert_eq!(q.get(&"d".to_string()), Some(&"".to_string()));
    assert_eq!(q.get(&"".to_string()), Some(&"5".to_string()));
    assert_eq!(q.get(&"e".to_string()), None);
}

#[test]
fn query_string_empty_and_unicode() {
    let q = QueryString::parse("");
    assert_eq!(q.get(&"".to_string()), None);
    let q = QueryString::parse("ชื่อ=ค่า");
    assert_eq!(q.get(&"ชื่อ".to_string()), Some(&"ค่า".to_string()));
}

#[test]
fn errors_from_io_and_utf8() {
    let io = std::io::Error::new(std::io::ErrorKind::Other, "pipe broke");
    let e = Error::from(io);
    assert!(matches!(e, Error::IO(ref m) if m == "pipe broke"));
    assert_eq!(e.message(), "Error: pipe broke");
    let bytes = vec![0xffu8, 0xfe];
    let utf8 = std::str::from_utf8(&bytes).unwrap_err();
    let text = utf8.to_string();
    assert!(matches!(Error::from(utf8), Error::Utf8(m) if m == text));
}
