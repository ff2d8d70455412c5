use swagweb::method::HttpMethod;
use swagweb::raw::{Error, HttpHeaders, HttpRequestBody};
use swagweb::request_reader::{self, Reader};
use swagweb::response::HttpResponse;
use swagweb::text::{parse_usize, str_eq, str_eq_fold, u64_to_dec_string};

#[test]
fn reader_yields_lines_without_their_terminators() {
    let mut reader = Reader::new(b"Host: x\r\n\r\nrest".to_vec());
    assert_eq!(reader.next().unwrap().unwrap(), "Host: x");
    assert_eq!(reader.next().unwrap().unwrap(), "");
    match reader.next() {
        Some(Err(request_reader::Error::NoCRLF)) => {},
        _ => panic!("expected a missing terminator"),
    }
    assert!(reader.next().is_none());
}

#[test]
fn reader_rejects_bare_line_feed() {
    let mut reader = Reader::new(b"oops\n".to_vec());
    match reader.next() {
        Some(Err(request_reader::Error::NoCRLF)) => {},
        _ => panic!("expected a missing terminator"),
    }
}

#[test]
fn reader_rejects_invalid_utf8_line() {
    let mut reader = Reader::new(vec![0xff, 0xfe, 13, 10]);
    match reader.next() {
        Some(Err(request_reader::Error::ReadFailed(_))) => {},
        _ => panic!("expected a decode failure"),
    }
}

#[test]
fn reader_exposes_remaining_bytes() {
    let mut reader = Reader::new(b"a\r\nbcd".to_vec());
    let _ = reader.next();
    assert_eq!(reader.inner().as_slice(), b"bcd");
}

#[test]
fn headers_from_reader_reads_until_the_empty_line() {
    let mut reader = Reader::new(b"Host: example\r\nAccept: */*\r\n\r\nBODY".to_vec());
    let headers = HttpHeaders::from_reader(&mut reader).expect("should parse");
    assert_eq!(headers.get("Host"), Some(&"example".to_string()));
    assert_eq!(headers.get("Accept"), Some(&"*/*".to_string()));
    assert_eq!(headers.get("Missing"), None);
    assert_eq!(reader.inner().as_slice(), b"BODY");
}

#[test]
fn headers_from_reader_keeps_the_last_duplicate() {
    let mut reader = Reader::new(b"A: one\r\nA: two\r\n\r\n".to_vec());
    let headers = HttpHeaders::from_reader(&mut reader).expect("should parse");
    assert_eq!(headers.get("A"), Some(&"two".to_string()));
    assert_eq!(headers.0.len(), 1);
}

#[test]
fn headers_from_reader_requires_the_separator() {
    let mut reader = Reader::new(b"bad line\r\n\r\n".to_vec());
    match HttpHeaders::from_reader(&mut reader) {
        Err(Error::InvalidHeader(line, what)) => {
            assert_eq!(line, "bad line");
            assert_eq!(what, "<no colon>");
        },
        _ => panic!("expected an invalid header"),
    }
}

#[test]
fn headers_from_reader_reports_truncated_input() {
    let mut reader = Reader::new(b"Host: x\r\n".to_vec());
    assert!(matches!(
        HttpHeaders::from_reader(&mut reader),
        Err(Error::RequestUnexpectedlyEnded)
    ));
}

#[test]
fn headers_from_reader_reports_a_bad_terminator() {
    let mut reader = Reader::new(b"A: b\nrest".to_vec());
    assert!(matches!(
        HttpHeaders::from_reader(&mut reader),
        Err(Error::ReadError(request_reader::Error::NoCRLF))
    ));
}

#[test]
fn headers_from_reader_reports_a_bad_encoding() {
    let mut reader = Reader::new(vec![0xff, 0xfe, 13, 10]);
    assert!(matches!(
        HttpHeaders::from_reader(&mut reader),
        Err(Error::ReadError(request_reader::Error::ReadFailed(_)))
    ));
}

#[test]
fn body_from_reader_reads_the_rest_as_text() {
    let mut reader = Reader::new(b"Content-Type: text/plain\r\n\r\nhello body".to_vec());
    let headers = HttpHeaders::from_reader(&mut reader).expect("should parse");
    let body = HttpRequestBody::from_reader(&mut reader, &headers).expect("should read");
    assert_eq!(body.text, "hello body");
    assert!(body.fields.is_none());
    assert!(body.files.is_none());
}

#[test]
fn body_from_reader_requires_a_content_type() {
    let mut reader = Reader::new(b"\r\nanything".to_vec());
    let headers = HttpHeaders::from_reader(&mut reader).expect("should parse");
    match HttpRequestBody::from_reader(&mut reader, &headers) {
        Err(Error::InvalidHeader(name, what)) => {
            assert_eq!(name, "Content-Type");
            assert_eq!(what, "<not present>");
        },
        _ => panic!("expected a missing header"),
    }
}

#[test]
fn method_tokens_round_trip() {
    let verbs = [
        ("GET", HttpMethod::Get),
        ("PUT", HttpMethod::Put),
        ("HEAD", HttpMethod::Head),
        ("POST", HttpMethod::Post),
        ("PATCH", HttpMethod::Patch),
        ("DELETE", HttpMethod::Delete),
    ];
    for (token, verb) in verbs {
        assert_eq!(HttpMethod::try_from(token), Some(verb));
        assert_eq!(verb.as_token(), token);
    }
    assert_eq!(HttpMethod::try_from("get"), None);
    assert_eq!(HttpMethod::try_from("BREW"), None);
}

#[test]
fn decimal_helpers_are_exact() {
    assert_eq!(parse_usize("0"), Some(0));
    assert_eq!(parse_usize("405"), Some(405));
    assert_eq!(parse_usize(""), None);
    assert_eq!(parse_usize("12a"), None);
    assert_eq!(parse_usize("99999999999999999999999999"), None);
    assert_eq!(u64_to_dec_string(0), "0");
    assert_eq!(u64_to_dec_string(10), "10");
    assert_eq!(u64_to_dec_string(40518), "40518");
}

#[test]
fn string_comparisons_fold_ascii_case() {
    assert!(str_eq_fold("Content-Type", "content-type"));
    assert!(str_eq_fold("ABC", "abc"));
    assert!(!str_eq_fold("abc", "abd"));
    assert!(str_eq("same", "same"));
    assert!(!str_eq("same", "Same"));
}

#[test]
fn response_carries_its_status() {
    let r = HttpResponse::new(503);
    assert_eq!(r.status, 503);
}
