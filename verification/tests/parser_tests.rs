use swagweb::content::Content;
use swagweb::headers::Headers;
use swagweb::parser::{attach_spool, extract_boundary, extract_content_length, parse, BodyChunks, Error, ParsedContent};

fn plain_headers() -> Headers {
    Headers::new()
}

fn body_of(chunks: Vec<Vec<u8>>) -> BodyChunks {
    BodyChunks { chunks, transport_failed: false }
}

#[test]
fn get_ping_empty_body_is_plain_empty() {
    let r = parse(
        "/ping".to_string(),
        "GET".to_string(),
        plain_headers(),
        body_of(vec![]),
    );
    match r {
        Ok(p) => {
            assert_eq!(p.path, "/ping");
            assert_eq!(p.method, "GET");
            match p.content {
                ParsedContent::Plain(t) => assert_eq!(t, ""),
                _ => panic!("expected plain content"),
            }
        },
        Err(_) => panic!("expected success"),
    }
}

#[test]
fn plain_text_is_concatenation_of_chunks() {
    let mut headers = Headers::new();
    headers.insert("Content-Length".to_string(), "5".to_string());
    let r = parse(
        "/submit".to_string(),
        "POST".to_string(),
        headers,
        body_of(vec![b"he".to_vec(), b"llo".to_vec()]),
    );
    match r {
        Ok(p) => match p.content {
            ParsedContent::Plain(t) => assert_eq!(t, "hello"),
            _ => panic!("expected plain content"),
        },
        Err(_) => panic!("expected success"),
    }
}

#[test]
fn content_length_hint_never_changes_result() {
    let mut headers = Headers::new();
    headers.insert("Content-Length".to_string(), "999".to_string());
    let r = parse(
        "/submit".to_string(),
        "POST".to_string(),
        headers,
        body_of(vec![b"abc".to_vec()]),
    );
    match r {
        Ok(p) => match p.content {
            ParsedContent::Plain(t) => assert_eq!(t, "abc"),
            _ => panic!("expected plain content"),
        },
        Err(_) => panic!("expected success"),
    }
}

#[test]
fn transport_cut_aborts_parse() {
    let r = parse(
        "/x".to_string(),
        "GET".to_string(),
        plain_headers(),
        BodyChunks { chunks: vec![b"partial".to_vec()], transport_failed: true },
    );
    assert!(matches!(r, Err(Error::Transport)));
}

#[test]
fn unknown_verb_is_a_parse_error() {
    let r = parse(
        "/x".to_string(),
        "BREW".to_string(),
        plain_headers(),
        body_of(vec![]),
    );
    match r {
        Err(Error::UnknownMethod(m)) => assert_eq!(m, "BREW"),
        _ => panic!("expected unknown method error"),
    }
}

#[test]
fn plain_invalid_utf8_is_a_hard_error() {
    let r = parse(
        "/x".to_string(),
        "POST".to_string(),
        plain_headers(),
        body_of(vec![vec![0xff, 0xfe]]),
    );
    assert!(matches!(r, Err(Error::PlainInvalidUtf8)));
}

fn multipart_headers(boundary: &str) -> Headers {
    let mut headers = Headers::new();
    headers.insert(
        "Content-Type".to_string(),
        format!("multipart/form-data; boundary={}", boundary),
    );
    headers
}

#[test]
fn multipart_one_field_one_file() {
    let body = b"--X\r\nContent-Disposition: form-data; name=\"name\"\r\n\r\nAlice\r\n--X\r\nContent-Disposition: form-data; name=\"upload\"; filename=\"a.txt\"\r\n\r\nhi\r\n--X--".to_vec();
    let r = parse(
        "/upload".to_string(),
        "POST".to_string(),
        multipart_headers("X"),
        body_of(vec![body]),
    );
    match r {
        Ok(p) => match p.content {
            ParsedContent::Multipart(md) => {
                assert_eq!(md.fields.len(), 1);
                assert_eq!(md.fields[0].0, "name");
                assert_eq!(md.fields[0].1, "Alice");
                assert_eq!(md.file_parts.len(), 1);
                assert_eq!(md.file_parts[0].name, "a.txt");
                assert_eq!(md.file_parts[0].data, b"hi".to_vec());
            },
            _ => panic!("expected multipart content"),
        },
        Err(_) => panic!("expected success"),
    }
}

#[test]
fn multipart_field_invalid_utf8_names_the_field() {
    let mut body = b"--X\r\nContent-Disposition: form-data; name=\"name\"\r\n\r\n".to_vec();
    body.extend_from_slice(&[0xff, 0xfe]);
    body.extend_from_slice(b"\r\n--X--");
    let r = parse(
        "/upload".to_string(),
        "POST".to_string(),
        multipart_headers("X"),
        body_of(vec![body]),
    );
    match r {
        Err(Error::FieldInvalidUtf8(n)) => assert_eq!(n, "name"),
        _ => panic!("expected field encoding error"),
    }
}

#[test]
fn multipart_malformed_framing_is_reported() {
    let r = parse(
        "/upload".to_string(),
        "POST".to_string(),
        multipart_headers("X"),
        body_of(vec![b"not a multipart body".to_vec()]),
    );
    match r {
        Err(Error::Multipart(m)) => assert_eq!(m, "malformed multipart body"),
        _ => panic!("expected multipart error"),
    }
}

#[test]
fn multipart_invalid_name_encoding_is_reported() {
    let mut body = b"--X\r\nContent-Disposition: form-data; name=\"".to_vec();
    body.push(0xff);
    body.extend_from_slice(b"\"\r\n\r\nv\r\n--X--");
    let r = parse(
        "/upload".to_string(),
        "POST".to_string(),
        multipart_headers("X"),
        body_of(vec![body]),
    );
    match r {
        Err(Error::Multipart(m)) => assert_eq!(m, "invalid part header encoding"),
        _ => panic!("expected multipart error"),
    }
}

#[test]
fn multipart_truncated_body_is_reported() {
    let body = b"--X\r\nContent-Disposition: form-data; name=\"a\"\r\n\r\nvalue".to_vec();
    let r = parse(
        "/upload".to_string(),
        "POST".to_string(),
        multipart_headers("X"),
        body_of(vec![body]),
    );
    assert!(matches!(r, Err(Error::Multipart(_))));
}

#[test]
fn multipart_part_without_names_is_ignored() {
    let body =
        b"--X\r\nContent-Disposition: form-data\r\n\r\nignored\r\n--X\r\nContent-Disposition: form-data; name=\"k\"\r\n\r\nv\r\n--X--"
            .to_vec();
    let r = parse(
        "/upload".to_string(),
        "POST".to_string(),
        multipart_headers("X"),
        body_of(vec![body]),
    );
    match r {
        Ok(p) => match p.content {
            ParsedContent::Multipart(md) => {
                assert_eq!(md.fields.len(), 1);
                assert_eq!(md.fields[0].0, "k");
                assert_eq!(md.fields[0].1, "v");
                assert_eq!(md.file_parts.len(), 0);
            },
            _ => panic!("expected multipart content"),
        },
        Err(_) => panic!("expected success"),
    }
}

#[test]
fn multipart_repeated_field_keeps_last_value() {
    let body =
        b"--X\r\nContent-Disposition: form-data; name=\"k\"\r\n\r\nfirst\r\n--X\r\nContent-Disposition: form-data; name=\"k\"\r\n\r\nsecond\r\n--X--"
            .to_vec();
    let r = parse(
        "/upload".to_string(),
        "POST".to_string(),
        multipart_headers("X"),
        body_of(vec![body]),
    );
    match r {
        Ok(p) => match p.content {
            ParsedContent::Multipart(md) => {
                assert_eq!(md.fields.len(), 1);
                assert_eq!(md.fields[0].0, "k");
                assert_eq!(md.fields[0].1, "second");
            },
            _ => panic!("expected multipart content"),
        },
        Err(_) => panic!("expected success"),
    }
}

#[test]
fn attach_spool_pairs_names_with_paths() {
    let body = b"--X\r\nContent-Disposition: form-data; name=\"name\"\r\n\r\nAlice\r\n--X\r\nContent-Disposition: form-data; name=\"upload\"; filename=\"a.txt\"\r\n\r\nhi\r\n--X--".to_vec();
    let parsed = parse(
        "/upload".to_string(),
        "POST".to_string(),
        multipart_headers("X"),
        body_of(vec![body]),
    )
    .ok()
    .expect("parse should succeed");
    let request = attach_spool(
        parsed,
        "/scratch/r1".to_string(),
        vec!["/scratch/r1/1".to_string()],
    );
    assert_eq!(request.path().as_str(), "/upload");
    assert_eq!(request.method().as_str(), "POST");
    match request.content() {
        Content::Multipart(m) => {
            assert_eq!(m.fields().len(), 1);
            assert_eq!(m.fields()[0].0, "name");
            assert_eq!(m.fields()[0].1, "Alice");
            assert_eq!(m.files().len(), 1);
            assert_eq!(m.files()[0].0, "a.txt");
            assert_eq!(m.files()[0].1, "/scratch/r1/1");
            assert_eq!(m.files_dir().as_str(), "/scratch/r1");
        },
        _ => panic!("expected multipart content"),
    }
}

#[test]
fn attach_spool_passes_plain_through() {
    let parsed = parse(
        "/ping".to_string(),
        "GET".to_string(),
        plain_headers(),
        body_of(vec![]),
    )
    .ok()
    .expect("parse should succeed");
    let request = attach_spool(parsed, String::new(), vec![]);
    match request.content() {
        Content::Plain(t) => assert_eq!(t, ""),
        _ => panic!("expected plain content"),
    }
}

#[test]
fn boundary_extraction_follows_content_type() {
    let headers = multipart_headers("ABCDEFG");
    assert_eq!(extract_boundary(&headers), Some("ABCDEFG".to_string()));
    let mut plain = Headers::new();
    plain.insert("Content-Type".to_string(), "text/plain".to_string());
    assert_eq!(extract_boundary(&plain), None);
    assert_eq!(extract_boundary(&Headers::new()), None);
}

#[test]
fn content_length_parses_or_defaults_to_zero() {
    let mut h = Headers::new();
    h.insert("Content-Length".to_string(), "42".to_string());
    assert_eq!(extract_content_length(&h), 42);
    let mut bad = Headers::new();
    bad.insert("Content-Length".to_string(), "abc".to_string());
    assert_eq!(extract_content_length(&bad), 0);
    assert_eq!(extract_content_length(&Headers::new()), 0);
}
