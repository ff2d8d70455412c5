use swagweb::content::{Content, Multipart};
use swagweb::context::HttpContext;
use swagweb::extractors::{Base, Body, BodyKind, ContextVar, Extracted, Extractor, Header, Headers};
use swagweb::request::Request;

fn plain_context(text: &str) -> HttpContext {
    let mut headers = swagweb::headers::Headers::new();
    headers.insert("Content-Type".to_string(), "text/plain".to_string());
    headers.insert("X-Trace".to_string(), "abc123".to_string());
    let request = Request::new(
        "/echo".to_string(),
        "POST".to_string(),
        headers,
        Content::Plain(text.to_string()),
    );
    HttpContext::new(request)
}

fn multipart_context() -> HttpContext {
    let m = Multipart::new(
        vec![("name".to_string(), "Alice".to_string())],
        vec![("a.txt".to_string(), "/scratch/1".to_string())],
        "/scratch".to_string(),
    );
    let request = Request::new(
        "/upload".to_string(),
        "POST".to_string(),
        swagweb::headers::Headers::new(),
        Content::Multipart(m),
    );
    HttpContext::new(request)
}

#[test]
fn body_text_extracts_plain_text() {
    let (body, base) = Body::new(BodyKind::Text);
    assert_eq!(base.tag, 0);
    let ctx = plain_context("hello");
    assert_eq!(body.extract(&ctx), Extracted::Text("hello".to_string()));
}

#[test]
fn body_text_on_multipart_yields_the_sentinel() {
    let (body, _) = Body::new(BodyKind::Text);
    let ctx = multipart_context();
    assert_eq!(body.extract(&ctx), Extracted::Text("<invalid utf-8>".to_string()));
}

#[test]
fn body_bytes_extracts_raw_bytes() {
    let (body, _) = Body::new(BodyKind::Bytes);
    let ctx = plain_context("hi");
    assert_eq!(body.extract(&ctx), Extracted::OptBytes(Some(b"hi".to_vec())));
}

#[test]
fn body_bytes_on_multipart_is_absent() {
    let (body, _) = Body::new(BodyKind::Bytes);
    let ctx = multipart_context();
    assert_eq!(body.extract(&ctx), Extracted::OptBytes(None));
}

#[test]
fn headers_extractor_projects_the_mapping() {
    let (headers, base) = Headers::new();
    assert_eq!(base.tag, 1);
    let ctx = plain_context("x");
    match headers.extract(&ctx) {
        Extracted::Mapping(m) => {
            assert_eq!(m.len(), 2);
            assert_eq!(m[0].0, "Content-Type");
            assert_eq!(m[0].1, "text/plain");
            assert_eq!(m[1].0, "X-Trace");
            assert_eq!(m[1].1, "abc123");
        },
        _ => panic!("expected a mapping"),
    }
}

#[test]
fn header_extractor_is_case_insensitive() {
    let (header, base) = Header::new("x-trace".to_string());
    assert_eq!(base.tag, 2);
    let ctx = plain_context("x");
    assert_eq!(header.extract(&ctx), Extracted::OptText(Some("abc123".to_string())));
}

#[test]
fn absent_header_is_an_absent_value() {
    let (header, _) = Header::new("X-Missing".to_string());
    let ctx = plain_context("x");
    assert_eq!(header.extract(&ctx), Extracted::OptText(None));
}

#[test]
fn context_var_extractor_reads_vars() {
    let (var, base) = ContextVar::new("user".to_string());
    assert_eq!(base.tag, 3);
    let mut ctx = plain_context("x");
    assert_eq!(var.extract(&ctx), Extracted::OptText(None));
    ctx.set_var("user".to_string(), "alice".to_string());
    assert_eq!(var.extract(&ctx), Extracted::OptText(Some("alice".to_string())));
}

#[test]
fn extraction_is_idempotent() {
    let ctx = plain_context("same");
    let (body, _) = Body::new(BodyKind::Text);
    assert_eq!(body.extract(&ctx), body.extract(&ctx));
    let (header, _) = Header::new("X-Trace".to_string());
    assert_eq!(header.extract(&ctx), header.extract(&ctx));
    let (headers, _) = Headers::new();
    assert_eq!(headers.extract(&ctx), headers.extract(&ctx));
    let (var, _) = ContextVar::new("missing".to_string());
    assert_eq!(var.extract(&ctx), var.extract(&ctx));
}

#[test]
fn base_carries_the_discriminant() {
    let base = Base { tag: 7 };
    assert_eq!(base.tag, 7);
}
