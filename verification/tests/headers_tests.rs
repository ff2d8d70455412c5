use swagweb::headers::{convert_headers, Headers};

#[test]
fn lookup_is_case_insensitive() {
    let mut h = Headers::new();
    h.insert("Content-Type".to_string(), "text/plain".to_string());
    assert_eq!(h.get("content-type"), Some(&"text/plain".to_string()));
    assert_eq!(h.get("CONTENT-TYPE"), Some(&"text/plain".to_string()));
    assert_eq!(h.get("Content-Length"), None);
}

#[test]
fn repeated_insert_replaces_the_value_and_keeps_one_entry() {
    let mut h = Headers::new();
    h.insert("Accept".to_string(), "text/html".to_string());
    h.insert("accept".to_string(), "application/json".to_string());
    assert_eq!(h.len(), 1);
    assert_eq!(h.get("ACCEPT"), Some(&"application/json".to_string()));
    // The first spelling of the name is the one stored.
    assert_eq!(h.pairs()[0].0, "Accept");
}

#[test]
fn convert_headers_keeps_visible_ascii_values() {
    let raw = vec![
        ("host".to_string(), b"example.org".to_vec()),
        ("x-bin".to_string(), vec![0x00, 0x01]),
        ("x-utf8".to_string(), "caf\u{e9}".as_bytes().to_vec()),
        ("accept".to_string(), b"*/*".to_vec()),
    ];
    let h = convert_headers(&raw);
    assert_eq!(h.len(), 2);
    assert_eq!(h.get("Host"), Some(&"example.org".to_string()));
    assert_eq!(h.get("Accept"), Some(&"*/*".to_string()));
    assert_eq!(h.get("x-bin"), None);
    assert_eq!(h.get("x-utf8"), None);
}

#[test]
fn convert_headers_last_value_wins() {
    let raw = vec![
        ("a".to_string(), b"one".to_vec()),
        ("A".to_string(), b"two".to_vec()),
    ];
    let h = convert_headers(&raw);
    assert_eq!(h.len(), 1);
    assert_eq!(h.get("a"), Some(&"two".to_string()));
}
