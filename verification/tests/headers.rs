use tinyhttpd::headers::{canonicalize, HeaderMap};

#[test]
fn canonicalize_test() {
    assert_eq!(canonicalize("content-type"), "Content-Type");
    assert_eq!(canonicalize("Content-Type"), "Content-Type");
    assert_eq!(canonicalize("CONTENT-type"), "Content-Type");
}

#[test]
fn canonicalize_trims_and_segments() {
    assert_eq!(canonicalize("  host \r\n"), "Host");
    assert_eq!(canonicalize("x-forwarded-for"), "X-Forwarded-For");
    assert_eq!(canonicalize(""), "");
    assert_eq!(canonicalize("-a-"), "-A-");
}

#[test]
fn header_lookup_case_insensitive() {
    let mut m = HeaderMap::new();
    m.insert("content-type", "text/html");
    let v = m.get("Content-Type").expect("entry must resolve");
    assert_eq!(v.len(), 1);
    assert_eq!(v[0], "text/html");
    assert!(m.get("CONTENT-TYPE").is_some());
    assert!(m.get("content-length").is_none());
}

#[test]
fn header_values_keep_insertion_order() {
    let mut m = HeaderMap::new();
    m.insert("accept", "text/html");
    m.insert("Accept", "text/plain");
    assert_eq!(m.len(), 1);
    let v = m.get("ACCEPT").expect("entry must resolve");
    assert_eq!(v.len(), 2);
    assert_eq!(v[0], "text/html");
    assert_eq!(v[1], "text/plain");
    let e = m.entry_at(0);
    assert_eq!(e.0, "Accept");
}

#[test]
fn header_distinct_keys_keep_entry_order() {
    let mut m = HeaderMap::new();
    m.insert("b-key", "1");
    m.insert("a-key", "2");
    assert_eq!(m.len(), 2);
    assert_eq!(m.entry_at(0).0, "B-Key");
    assert_eq!(m.entry_at(1).0, "A-Key");
}
