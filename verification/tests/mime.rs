use tinyhttpd::conn::mime_from_path;

#[test]
fn mime_table_matches_documented_types() {
    assert_eq!(mime_from_path("index.html"), Some("text/html; charset=utf-8"));
    assert_eq!(mime_from_path("page.htm"), Some("text/html; charset=utf-8"));
    assert_eq!(mime_from_path("notes.txt"), Some("text/plain"));
    assert_eq!(mime_from_path("style.css"), Some("text/css"));
    assert_eq!(mime_from_path("app.js"), Some("application/javascript; charset=utf-8"));
    assert_eq!(mime_from_path("logo.png"), Some("image/png"));
    assert_eq!(mime_from_path("photo.jpg"), Some("image/jpeg"));
    assert_eq!(mime_from_path("photo.jpeg"), Some("image/jpeg"));
    assert_eq!(mime_from_path("pic.webp"), Some("image/webp"));
}

#[test]
fn mime_unknown_or_absent_extension_is_none() {
    assert_eq!(mime_from_path("archive.tar.gz"), None);
    assert_eq!(mime_from_path("README"), None);
    assert_eq!(mime_from_path(""), None);
    assert_eq!(mime_from_path("ends-with-dot."), None);
    assert_eq!(mime_from_path(".bashrc"), None);
}

#[test]
fn mime_reads_the_last_component() {
    assert_eq!(mime_from_path("content/index.html"), Some("text/html; charset=utf-8"));
    assert_eq!(mime_from_path("site.css/readme"), None);
    assert_eq!(mime_from_path("a.b/c.txt"), Some("text/plain"));
}
