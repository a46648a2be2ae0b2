use juicehost::storage::content::{add_charset, detect_extension, guess_mime};
use juicehost::storage::s3::S3Backend;

#[test]
fn guess_mime_txt() {
    let mime = guess_mime("txt");
    assert!(mime.starts_with("text/plain"));
    assert!(mime.contains("charset=utf-8"));
}

#[test]
fn guess_mime_html() {
    let mime = guess_mime("html");
    assert!(mime.starts_with("text/html"));
}

#[test]
fn guess_mime_png() {
    assert_eq!(guess_mime("png"), "image/png");
}

#[test]
fn guess_mime_unknown() {
    let mime = guess_mime("xyz");
    assert!(!mime.is_empty());
}

#[test]
fn guess_mime_no_ext() {
    assert_eq!(guess_mime("bin"), "application/octet-stream");
}

#[test]
fn only_text_has_a_charset() {
    assert_eq!(add_charset("text/csv".to_owned()), "text/csv; charset=utf-8");
    assert_eq!(add_charset("texture/x".to_owned()), "texture/x");
}

#[test]
fn text_types_are_those_of_the_mime_crate() {
    for ext in ["txt", "html", "css", "js", "json", "xml", "svg", "md", "csv", "wasm", "mp4"] {
        let mime = mime_guess::from_path(format!("file.{ext}")).first_or_octet_stream();
        let expected = if mime.type_() == mime_guess::mime::TEXT {
            format!("{mime}; charset=utf-8")
        } else {
            mime.to_string()
        };
        assert_eq!(guess_mime(ext), expected);
    }
}

#[test]
fn contents_are_recognised() {
    assert_eq!(
        detect_extension(&b"\x89PNG\r\n\x1a\n".to_vec()),
        Some("png".to_owned())
    );
    assert_eq!(
        detect_extension(&b"%PDF-1.4 data".to_vec()),
        Some("pdf".to_owned())
    );
    assert_eq!(detect_extension(&b"plain".to_vec()), None);
    assert_eq!(detect_extension(&vec![]), None);
}

#[test]
fn s3_object_key() {
    assert_eq!(S3Backend::object_key("abc123", "png"), "files/abc123.png");
}

#[test]
fn s3_keys() {
    assert_eq!(S3Backend::reservation_key("a"), "files/.reservations/a");
    assert_eq!(S3Backend::temp_key("a", "txt", 3, 4), "files/.a.3.4.txt.tmp");
    assert_eq!(S3Backend::list_prefix(), "files");
    assert_eq!(S3Backend::object_key("a//b", "x"), "files/a/b.x");
}
