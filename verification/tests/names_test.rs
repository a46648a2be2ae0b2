use juicehost::storage::names::{
    content_filename, extract_extension, is_valid_id, join_name, safe_extension, valid_component,
};

#[test]
fn is_valid_id_valid() {
    assert!(is_valid_id("abc-123"));
    assert!(is_valid_id("test_file"));
    assert!(is_valid_id("ABC123"));
}

#[test]
fn is_valid_id_empty() {
    assert!(!is_valid_id(""));
}

#[test]
fn is_valid_id_with_spaces() {
    assert!(!is_valid_id("has space"));
}

#[test]
fn is_valid_id_with_special_chars() {
    assert!(!is_valid_id("file@name"));
    assert!(!is_valid_id("file.txt"));
    assert!(!is_valid_id("file/here"));
}

#[test]
fn is_valid_id_with_underscores_and_dashes() {
    assert!(is_valid_id("my_file-123"));
}

#[test]
fn is_valid_id_follows_unicode() {
    assert!(is_valid_id("d\u{e9}j\u{e0}"));
    assert!(!is_valid_id("\u{2603}"));
    assert!(!valid_component("d\u{e9}j\u{e0}"));
    assert!(valid_component("deja-vu_1"));
    assert!(!valid_component(""));
    assert!(!valid_component("a.b"));
}

#[test]
fn extract_extension_with_ext() {
    assert_eq!(extract_extension("test.png"), "png");
}

#[test]
fn extract_extension_no_ext() {
    assert_eq!(extract_extension("noext"), "bin");
}

#[test]
fn extract_extension_double_ext() {
    assert_eq!(extract_extension("file.tar.gz"), "gz");
}

#[test]
fn extract_extension_agrees_with_std_paths() {
    for name in [
        "", ".", "..", "/", "a", "a.", ".a", ".a.b", "a.b", "a/b.c", "a.b/c", "a.b/", "a.b//", "a/.",
        "a.b/.", "a.b/./", "a/..", "..a", "...", "a..", "a..b", "/x.y", "./x.y", "x.y/..", ".x/.y.z/.",
        "d\u{e9}.t\u{ea}te",
    ] {
        let expected = std::path::Path::new(name)
            .extension()
            .and_then(|e| e.to_str())
            .unwrap_or("bin");
        assert_eq!(extract_extension(name), expected, "{name:?}");
    }
}

#[test]
fn safe_extension_lowers_and_replaces() {
    assert_eq!(safe_extension("A.PNG"), "png");
    assert_eq!(safe_extension("a.p g"), "bin");
    assert_eq!(safe_extension("a"), "bin");
    assert_eq!(safe_extension("a.t\u{e9}"), "bin");
}

#[test]
fn content_filename_agrees_with_std_paths() {
    for name in [
        "", ".", "..", "/", "a", "a.", ".a", ".a.b", "a.b", "a/b.c", "a.b/", "a.b/.", "x.y/..", "..a",
        "notes.txt", "a.tar.gz",
    ] {
        let stem = std::path::Path::new(name)
            .file_stem()
            .and_then(|s| s.to_str())
            .filter(|s| !s.is_empty())
            .unwrap_or("file");
        assert_eq!(content_filename(name, Some("png")), format!("{stem}.png"), "{name:?}");
        assert_eq!(content_filename(name, None), name);
    }
}

#[test]
fn recognised_content_decides_the_stored_extension() {
    assert_eq!(safe_extension(&content_filename("notes.txt", Some("png"))), "png");
    assert_eq!(safe_extension(&content_filename("notes.txt", None)), "txt");
}

#[test]
fn stored_names_read_back() {
    let name = join_name("my-id", "txt");
    assert_eq!(name, "my-id.txt");
    assert_eq!(extract_extension(&name), "txt");
}
