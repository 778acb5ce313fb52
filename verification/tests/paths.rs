use valedesk_core::paths::{path_escapes, temp_path};

#[test]
fn parent_segments_escape() {
    assert!(path_escapes("../../etc/passwd"));
    assert!(path_escapes(".."));
    assert!(path_escapes("a/.."));
    assert!(path_escapes("a/../b"));
    assert!(path_escapes("a//../b"));
}

#[test]
fn absolute_paths_escape() {
    assert!(path_escapes("/etc/passwd"));
    assert!(path_escapes("/"));
}

#[test]
fn contained_paths_do_not_escape() {
    assert!(!path_escapes(""));
    assert!(!path_escapes("model.bin"));
    assert!(!path_escapes("a/b..c/d.bin"));
    assert!(!path_escapes("..a/b"));
    assert!(!path_escapes("a../b"));
    assert!(!path_escapes("a/.../b"));
    assert!(!path_escapes("./a"));
}

#[test]
fn the_guard_agrees_with_the_standard_library_on_unix_paths() {
    for p in ["", "a", "a/b", "../x", "a/../b", "/abs", "a/..b", "..", "x/..", "./..", "a//b", "a/./b", "...", "a/b/"] {
        let path = std::path::Path::new(p);
        let expected = path.is_absolute()
            || path.components().any(|c| matches!(c, std::path::Component::ParentDir));
        assert_eq!(path_escapes(p), expected, "{:?}", p);
    }
}

#[test]
fn temporary_sibling() {
    assert_eq!(temp_path("encoder.bin"), Some("encoder.bin.partial".to_string()));
    assert_eq!(temp_path("sub/dir/model.onnx"), Some("sub/dir/model.onnx.partial".to_string()));
    assert_eq!(temp_path(".hidden"), Some(".hidden.partial".to_string()));
}

#[test]
fn paths_without_a_file_name_have_no_sibling() {
    assert_eq!(temp_path(""), None);
    assert_eq!(temp_path("dir/"), None);
    assert_eq!(temp_path("."), None);
    assert_eq!(temp_path("dir/."), None);
    assert_eq!(temp_path(".."), None);
    assert_eq!(temp_path("dir/.."), None);
}
