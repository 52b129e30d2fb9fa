use muon::handlers::{path_join, sanitize_path};

#[test]
fn parent_components_cannot_climb_out() {
    assert_eq!(sanitize_path("/a/../../b"), "b");
    assert_eq!(sanitize_path("../../etc/passwd"), "etc/passwd");
    assert_eq!(sanitize_path(".."), "");
}

#[test]
fn backslashes_are_separators() {
    assert_eq!(sanitize_path("..\\..\\etc\\passwd"), "etc/passwd");
    assert_eq!(sanitize_path("a\\b"), "a/b");
}

#[test]
fn query_fragment_and_colon_end_the_path() {
    assert_eq!(sanitize_path("/index.html?x=../../y"), "index.html");
    assert_eq!(sanitize_path("/page#top"), "page");
    assert_eq!(sanitize_path("C:\\windows"), "C");
}

#[test]
fn empty_and_dot_components_are_skipped() {
    assert_eq!(sanitize_path("/a/./b//c/"), "a/b/c");
    assert_eq!(sanitize_path("/"), "");
    assert_eq!(sanitize_path(""), "");
    assert_eq!(sanitize_path("/a/b/../c"), "a/c");
}

#[test]
fn sanitizing_twice_is_sanitizing_once() {
    for p in ["/a/../../b/./c?d", "..\\x\\..\\y", "/x//y/../z#f", "...", "/.../a"] {
        let once = sanitize_path(p);
        assert_eq!(sanitize_path(&once), once);
        assert!(!once.starts_with('/'));
        assert!(once.split('/').all(|c| c != ".." && c != "."));
    }
}

#[test]
fn joining_paths() {
    assert_eq!(path_join("public", "a/b"), "public/a/b");
    assert_eq!(path_join("public/", "a"), "public/a");
    assert_eq!(path_join("", "a"), "a");
    assert_eq!(path_join("public", "/etc"), "/etc");
    assert_eq!(path_join("public", ""), "public/");
}
