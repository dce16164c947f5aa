use gm_cli::path::{has_root, join_path, resolve_path, resolve_tokens};

fn tokens(list: &[&str]) -> Vec<String> {
    list.iter().map(|s| s.to_string()).collect()
}

#[test]
fn resolve_drops_current_and_empty_segments() {
    assert_eq!(resolve_path("/a/./b//c/"), "/a/b/c");
}

#[test]
fn resolve_parent_removes_last_segment() {
    assert_eq!(resolve_path("/a/b/../c"), "/a/c");
}

#[test]
fn resolve_same_segment_again() {
    assert_eq!(resolve_path("a/../a"), resolve_path("a"));
    assert_eq!(resolve_path("a/../a"), "/a");
}

#[test]
fn resolve_parent_at_root_is_no_op() {
    assert_eq!(resolve_path("../../x"), resolve_path("x"));
    assert_eq!(resolve_path("/../../x"), "/x");
    assert_eq!(resolve_path("/.."), "/");
}

#[test]
fn resolve_empty_is_root() {
    assert_eq!(resolve_path(""), "/");
    assert_eq!(resolve_path("/"), "/");
    assert_eq!(resolve_path("."), "/");
}

#[test]
fn resolve_is_idempotent_on_examples() {
    for p in ["", "/", "a/b/../c", "/x/./y//z/..", "../..", "/..a/.b/..."] {
        let once = resolve_path(p);
        assert_eq!(resolve_path(&once), once);
    }
}

#[test]
fn resolve_keeps_dotted_names() {
    assert_eq!(resolve_path("/..a/.b/..."), "/..a/.b/...");
}

#[test]
fn join_relative_and_absolute() {
    assert_eq!(join_path("/a", "b"), "/a/b");
    assert_eq!(join_path("/a/", "b"), "/a/b");
    assert_eq!(join_path("/a", "/b"), "/b");
    assert_eq!(join_path("", "b"), "b");
    assert_eq!(join_path("/", "b"), "/b");
    assert_eq!(join_path("/a", ""), "/a/");
}

#[test]
fn has_root_looks_at_first_character() {
    assert!(has_root("/a"));
    assert!(!has_root("a/"));
    assert!(!has_root(""));
}

#[test]
fn tokens_same_segment_again() {
    assert_eq!(resolve_tokens(&tokens(&["a", "..", "a"])), resolve_tokens(&tokens(&["a"])));
    assert_eq!(resolve_tokens(&tokens(&["a", "..", "a"])), "/a");
}

#[test]
fn tokens_parent_at_root_is_no_op() {
    assert_eq!(resolve_tokens(&tokens(&["..", "..", "x"])), resolve_tokens(&tokens(&["x"])));
    assert_eq!(resolve_tokens(&tokens(&["..", "..", "x"])), "/x");
    assert_eq!(resolve_tokens(&tokens(&["/", "..", ".."])), "/");
}

#[test]
fn tokens_root_resets() {
    assert_eq!(resolve_tokens(&tokens(&["a", "b", "/", "c"])), "/c");
    assert_eq!(resolve_tokens(&tokens(&["a", "", ".", "b"])), "/a/b");
    assert_eq!(resolve_tokens(&tokens(&[])), "/");
    assert_eq!(resolve_tokens(&tokens(&["/"])), "/");
}

#[test]
fn tokens_resolve_is_idempotent_on_examples() {
    for list in [&["a", "..", "b"][..], &["/", "x", ".", "y"], &["..", ".."], &["...", "a"]] {
        let once = resolve_tokens(&tokens(list));
        assert_eq!(resolve_path(&once), once);
    }
}
