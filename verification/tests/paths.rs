use avm::paths::{join, same_path};

#[test]
fn join_follows_path_join() {
    assert_eq!(join("/a", "b"), "/a/b");
    assert_eq!(join("/a/", "b"), "/a/b");
    assert_eq!(join("", "b"), "b");
    assert_eq!(join("/a", "/b"), "/b");
}

#[test]
fn paths_compare_by_components() {
    assert!(same_path("/a/b", "/a//b/"));
    assert!(same_path("a/./b", "a/b"));
    assert!(!same_path("./a", "a"));
    assert!(!same_path("/a", "a"));
    assert!(!same_path("a/../b", "b"));
}
