use devbox_core::paths::{normalize_path, validate_path};

#[test]
fn test_normalize_path() {
    let cases = vec![
        // Basic cases
        ("a/b/c", "a/b/c"),
        ("a/./b", "a/b"),
        ("a/../b", "b"),
        ("a/b/../../c", "c"),
        // Root path cases
        ("/", "/"),
        ("/a/b", "/a/b"),
        ("/a/./b", "/a/b"),
        ("/a/../b", "/b"),
        // Boundary cases
        (".", ""),
        ("..", ""),
        ("../a", "a"),
        ("/..", "/"),
        ("/../a", "/a"),
        // Complex cases
        ("a/./b/../c/./d", "a/c/d"),
        ("/a/b/c/../../d", "/a/d"),
    ];

    for (input, expected) in cases {
        assert_eq!(normalize_path(input), expected, "Failed for input: {}", input);
    }
}

#[test]
fn test_validate_path() {
    let base = "/home/devbox/project";

    // Absolute paths are allowed through, by the explicit insecure contract.
    let res = validate_path(base, "/etc/passwd");
    assert_eq!(res, "/etc/passwd");

    // Relative paths resolve against the workspace root.
    let res = validate_path(base, "src/main.rs");
    assert_eq!(res, "/home/devbox/project/src/main.rs");

    // Relative traversal is resolved textually.
    let res = validate_path(base, "src/../lib.rs");
    assert_eq!(res, "/home/devbox/project/lib.rs");

    // Traversal may escape the workspace, by the same explicit contract:
    // two levels up from the root, then down into etc.
    let res = validate_path(base, "../../etc/passwd");
    assert_eq!(res, "/home/etc/passwd");

    // Three levels up reach the filesystem root.
    let res = validate_path(base, "../../../etc/passwd");
    assert_eq!(res, "/etc/passwd");
}

#[test]
fn test_validate_path_parent_stays_in_ancestry() {
    // `..` resolves to the workspace root's parent directory.
    assert_eq!(validate_path("/home/devbox/project", ".."), "/home/devbox");
    // An empty resolution becomes `.`.
    assert_eq!(validate_path("/a", ".."), "/");
    assert_eq!(validate_path("a", ".."), ".");
}

#[test]
fn test_validate_path_empty_and_dot() {
    assert_eq!(validate_path("/ws", ""), "/ws");
    assert_eq!(validate_path("/ws", "."), "/ws");
    assert_eq!(normalize_path("a//b"), "a/b");
}
