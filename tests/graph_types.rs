use kip::graph_types::{compute_depth, edge_color, palette_color, path_contains, short_path};

#[test]
fn test_path_contains_basic() {
    assert!(path_contains("/a/b", "/a/b/c"));
    assert!(path_contains("/a/b/", "/a/b/c"));
}

#[test]
fn test_path_contains_not_prefix_trick() {
    // "/a/bc" is not inside "/a/b"
    assert!(!path_contains("/a/b", "/a/bc"));
}

#[test]
fn test_path_contains_same_path() {
    assert!(!path_contains("/a/b", "/a/b"));
}

#[test]
fn test_path_contains_unrelated() {
    assert!(!path_contains("/a/b", "/c/d"));
}

#[test]
fn test_compute_depth() {
    let paths = vec![
        "/Users/anders/projects",
        "/Users/anders/projects/kip",
        "/Users/anders/projects/kip/src",
        "/Users/anders/music",
    ];
    assert_eq!(compute_depth("/Users/anders/projects", &paths), 0);
    assert_eq!(compute_depth("/Users/anders/projects/kip", &paths), 1);
    assert_eq!(compute_depth("/Users/anders/projects/kip/src", &paths), 2);
    assert_eq!(compute_depth("/Users/anders/music", &paths), 0);
}

#[test]
fn palette_cycles() {
    assert_eq!(palette_color(0), "#4a9eff");
    assert_eq!(palette_color(5), "#58a6ff");
    assert_eq!(palette_color(6), "#4a9eff");
    assert_eq!(palette_color(8), "#d29922");
}

#[test]
fn edge_colors_by_status() {
    assert_eq!(edge_color("idle"), "#555");
    assert_eq!(edge_color("scanning"), "#4a9eff");
    assert_eq!(edge_color("transferring"), "#4a9eff");
    assert_eq!(edge_color("complete"), "#3fb950");
    assert_eq!(edge_color("needs_review"), "#d29922");
    assert_eq!(edge_color("failed"), "#f85149");
    assert_eq!(edge_color("bogus"), "#555");
}

#[test]
fn short_path_keeps_last_two_components() {
    assert_eq!(short_path("/a/b/c"), ".../b/c");
    assert_eq!(short_path("/Users/anders/projects/kip/"), ".../projects/kip");
    assert_eq!(short_path("/a/b"), "/a/b");
    assert_eq!(short_path("a"), "a");
    assert_eq!(short_path(""), "");
    assert_eq!(short_path("//x//y//z"), ".../y/z");
}
