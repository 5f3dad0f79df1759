use rs9p::walk::walk_depth;

#[test]
fn test_depth_tracking() {
    // Depth increases with normal paths
    let mut depth: usize = 0;

    // Going down: a/b/c
    for name in ["a", "b", "c"] {
        depth = walk_depth(depth, name, None).unwrap();
    }
    assert_eq!(depth, 3);

    // Going back up with ".."
    depth = walk_depth(depth, "..", None).unwrap();
    assert_eq!(depth, 2);

    // "." does not change depth
    let original = depth;
    depth = walk_depth(depth, ".", None).unwrap();
    assert_eq!(depth, original);

    // Multiple ".." bring us back to 0
    depth = walk_depth(depth, "..", None).unwrap();
    depth = walk_depth(depth, "..", None).unwrap();
    assert_eq!(depth, 0);

    // ".." at the root stays at the root
    depth = walk_depth(depth, "..", None).unwrap();
    assert_eq!(depth, 0);
}

#[test]
fn test_max_depth_logic() {
    let max_depth = 5_usize;
    let mut current_depth: usize = 3;

    // Going to depth 4 and 5 is allowed
    current_depth = walk_depth(current_depth, "d", Some(max_depth)).unwrap();
    assert!(current_depth <= max_depth);

    current_depth = walk_depth(current_depth, "e", Some(max_depth)).unwrap();
    assert!(current_depth <= max_depth);

    // Depth 6 is refused
    assert!(walk_depth(current_depth, "f", Some(max_depth)).is_none());
}

#[test]
fn test_no_max_depth() {
    let max_depth: Option<usize> = None;
    let current_depth: usize = 1000;

    // With no max_depth, any depth is allowed
    match max_depth {
        Some(max) => assert!(current_depth <= max),
        None => {
            assert!(current_depth > 0);
            assert_eq!(walk_depth(current_depth, "deeper", max_depth), Some(1001));
        }
    }
}

#[test]
fn depth_dot_names_and_limits() {
    assert_eq!(walk_depth(0, ".", Some(0)), Some(0));
    assert_eq!(walk_depth(0, "..", Some(0)), Some(0));
    assert_eq!(walk_depth(0, "x", Some(0)), None);
    assert_eq!(walk_depth(usize::MAX, "x", None), None);
    assert_eq!(walk_depth(7, "...", Some(8)), Some(8));
}
