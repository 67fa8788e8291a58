use verve::ssh::local_tree::{plan_local_tree, text_less, WalkEntry, WalkKind};

fn entry(rel: &str, depth: usize, kind: WalkKind) -> WalkEntry {
    WalkEntry { rel: rel.to_string(), depth, kind }
}

#[test]
fn plan_lists_dirs_files_and_sizes_parents_first() {
    // Walk order as a directory walk may give it: not sorted.
    let entries = vec![
        entry("", 0, WalkKind::Dir),
        entry("中文目录", 1, WalkKind::Dir),
        entry("中文目录/文件.txt", 2, WalkKind::File { size: 2 }),
        entry("sub", 1, WalkKind::Dir),
        entry("sub/deep", 2, WalkKind::Dir),
        entry("sub/deep/c.txt", 3, WalkKind::File { size: 0 }),
        entry("sub/b.txt", 2, WalkKind::File { size: 5 }),
        entry("empty_dir", 1, WalkKind::Dir),
        entry("a.txt", 1, WalkKind::File { size: 3 }),
    ];
    let plan = plan_local_tree(&entries);
    assert_eq!(
        plan.dirs,
        vec![
            String::new(),
            "empty_dir".to_string(),
            "sub".to_string(),
            "sub/deep".to_string(),
            "中文目录".to_string(),
        ]
    );
    let rels: Vec<&str> = plan.files.iter().map(|f| f.rel.as_str()).collect();
    assert_eq!(rels, vec!["a.txt", "sub/b.txt", "sub/deep/c.txt", "中文目录/文件.txt"]);
    assert_eq!(plan.files.iter().map(|f| f.size).sum::<u64>(), 10);
    assert!(plan.skipped.is_empty());
}

#[test]
fn plan_of_empty_dir_is_root_only() {
    let plan = plan_local_tree(&vec![entry("", 0, WalkKind::Dir)]);
    assert_eq!(plan.dirs, vec![String::new()]);
    assert!(plan.files.is_empty());
    assert!(plan.skipped.is_empty());
}

#[test]
fn plan_skips_dir_links_and_unreadable_entries() {
    let entries = vec![
        entry("", 0, WalkKind::Dir),
        entry("real", 1, WalkKind::Dir),
        entry("real/f.txt", 2, WalkKind::File { size: 1 }),
        entry("dirlink", 1, WalkKind::Special { file_size: None }),
        entry("filelink", 1, WalkKind::Special { file_size: Some(1) }),
        entry("locked", 1, WalkKind::Unreadable),
    ];
    let plan = plan_local_tree(&entries);
    assert!(plan.dirs.contains(&"real".to_string()));
    assert!(!plan.dirs.contains(&"dirlink".to_string()));
    let rels: Vec<&str> = plan.files.iter().map(|f| f.rel.as_str()).collect();
    assert_eq!(rels, vec!["filelink", "real/f.txt"]);
    assert_eq!(plan.skipped, vec!["dirlink".to_string(), "locked".to_string()]);
}

#[test]
fn text_order_is_code_point_order() {
    assert!(text_less("a", "b"));
    assert!(text_less("sub", "sub/deep"));
    assert!(!text_less("sub/deep", "sub"));
    assert!(!text_less("x", "x"));
    assert!(text_less("z", "中"));
    assert_eq!(text_less("sub/b.txt", "sub/deep"), "sub/b.txt" < "sub/deep");
}
