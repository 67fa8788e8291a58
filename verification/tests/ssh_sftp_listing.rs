use verve::ssh::sftp_listing::{ensure_dir_result, list_entries, skipped_note, RawDirEntry};

fn raw(name: &str, is_dir: bool) -> RawDirEntry {
    RawDirEntry { name: name.to_string(), size: None, is_dir, is_symlink: false, permissions: Some(0o644), mtime: Some(100) }
}

#[test]
fn listing_puts_directories_first_then_names_case_insensitively() {
    let entries = vec![
        raw("zeta.txt", false),
        raw(".", true),
        raw("Beta", true),
        raw("alpha.log", false),
        raw("..", true),
        raw("apple", true),
        raw("Alpha.log", false),
    ];
    let out = list_entries("/home/u/", &entries);
    let names: Vec<&str> = out.iter().map(|e| e.name.as_str()).collect();
    // Ties ("alpha.log" / "Alpha.log") keep their listed order.
    assert_eq!(names, vec!["apple", "Beta", "alpha.log", "Alpha.log", "zeta.txt"]);
    assert_eq!(out[0].path, "/home/u/apple");
    assert_eq!(out[2].size, 0);
    assert_eq!(out[2].permissions, 0o644);
    assert_eq!(out[2].modified, Some(100));
}

#[test]
fn listing_of_root_and_empty() {
    let out = list_entries("/", &vec![raw("etc", true)]);
    assert_eq!(out[0].path, "/etc");
    assert!(list_entries("/x", &vec![raw(".", true), raw("..", true)]).is_empty());
}

#[test]
fn skipped_notes() {
    assert_eq!(skipped_note(&vec![]), None);
    assert_eq!(skipped_note(&vec!["a".to_string()]).as_deref(), Some("跳过 1 项（无权限/链接/特殊文件）：a"));
    let four: Vec<String> = ["a", "b", "c", "d"].iter().map(|s| s.to_string()).collect();
    assert_eq!(skipped_note(&four).as_deref(), Some("跳过 4 项（无权限/链接/特殊文件）：a、b、c …"));
    let three: Vec<String> = ["a", "b", "c"].iter().map(|s| s.to_string()).collect();
    assert_eq!(skipped_note(&three).as_deref(), Some("跳过 3 项（无权限/链接/特殊文件）：a、b、c"));
}

#[test]
fn remote_dir_creation_outcomes() {
    assert_eq!(ensure_dir_result("/d", Ok(()), false), Ok(()));
    assert_eq!(ensure_dir_result("/d", Err("exists".to_string()), true), Ok(()));
    assert_eq!(
        ensure_dir_result("/d", Err("denied".to_string()), false),
        Err("创建目录 /d 失败: denied".to_string())
    );
}
