use verve::ssh::sftp::{build_remote_path, humanize_size, join_path, split_path};

#[test]
fn humanize() {
    assert_eq!(humanize_size(0), "0 B");
    assert_eq!(humanize_size(512), "512 B");
    assert_eq!(humanize_size(1024), "1.0 KB");
    assert_eq!(humanize_size(1536), "1.5 KB");
    assert_eq!(humanize_size(1048576), "1.0 MB");
    assert_eq!(humanize_size(1073741824), "1.0 GB");
}

#[test]
fn humanize_matches_float_formatting() {
    for &b in &[
        1u64, 1023, 1025, 1075, 1126, 1177, 10_000, 123_456_789, 1_099_511_627_775,
        1_099_511_627_776, 5_000_000_000_000, 9_007_199_254_740_993, u64::MAX, 1 << 62,
    ] {
        let units = ["B", "KB", "MB", "GB", "TB"];
        let mut v = b as f64;
        let mut i = 0;
        while v >= 1024.0 && i < units.len() - 1 {
            v /= 1024.0;
            i += 1;
        }
        let want = if i == 0 { format!("{} {}", b, units[i]) } else { format!("{:.1} {}", v, units[i]) };
        assert_eq!(humanize_size(b), want, "bytes {}", b);
    }
}

#[test]
fn humanize_rounds_ties_to_even() {
    // 1.25 KB and 1.75 KB are exact binary values: ties round to the even digit.
    assert_eq!(humanize_size(1280), "1.2 KB");
    assert_eq!(humanize_size(1792), "1.8 KB");
    assert_eq!(humanize_size(2 * 1099511627776), "2.0 TB");
    assert_eq!(humanize_size(u64::MAX), "16777216.0 TB");
}

#[test]
fn split_simple() {
    let (parent, segs) = split_path("/home/user/foo");
    assert_eq!(parent, "/home/user/foo");
    assert_eq!(segs.len(), 4);
    assert_eq!(segs[0], ("/".to_string(), "/".to_string()));
    assert_eq!(segs[1].0, "/home");
    assert_eq!(segs[1].1, "home");
    assert_eq!(segs[3].0, "/home/user/foo");
}

#[test]
fn split_root() {
    let (parent, segs) = split_path("/");
    assert_eq!(parent, "/");
    assert_eq!(segs.len(), 1);
}

#[test]
fn split_skips_empty_components_and_trailing_slashes() {
    let (parent, segs) = split_path("//a//b/");
    assert_eq!(parent, "//a//b/");
    assert_eq!(
        segs,
        vec![
            ("/".to_string(), "/".to_string()),
            ("/a".to_string(), "a".to_string()),
            ("/a/b".to_string(), "b".to_string()),
        ]
    );
    let (root, empty) = split_path("");
    assert_eq!(root, "/");
    assert_eq!(empty, vec![("/".to_string(), "/".to_string())]);
    let (root, _) = split_path("///");
    assert_eq!(root, "/");
    let (_, rel) = split_path("x/y");
    assert_eq!(rel[2], ("/x/y".to_string(), "y".to_string()));
}

#[test]
fn join_paths() {
    assert_eq!(join_path("/home/user", "foo"), "/home/user/foo");
    assert_eq!(join_path("/home/user/", "foo"), "/home/user/foo");
}

#[test]
fn join_path_ignores_every_trailing_slash() {
    assert_eq!(join_path("/home/user///", "foo"), "/home/user/foo");
    assert_eq!(join_path("/", "etc"), "/etc");
}

#[test]
fn build_remote_path_joins_like_pathbuf() {
    assert_eq!(build_remote_path("/home/user/", "a.txt"), "/home/user/a.txt");
    assert_eq!(build_remote_path("/home/user", "dir/a.txt"), "/home/user/dir/a.txt");
    assert_eq!(build_remote_path("/home/user", "/etc/hosts"), "/etc/hosts");
    assert_eq!(build_remote_path("/", "a.txt"), "/a.txt");
    assert_eq!(build_remote_path("///", "a.txt"), "/a.txt");
    assert_eq!(build_remote_path("", "a.txt"), "a.txt");
    let mut p = std::path::PathBuf::from("/srv/data".trim_end_matches('/'));
    p.push("f.bin");
    assert_eq!(build_remote_path("/srv/data", "f.bin"), p.to_string_lossy());
}
