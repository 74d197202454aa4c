use podcast_proxy::cache::Cache;
use podcast_proxy::cache::CacheError;
use podcast_proxy::cache::CacheSnapshot;
use podcast_proxy::cache::FileEntry;

fn key(parts: &[&str]) -> Vec<String> {
    parts.iter().map(|s| s.to_string()).collect()
}

#[test]
fn rel_path_encodes_segments() {
    let cache = Cache::new();
    let segs = cache.rel_path(&key(&["a b", "c"]), None).unwrap();
    assert_eq!(segs, vec!["a+20b".to_string(), "c".to_string()]);
}

#[test]
fn rel_path_rewrites_percent_to_plus() {
    let cache = Cache::new();
    let segs = cache.rel_path(&key(&["100%"]), None).unwrap();
    assert_eq!(segs, vec!["100+25".to_string()]);
}

#[test]
fn rel_path_appends_extension() {
    let cache = Cache::new();
    let segs = cache.rel_path(&key(&["media", "vid1"]), Some("mp4")).unwrap();
    assert_eq!(segs, vec!["media".to_string(), "vid1.mp4".to_string()]);
}

#[test]
fn rel_path_empty_key_fails() {
    let cache = Cache::new();
    let r = cache.rel_path(&key(&[]), Some("mp4"));
    assert_eq!(r, Err(CacheError::EmptyKey));
    let r = cache.rel_path(&key(&[]), None);
    assert_eq!(r, Err(CacheError::EmptyKey));
}

#[test]
fn rel_path_same_key_same_path() {
    let cache = Cache::new();
    let a = cache.rel_path(&key(&["playlist", "some channel"]), None).unwrap();
    let b = cache.rel_path(&key(&["playlist", "some channel"]), None).unwrap();
    assert_eq!(a, b);
}

fn file(parts: &[&str], mtime: u64) -> FileEntry {
    FileEntry { segs: key(parts), mtime }
}

#[test]
fn sweep_removes_expired_files_and_empty_dirs() {
    let cache = Cache::new();
    assert_eq!(cache.cache_time, 86400);
    let snap = CacheSnapshot {
        files: vec![
            file(&["a", "x"], 10_000),
            file(&["a", "y"], 150_000),
            file(&["b", "z"], 10_000),
        ],
        dirs: vec![key(&[]), key(&["a"]), key(&["b"]), key(&["c"])],
    };
    let plan = cache.sweep_plan(&snap, 200_000);
    // the two stale files go; the fresh one keeps its directory chain alive
    assert_eq!(plan.remove_files, vec![0, 2]);
    // "b" loses its only file, "c" never had one; the root and "a" stay
    assert_eq!(plan.remove_dirs, vec![2, 3]);
}

#[test]
fn sweep_keeps_file_exactly_at_ttl() {
    let cache = Cache::new();
    let snap = CacheSnapshot {
        files: vec![file(&["a"], 200_000 - 86_400)],
        dirs: vec![key(&[])],
    };
    let plan = cache.sweep_plan(&snap, 200_000);
    assert_eq!(plan.remove_files, Vec::<usize>::new());
    assert_eq!(plan.remove_dirs, Vec::<usize>::new());
}

#[test]
fn sweep_keeps_file_with_future_mtime() {
    let cache = Cache::new();
    let snap = CacheSnapshot {
        files: vec![file(&["a"], 500_000)],
        dirs: vec![key(&[])],
    };
    let plan = cache.sweep_plan(&snap, 200_000);
    assert_eq!(plan.remove_files, Vec::<usize>::new());
}

#[test]
fn sweep_empty_tree_removes_root() {
    let cache = Cache::new();
    let snap = CacheSnapshot { files: vec![], dirs: vec![key(&[])] };
    let plan = cache.sweep_plan(&snap, 200_000);
    assert_eq!(plan.remove_dirs, vec![0]);
}
