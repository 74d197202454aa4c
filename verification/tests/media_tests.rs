use podcast_proxy::media::media_cache_key;
use podcast_proxy::media::media_extension;
use podcast_proxy::media::resolve_plan;

#[test]
fn cold_id_downloads() {
    let plan = resolve_plan(false, 0);
    assert!(plan.download);
    assert!(!plan.delete_first);
}

#[test]
fn present_file_is_reused_without_download() {
    let plan = resolve_plan(true, 4096);
    assert!(!plan.download);
    assert!(!plan.delete_first);
}

#[test]
fn empty_file_is_deleted_and_refetched() {
    let plan = resolve_plan(true, 0);
    assert!(plan.delete_first);
    assert!(plan.download);
}

#[test]
fn media_key_and_extension() {
    assert_eq!(media_cache_key("vid1"), vec!["media".to_string(), "vid1".to_string()]);
    assert_eq!(media_extension(), "mp4");
}
