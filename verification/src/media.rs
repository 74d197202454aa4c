//! Resolution of a cached media file: from what is on disk at the file's
//! cache path, decide whether to delete a corrupt leftover and whether to
//! download. The shell inspects the file, applies the plan, and hands a
//! download outcome back to the tool layer's classification.

use vstd::prelude::*;
use vstd::string::*;

verus! {

/// What the shell must do at a media path before serving it.
#[derive(Debug, Clone, Copy, PartialEq, Eq, Structural)]
pub struct MediaPlan {
    /// Delete the file first: a zero-length file is the leftover of an
    /// interrupted download that only touched the cache entry.
    pub delete_first: bool,
    /// Download the video into the path afterwards.
    pub download: bool,
}

/// Whether a resolution downloads: exactly when no usable (non-empty) file
/// is present.
pub open spec fn plan_downloads(file_exists: bool, file_len: u64) -> bool {
    !file_exists || file_len == 0
}

/// Whether a resolution first deletes: exactly when a file is present but
/// empty.
pub open spec fn plan_deletes(file_exists: bool, file_len: u64) -> bool {
    file_exists && file_len == 0
}

/// Decides how to resolve a media file from what is at its path: a present,
/// non-empty file is reused untouched; an empty file is deleted and
/// re-fetched; a missing file is fetched.
pub fn resolve_plan(file_exists: bool, file_len: u64) -> (p: MediaPlan)
    ensures
        p.delete_first == plan_deletes(file_exists, file_len),
        p.download == plan_downloads(file_exists, file_len),
{
    let empty_leftover = file_exists && file_len == 0;
    MediaPlan { delete_first: empty_leftover, download: !file_exists || empty_leftover }
}

/// The cache key under which a video's media file is stored.
pub fn media_cache_key(id: &str) -> (r: Vec<String>)
    ensures
        r@.len() == 2,
        r@[0]@ == "media"@,
        r@[1]@ == id@,
{
    let mut key: Vec<String> = Vec::new();
    key.push(String::from_str("media"));
    key.push(id.to_owned());
    key
}

/// The file extension of a cached media file.
pub fn media_extension() -> (r: &'static str)
    ensures
        r@ == "mp4"@,
{
    "mp4"
}

/// A cold resolution downloads; a later resolution of the same id, finding
/// the non-empty file the download left, downloads nothing more and touches
/// nothing.
pub proof fn lemma_resolve_downloads_once(file_len: u64)
    ensures
        plan_downloads(false, file_len),
        file_len > 0 ==> !plan_downloads(true, file_len),
        file_len > 0 ==> !plan_deletes(true, file_len),
{
}

/// A zero-length file at the target path is deleted and fetched again on
/// the next resolution of its id.
pub proof fn lemma_resolve_refetches_empty_file()
    ensures
        plan_deletes(true, 0),
        plan_downloads(true, 0),
{
}

} // verus!
