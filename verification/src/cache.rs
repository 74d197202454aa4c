//! The key-addressed cache's logic: mapping keys to relative filesystem
//! paths, and planning the TTL sweep that deletes expired files and prunes
//! empty directories.
//!
//! The cache itself lives on disk; this module computes, from plain values,
//! exactly which path a key denotes and which entries a sweep removes. The
//! unverified shell performs the filesystem operations these decisions call
//! for.

use vstd::prelude::*;
use vstd::string::*;
use crate::encoding::encode_segment;
use crate::encoding::percent_encoded;
use crate::encoding::plus_rewrite;

verus! {

/// The default time-to-live of a cache entry, in seconds.
pub const DEFAULT_CACHE_TIME: u64 = 86400;

/// The cache's failure on a malformed key.
#[derive(Debug, Clone, PartialEq)]
pub enum CacheError {
    /// The key had no segments.
    EmptyKey,
}

/// The cache's policy: how long an entry may live, in seconds. Path
/// construction and sweep planning hang off this type; the directory tree
/// itself is held by the caller.
pub struct Cache {
    /// Seconds a file may go untouched before a sweep deletes it.
    pub cache_time: u64,
}

/// How one cache-key segment appears on disk: percent-encoded, with every
/// `%` then rewritten to `+`.
pub open spec fn encoded_segment_spec(s: Seq<char>) -> Seq<char> {
    plus_rewrite(percent_encoded(s))
}

/// The final path component for the last key segment, with the optional
/// extension appended after a dot.
pub open spec fn leaf_segment_spec(last: Seq<char>, ext: Option<Seq<char>>) -> Seq<char> {
    match ext {
        Option::None => encoded_segment_spec(last),
        Option::Some(e) => encoded_segment_spec(last) + seq!['.'] + e,
    }
}

/// The path components that a non-empty key maps to: every segment encoded,
/// the last carrying the extension.
pub open spec fn rel_segments_match(
    segs: Seq<String>,
    key: Seq<Seq<char>>,
    ext: Option<Seq<char>>,
) -> bool {
    &&& segs.len() == key.len()
    &&& key.len() >= 1
    &&& forall|i: int|
        0 <= i < key.len() - 1 ==> #[trigger] segs[i]@ == encoded_segment_spec(key[i])
    &&& segs[key.len() - 1]@ == leaf_segment_spec(key[key.len() - 1], ext)
}

/// A regular file in a snapshot of the cache tree: its path below the root,
/// one component per element, and its modification time in seconds since the
/// epoch.
#[derive(Debug, Clone, PartialEq)]
pub struct FileEntry {
    /// Path components below the cache root; the last one is the file name.
    pub segs: Vec<String>,
    /// Modification time, seconds since the epoch.
    pub mtime: u64,
}

/// A snapshot of the cache tree: every regular file and every directory
/// below the root. The root itself is the directory with no components.
#[derive(Debug, Clone, PartialEq)]
pub struct CacheSnapshot {
    /// Every regular file in the tree.
    pub files: Vec<FileEntry>,
    /// Every directory in the tree, the root included as an empty path.
    pub dirs: Vec<Vec<String>>,
}

/// What a sweep removes: indices into the snapshot's `files` and `dirs`.
#[derive(Debug, Clone, PartialEq)]
pub struct SweepPlan {
    /// Indices of the files to delete, in increasing order.
    pub remove_files: Vec<usize>,
    /// Indices of the directories to remove, in increasing order.
    pub remove_dirs: Vec<usize>,
}

/// A file's age exceeds the TTL. A modification time in the future does not
/// count as expired.
pub open spec fn file_expired(f: FileEntry, cache_time: u64, now: u64) -> bool {
    f.mtime <= now && now - f.mtime > cache_time
}

/// `p` is a strict prefix of `q`, component by component.
pub open spec fn seq_strict_prefix(p: Seq<Seq<char>>, q: Seq<Seq<char>>) -> bool {
    p.len() < q.len() && forall|i: int| 0 <= i < p.len() ==> p[i] == q[i]
}

/// A directory stays alive after a sweep: some non-expired file lies below
/// it. A directory nothing fresh lies below empties out once expired files
/// and its emptied subdirectories are gone, and is removed itself.
pub open spec fn dir_live(
    d: Seq<Seq<char>>,
    files: Seq<FileEntry>,
    cache_time: u64,
    now: u64,
) -> bool {
    exists|j: int|
        0 <= j < files.len() && !file_expired(files[j], cache_time, now) && seq_strict_prefix(
            d,
            files[j].segs.deep_view(),
        )
}

fn is_strict_prefix(p: &Vec<String>, q: &Vec<String>) -> (r: bool)
    ensures
        r == seq_strict_prefix(p.deep_view(), q.deep_view()),
{
    if p.len() >= q.len() {
        return false;
    }
    let mut i: usize = 0;
    while i < p.len()
        invariant
            0 <= i <= p@.len(),
            p@.len() < q@.len(),
            forall|k: int| 0 <= k < i ==> p.deep_view()[k] == q.deep_view()[k],
        decreases p@.len() - i,
    {
        if !(p[i] == q[i]) {
            assert(p.deep_view()[i as int] != q.deep_view()[i as int]);
            return false;
        }
        assert(p.deep_view()[i as int] == q.deep_view()[i as int]);
        i += 1;
    }
    true
}

fn has_live_file(d: &Vec<String>, files: &Vec<FileEntry>, cache_time: u64, now: u64) -> (r: bool)
    ensures
        r == dir_live(d.deep_view(), files@, cache_time, now),
{
    let mut j: usize = 0;
    while j < files.len()
        invariant
            0 <= j <= files@.len(),
            forall|k: int|
                0 <= k < j ==> !(!file_expired(#[trigger] files@[k], cache_time, now)
                    && seq_strict_prefix(d.deep_view(), files@[k].segs.deep_view())),
        decreases files@.len() - j,
    {
        let f = &files[j];
        let fresh = !(f.mtime <= now && now - f.mtime > cache_time);
        if fresh && is_strict_prefix(d, &f.segs) {
            assert(dir_live(d.deep_view(), files@, cache_time, now));
            return true;
        }
        j += 1;
    }
    false
}

impl Cache {
    /// A cache with the default TTL.
    pub fn new() -> (c: Cache)
        ensures
            c.cache_time == DEFAULT_CACHE_TIME,
    {
        Cache { cache_time: DEFAULT_CACHE_TIME }
    }

    /// The relative path a key maps to, one component per returned element:
    /// every segment percent-encoded with the `%` to `+` rewrite, the last
    /// with the extension appended. Fails exactly on an empty key.
    pub fn rel_path(&self, key: &Vec<String>, ext: Option<&str>) -> (r: Result<
        Vec<String>,
        CacheError,
    >)
        ensures
            r is Err <==> key@.len() == 0,
            r matches Err(e) ==> e == CacheError::EmptyKey,
            r matches Ok(segs) ==> rel_segments_match(
                segs@,
                key.deep_view(),
                match ext {
                    Option::Some(e) => Option::Some(e@),
                    Option::None => Option::None,
                },
            ),
    {
        if key.len() == 0 {
            return Err(CacheError::EmptyKey);
        }
        let mut segs: Vec<String> = Vec::new();
        let n = key.len();
        let mut i: usize = 0;
        while i < n - 1
            invariant
                0 <= i <= n - 1,
                n == key@.len(),
                n >= 1,
                segs@.len() == i,
                forall|k: int|
                    0 <= k < i ==> #[trigger] segs@[k]@ == encoded_segment_spec(
                        key.deep_view()[k],
                    ),
            decreases n - 1 - i,
        {
            segs.push(encode_segment(key[i].as_str()));
            i += 1;
        }
        let mut leaf = encode_segment(key[n - 1].as_str());
        match ext {
            Option::Some(e) => {
                leaf.push('.');
                leaf.append(e);
                assert(leaf@ =~= encoded_segment_spec(key.deep_view()[n - 1]) + seq!['.'] + e@);
            },
            Option::None => {},
        }
        segs.push(leaf);
        Ok(segs)
    }

    /// Plans a sweep over a snapshot of the tree taken at time `now`: every
    /// file whose age exceeds the TTL is deleted, and exactly the
    /// directories with no fresh file anywhere below them are removed.
    pub fn sweep_plan(&self, snap: &CacheSnapshot, now: u64) -> (plan: SweepPlan)
        ensures
            forall|a: int|
                0 <= a < plan.remove_files@.len() ==> #[trigger] plan.remove_files@[a]
                    < snap.files@.len(),
            forall|a: int, b: int|
                0 <= a < b < plan.remove_files@.len() ==> plan.remove_files@[a]
                    < plan.remove_files@[b],
            forall|i: int|
                0 <= i < snap.files@.len() ==> (plan.remove_files@.contains(i as usize)
                    <==> file_expired(#[trigger] snap.files@[i], self.cache_time, now)),
            forall|a: int|
                0 <= a < plan.remove_dirs@.len() ==> #[trigger] plan.remove_dirs@[a]
                    < snap.dirs@.len(),
            forall|a: int, b: int|
                0 <= a < b < plan.remove_dirs@.len() ==> plan.remove_dirs@[a]
                    < plan.remove_dirs@[b],
            forall|i: int|
                0 <= i < snap.dirs@.len() ==> (plan.remove_dirs@.contains(i as usize) <==> !dir_live(
                    #[trigger] snap.dirs@[i].deep_view(),
                    snap.files@,
                    self.cache_time,
                    now,
                )),
    {
        let mut remove_files: Vec<usize> = Vec::new();
        let nf = snap.files.len();
        let mut i: usize = 0;
        while i < nf
            invariant
                0 <= i <= nf,
                nf == snap.files@.len(),
                forall|a: int|
                    0 <= a < remove_files@.len() ==> #[trigger] remove_files@[a] < i,
                forall|a: int, b: int|
                    0 <= a < b < remove_files@.len() ==> remove_files@[a] < remove_files@[b],
                forall|k: int|
                    0 <= k < i ==> (remove_files@.contains(k as usize) <==> file_expired(
                        #[trigger] snap.files@[k],
                        self.cache_time,
                        now,
                    )),
            decreases nf - i,
        {
            let f = &snap.files[i];
            let ghost prev = remove_files@;
            if f.mtime <= now && now - f.mtime > self.cache_time {
                remove_files.push(i);
            }
            proof {
                assert forall|k: int| 0 <= k < i + 1 implies (remove_files@.contains(k as usize)
                    <==> file_expired(#[trigger] snap.files@[k], self.cache_time, now)) by {
                    if remove_files@.len() == prev.len() {
                        assert(remove_files@ =~= prev);
                    } else {
                        assert(remove_files@ =~= prev.push(i as usize));
                        assert forall|v: usize| remove_files@.contains(v) implies prev.contains(v)
                            || v == i as usize by {
                            let w = choose|w: int|
                                0 <= w < remove_files@.len() && remove_files@[w] == v;
                            if w < prev.len() {
                                assert(prev[w] == v);
                            }
                        }
                        if prev.contains(k as usize) {
                            let w = choose|w: int| 0 <= w < prev.len() && prev[w] == k as usize;
                            assert(remove_files@[w] == k as usize);
                        }
                        if k == i {
                            assert(remove_files@[prev.len() as int] == i as usize);
                        }
                    }
                }
            }
            i += 1;
        }
        let mut remove_dirs: Vec<usize> = Vec::new();
        let nd = snap.dirs.len();
        let mut d: usize = 0;
        while d < nd
            invariant
                0 <= d <= nd,
                nd == snap.dirs@.len(),
                forall|a: int| 0 <= a < remove_dirs@.len() ==> #[trigger] remove_dirs@[a] < d,
                forall|a: int, b: int|
                    0 <= a < b < remove_dirs@.len() ==> remove_dirs@[a] < remove_dirs@[b],
                forall|k: int|
                    0 <= k < d ==> (remove_dirs@.contains(k as usize) <==> !dir_live(
                        #[trigger] snap.dirs@[k].deep_view(),
                        snap.files@,
                        self.cache_time,
                        now,
                    )),
            decreases nd - d,
        {
            let ghost prev = remove_dirs@;
            if !has_live_file(&snap.dirs[d], &snap.files, self.cache_time, now) {
                remove_dirs.push(d);
            }
            proof {
                assert forall|k: int| 0 <= k < d + 1 implies (remove_dirs@.contains(k as usize)
                    <==> !dir_live(
                    #[trigger] snap.dirs@[k].deep_view(),
                    snap.files@,
                    self.cache_time,
                    now,
                )) by {
                    if remove_dirs@.len() == prev.len() {
                        assert(remove_dirs@ =~= prev);
                    } else {
                        assert(remove_dirs@ =~= prev.push(d as usize));
                        assert forall|v: usize| remove_dirs@.contains(v) implies prev.contains(v)
                            || v == d as usize by {
                            let w = choose|w: int|
                                0 <= w < remove_dirs@.len() && remove_dirs@[w] == v;
                            if w < prev.len() {
                                assert(prev[w] == v);
                            }
                        }
                        if prev.contains(k as usize) {
                            let w = choose|w: int| 0 <= w < prev.len() && prev[w] == k as usize;
                            assert(remove_dirs@[w] == k as usize);
                        }
                        if k == d {
                            assert(remove_dirs@[prev.len() as int] == d as usize);
                        }
                    }
                }
            }
            d += 1;
        }
        SweepPlan { remove_files, remove_dirs }
    }
}

/// Two path computations for the same key and extension agree: calling the
/// cache twice in a row for one key denotes one path, and creates no second
/// directory chain.
pub proof fn lemma_rel_path_deterministic(
    a: Seq<String>,
    b: Seq<String>,
    key: Seq<Seq<char>>,
    ext: Option<Seq<char>>,
)
    requires
        rel_segments_match(a, key, ext),
        rel_segments_match(b, key, ext),
    ensures
        a.len() == b.len(),
        forall|i: int| 0 <= i < a.len() ==> #[trigger] a[i]@ == b[i]@,
{
    assert forall|i: int| 0 <= i < a.len() implies #[trigger] a[i]@ == b[i]@ by {
        if i < key.len() - 1 {
            assert(a[i]@ == encoded_segment_spec(key[i]));
            assert(b[i]@ == encoded_segment_spec(key[i]));
        }
    }
}

/// The snapshot lists every ancestor directory of every file: for each file
/// and each proper depth, some listed directory is that prefix of the file's
/// path.
pub open spec fn prefix_closed(snap: CacheSnapshot) -> bool {
    forall|j: int, k: int|
        0 <= j < snap.files@.len() && 1 <= k < snap.files@[j].segs@.len() ==> exists|d: int|
            0 <= d < snap.dirs@.len() && snap.dirs@[d].deep_view() == #[trigger] snap.files@[
                j
            ].segs.deep_view().subrange(0, k)
}

/// After a sweep, no directory is left empty: a directory the sweep keeps
/// has, directly inside it, either a file the sweep keeps or a subdirectory
/// the sweep keeps. Needs the snapshot to list every ancestor directory of
/// every file.
pub proof fn lemma_sweep_leaves_no_empty_dir(
    snap: CacheSnapshot,
    cache_time: u64,
    now: u64,
    d: int,
)
    requires
        prefix_closed(snap),
        0 <= d < snap.dirs@.len(),
        dir_live(snap.dirs@[d].deep_view(), snap.files@, cache_time, now),
    ensures
        (exists|j: int|
            0 <= j < snap.files@.len() && !file_expired(#[trigger] snap.files@[j], cache_time, now)
                && snap.files@[j].segs@.len() == snap.dirs@[d].deep_view().len() + 1
                && seq_strict_prefix(snap.dirs@[d].deep_view(), snap.files@[j].segs.deep_view()))
            || (exists|e: int|
            0 <= e < snap.dirs@.len() && dir_live(
                #[trigger] snap.dirs@[e].deep_view(),
                snap.files@,
                cache_time,
                now,
            ) && snap.dirs@[e].deep_view().len() == snap.dirs@[d].deep_view().len() + 1
                && seq_strict_prefix(snap.dirs@[d].deep_view(), snap.dirs@[e].deep_view())),
{
    let dv = snap.dirs@[d].deep_view();
    let j = choose|j: int|
        0 <= j < snap.files@.len() && !file_expired(snap.files@[j], cache_time, now)
            && seq_strict_prefix(dv, snap.files@[j].segs.deep_view());
    let fv = snap.files@[j].segs.deep_view();
    assert(fv.len() == snap.files@[j].segs@.len());
    if fv.len() == dv.len() + 1 {
        assert(!file_expired(snap.files@[j], cache_time, now));
    } else {
        let k = dv.len() + 1;
        assert(1 <= k < fv.len());
        let e = choose|e: int|
            0 <= e < snap.dirs@.len() && snap.dirs@[e].deep_view() == fv.subrange(0, k as int);
        let ev = snap.dirs@[e].deep_view();
        assert(seq_strict_prefix(ev, fv)) by {
            assert(forall|i: int| 0 <= i < ev.len() ==> ev[i] == fv.subrange(0, k as int)[i]);
        }
        assert(dir_live(ev, snap.files@, cache_time, now));
        assert(seq_strict_prefix(dv, ev)) by {
            assert(forall|i: int| 0 <= i < dv.len() ==> dv[i] == fv[i]);
            assert(forall|i: int| 0 <= i < ev.len() ==> ev[i] == fv[i]);
        }
    }
}

} // verus!
