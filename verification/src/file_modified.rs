//! File-signature based change detection for local-path dependencies.
//!
//! Per tracked dependency a cache maps each relative file path to the
//! signature recorded at the last install. The directory walk that computes
//! fresh signatures happens outside the library; which files count and
//! whether the recorded and the fresh signatures still agree is decided
//! here.

use vstd::prelude::*;
use crate::strmap::StrMap;
use crate::strops::{extension_of, names_contain, spec_extension, str_eq, strs_view};

verus! {

/// The per-dependency signature cache file, under the provider's home
/// directory.
pub const FILE_MODIFIED_CACHE_MAP_FILE_NAME: &'static str = "file_modified_cache_map.v1.json";

/// Relative file path to signature, for one dependency's tracked directory.
pub type FileModifiedCacheMap = StrMap<String>;

/// Which files a walk tracks: an extension allow-list, a file-name
/// allow-list (manifest and lock files count whatever their extension), a
/// file-name deny-list, and directory names never descended into.
pub struct FileDiffHelpers {
    pub target_exts: Vec<String>,
    pub target_file_names: Vec<String>,
    pub exclude_file_names: Vec<String>,
    pub exclude_dir_names: Vec<String>,
}

/// A file name is tracked when it is not denied and either is allowed by
/// name or carries an allowed extension.
pub open spec fn spec_file_tracked(
    file_name: Seq<char>,
    target_exts: Seq<Seq<char>>,
    target_file_names: Seq<Seq<char>>,
    exclude_file_names: Seq<Seq<char>>,
) -> bool {
    !exclude_file_names.contains(file_name) && (target_file_names.contains(file_name) || (
    match spec_extension(file_name) {
        Some(e) => target_exts.contains(e),
        None => false,
    }))
}

impl FileDiffHelpers {
    /// Whether a walk tracks the file of this name.
    pub fn is_target_file_name(&self, file_name: &str) -> (r: bool)
        ensures
            r == spec_file_tracked(
                file_name@,
                strs_view(self.target_exts@),
                strs_view(self.target_file_names@),
                strs_view(self.exclude_file_names@),
            ),
    {
        if names_contain(&self.exclude_file_names, file_name) {
            return false;
        }
        if names_contain(&self.target_file_names, file_name) {
            return true;
        }
        match extension_of(file_name) {
            Some(e) => names_contain(&self.target_exts, e.as_str()),
            None => false,
        }
    }

    /// Whether a walk must not descend into a directory of this name.
    pub fn is_excluded_dir_name(&self, dir_name: &str) -> (r: bool)
        ensures
            r == strs_view(self.exclude_dir_names@).contains(dir_name@),
    {
        names_contain(&self.exclude_dir_names, dir_name)
    }
}

/// Two signature maps agree: the same paths, each with the same signature.
pub open spec fn signature_maps_agree(
    a: Map<Seq<char>, Seq<char>>,
    b: Map<Seq<char>, Seq<char>>,
) -> bool {
    &&& forall|p: Seq<char>| #[trigger] a.contains_key(p) ==> b.contains_key(p) && b[p] == a[p]
    &&& forall|p: Seq<char>| #[trigger] b.contains_key(p) ==> a.contains_key(p)
}

/// Whether the fresh signatures differ from the recorded ones: a signature
/// is new, changed, or a previously tracked file is gone.
pub fn has_file_diff(current: &FileModifiedCacheMap, cached: &FileModifiedCacheMap) -> (r: bool)
    requires
        current.wf(),
        cached.wf(),
    ensures
        r == !signature_maps_agree(current.as_map(), cached.as_map()),
{
    let n = current.len();
    let mut i: usize = 0;
    while i < n
        invariant
            current.wf(),
            cached.wf(),
            n == current.spec_len(),
            i <= n,
            forall|j: int|
                0 <= j < i ==> cached.as_map().contains_key(
                    (#[trigger] current.kv_seq()[j]).0,
                ) && cached.as_map()[current.kv_seq()[j].0] == current.kv_seq()[j].1,
        decreases n - i,
    {
        let path = current.key_at(i);
        let signature = current.value_at(i);
        proof {
            current.lemma_entry_in_map(i as int);
        }
        match cached.get(path.as_str()) {
            Some(recorded) => {
                if !str_eq(recorded.as_str(), signature.as_str()) {
                    return true;
                }
            },
            None => {
                return true;
            },
        }
        i = i + 1;
    }
    let m = cached.len();
    let mut k: usize = 0;
    while k < m
        invariant
            current.wf(),
            cached.wf(),
            m == cached.spec_len(),
            k <= m,
            forall|j: int|
                0 <= j < current.spec_len() ==> cached.as_map().contains_key(
                    (#[trigger] current.kv_seq()[j]).0,
                ) && cached.as_map()[current.kv_seq()[j].0] == current.kv_seq()[j].1,
            forall|j: int|
                0 <= j < k ==> current.as_map().contains_key((#[trigger] cached.kv_seq()[j]).0),
        decreases m - k,
    {
        let path = cached.key_at(k);
        proof {
            cached.lemma_entry_in_map(k as int);
        }
        if !current.contains_key(path.as_str()) {
            return true;
        }
        k = k + 1;
    }
    proof {
        assert forall|p: Seq<char>| #[trigger]
            current.as_map().contains_key(p) implies cached.as_map().contains_key(p)
            && cached.as_map()[p] == current.as_map()[p] by {
            current.lemma_map_covered(p);
            let j = choose|j: int|
                0 <= j < current.spec_len() && current.kv_seq()[j].0 == p;
            current.lemma_entry_in_map(j);
        }
        assert forall|p: Seq<char>| #[trigger]
            cached.as_map().contains_key(p) implies current.as_map().contains_key(p) by {
            cached.lemma_map_covered(p);
            let j = choose|j: int| 0 <= j < cached.spec_len() && cached.kv_seq()[j].0 == p;
        }
    }
    false
}

} // verus!
