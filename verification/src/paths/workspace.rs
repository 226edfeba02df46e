//! Workspace directory layout and the persisted project-directory to
//! workspace-id map.
//!
//! A workspace is the directory tree holding one project's installed tool
//! homes and its aggregated `bin` directory. The same layout serves two
//! roles: the *live* tree, reused across install cycles, and a *staging*
//! tree with the same id but a fresh base directory under the cache
//! directory, promoted to live only after a fully successful cycle.

use vstd::prelude::*;
use crate::strmap::StrMap;
use crate::strops::{path_join, spec_join};

verus! {

/// The directory layout of one project's workspace, as path strings.
#[derive(Debug, PartialEq)]
pub struct Workspace {
    id: String,
    base_dir: String,
    cache_dir: String,
    bin_dir: String,
    home_dir: String,
}

/// What a `Workspace` denotes: its id and directories as character
/// sequences.
#[verifier::ext_equal]
pub struct WorkspaceModel {
    pub id: Seq<char>,
    pub base_dir: Seq<char>,
    pub cache_dir: Seq<char>,
    pub bin_dir: Seq<char>,
    pub home_dir: Seq<char>,
}

impl View for Workspace {
    type V = WorkspaceModel;

    closed spec fn view(&self) -> WorkspaceModel {
        WorkspaceModel {
            id: self.id@,
            base_dir: self.base_dir@,
            cache_dir: self.cache_dir@,
            bin_dir: self.bin_dir@,
            home_dir: self.home_dir@,
        }
    }
}

/// The layout every constructor establishes: tool homes live under `home`
/// below the base directory, and the aggregated binaries under `home/bin`.
pub open spec fn workspace_layout(w: WorkspaceModel) -> bool {
    &&& w.home_dir == spec_join(w.base_dir, "home"@)
    &&& w.bin_dir == spec_join(w.home_dir, "bin"@)
}

impl Workspace {
    pub fn new(id: String, base_unique_workspace_dir: String, unique_cache_dir: String) -> (r:
        Workspace)
        ensures
            r@.id == id@,
            r@.base_dir == base_unique_workspace_dir@,
            r@.cache_dir == unique_cache_dir@,
            workspace_layout(r@),
    {
        let home_dir = path_join(base_unique_workspace_dir.as_str(), "home");
        let bin_dir = path_join(home_dir.as_str(), "bin");
        Workspace {
            id,
            bin_dir,
            home_dir,
            cache_dir: unique_cache_dir,
            base_dir: base_unique_workspace_dir,
        }
    }

    pub fn id(&self) -> (r: &String)
        ensures
            r@ == self@.id,
    {
        &self.id
    }

    pub fn base_dir(&self) -> (r: &String)
        ensures
            r@ == self@.base_dir,
    {
        &self.base_dir
    }

    pub fn cache_dir(&self) -> (r: &String)
        ensures
            r@ == self@.cache_dir,
    {
        &self.cache_dir
    }

    pub fn bin_dir(&self) -> (r: &String)
        ensures
            r@ == self@.bin_dir,
    {
        &self.bin_dir
    }

    pub fn home_dir(&self) -> (r: &String)
        ensures
            r@ == self@.home_dir,
    {
        &self.home_dir
    }

    /// The staging workspace for one install cycle: the same id and cache
    /// directory, and a fresh base directory under the cache directory named
    /// by the given unique string.
    pub fn make_tmp_workspace_named(&self, unique_name: &str) -> (r: Workspace)
        ensures
            r@.id == self@.id,
            r@.cache_dir == self@.cache_dir,
            r@.base_dir == spec_join(self@.cache_dir, unique_name@),
            workspace_layout(r@),
    {
        Workspace::new(
            self.id.clone(),
            path_join(self.cache_dir.as_str(), unique_name),
            self.cache_dir.clone(),
        )
    }

    /// The staging workspace for one install cycle, under a freshly drawn
    /// unique name.
    pub fn make_tmp_workspace(&self) -> (r: Workspace)
        ensures
            r@.id == self@.id,
            r@.cache_dir == self@.cache_dir,
            exists|name: Seq<char>|
                name.len() == 21 && r@.base_dir == spec_join(self@.cache_dir, name),
            workspace_layout(r@),
    {
        let name = fresh_unique_id();
        let r = self.make_tmp_workspace_named(name.as_str());
        proof {
            assert(name@.len() == 21 && r@.base_dir == spec_join(self@.cache_dir, name@));
        }
        r
    }
}

impl Clone for Workspace {
    fn clone(&self) -> (r: Self)
        ensures
            r@ == self@,
    {
        let r = Workspace {
            id: self.id.clone(),
            base_dir: self.base_dir.clone(),
            cache_dir: self.cache_dir.clone(),
            bin_dir: self.bin_dir.clone(),
            home_dir: self.home_dir.clone(),
        };
        proof {
            assert(r@ =~= self@);
        }
        r
    }
}

/// Relies on `nanoid::format` with the crate's URL-safe 64-symbol ASCII
/// alphabet and its default random source: the result is a fresh random id
/// of exactly 21 characters; nothing more holds of it.
#[verifier::external_body]
fn fresh_unique_id() -> (r: String)
    ensures
        r@.len() == 21,
{
    nanoid::format(nanoid::rngs::default, &nanoid::alphabet::SAFE, 21)
}

/// The persisted mapping from a project's configuration directory to its
/// stable workspace id.
pub struct WorkspacePathMap {
    workspace_path_map: StrMap<String>,
}

impl WorkspacePathMap {
    /// The denoted directory-to-id map.
    pub closed spec fn as_map(&self) -> Map<Seq<char>, Seq<char>> {
        self.workspace_path_map.as_map()
    }

    pub closed spec fn wf(&self) -> bool {
        self.workspace_path_map.wf()
    }

    pub closed spec fn spec_len(&self) -> nat {
        self.workspace_path_map.spec_len()
    }

    pub fn new() -> (r: Self)
        ensures
            r.wf(),
            r.as_map() == Map::<Seq<char>, Seq<char>>::empty(),
    {
        WorkspacePathMap { workspace_path_map: StrMap::new() }
    }

    pub fn len(&self) -> (r: usize)
        ensures
            r == self.spec_len(),
    {
        self.workspace_path_map.len()
    }

    /// The entry at a storage position, for persisting the map.
    pub fn entry_at(&self, i: usize) -> (r: (&String, &String))
        requires
            self.wf(),
            i < self.spec_len(),
        ensures
            self.as_map().contains_key(r.0@),
            self.as_map()[r.0@] == r.1@,
    {
        proof {
            self.workspace_path_map.lemma_entry_in_map(i as int);
        }
        (self.workspace_path_map.key_at(i), self.workspace_path_map.value_at(i))
    }

    pub fn get(&self, dir: &str) -> (r: Option<&String>)
        requires
            self.wf(),
        ensures
            match r {
                Some(id) => self.as_map().contains_key(dir@) && id@ == self.as_map()[dir@],
                None => !self.as_map().contains_key(dir@),
            },
    {
        self.workspace_path_map.get(dir)
    }

    pub fn insert(&mut self, dir: String, id: String)
        requires
            old(self).wf(),
            !old(self).as_map().contains_key(dir@),
        ensures
            final(self).wf(),
            final(self).as_map() == old(self).as_map().insert(dir@, id@),
    {
        self.workspace_path_map.insert(dir, id);
    }

    pub fn remove(&mut self, dir: &str)
        requires
            old(self).wf(),
        ensures
            final(self).wf(),
            final(self).as_map() == old(self).as_map().remove(dir@),
    {
        self.workspace_path_map.remove(dir);
    }
}

/// Resolves workspaces for project directories against the persisted path
/// map, given the platform's data-local and cache directories.
pub struct WorkspaceProvider {
    data_local_dir: String,
    cache_dir: String,
}

impl WorkspaceProvider {
    pub fn new(data_local_dir: String, cache_dir: String) -> (r: WorkspaceProvider)
        ensures
            r@ == (data_local_dir@, cache_dir@),
    {
        WorkspaceProvider { data_local_dir, cache_dir }
    }

    /// The data-local and cache directories the provider was built from.
    pub closed spec fn view(&self) -> (Seq<char>, Seq<char>) {
        (self.data_local_dir@, self.cache_dir@)
    }

    /// The stable workspace of one project directory: the id recorded in the
    /// path map, or a freshly drawn id recorded under that directory. The
    /// returned flag says whether the map changed and must be persisted. Ids
    /// are never reused: an existing entry is returned as it stands.
    pub fn base_unique_workspace_dir_from_isobin_manifest_dir(
        &self,
        workspace_path_map: &mut WorkspacePathMap,
        isobin_manifest_dir: &String,
    ) -> (r: (Workspace, bool))
        requires
            old(workspace_path_map).wf(),
        ensures
            final(workspace_path_map).wf(),
            workspace_layout(r.0@),
            r.0@.base_dir == spec_join(self@.0, r.0@.id),
            r.0@.cache_dir == spec_join(self@.1, r.0@.id),
            old(workspace_path_map).as_map().contains_key(isobin_manifest_dir@) ==> {
                &&& r.0@.id == old(workspace_path_map).as_map()[isobin_manifest_dir@]
                &&& r.1 == false
                &&& final(workspace_path_map).as_map() == old(workspace_path_map).as_map()
            },
            !old(workspace_path_map).as_map().contains_key(isobin_manifest_dir@) ==> {
                &&& r.0@.id.len() == 21
                &&& r.1 == true
                &&& final(workspace_path_map).as_map() == old(workspace_path_map).as_map().insert(
                    isobin_manifest_dir@,
                    r.0@.id,
                )
            },
    {
        let (id, needs_save): (String, bool) = match workspace_path_map.get(
            isobin_manifest_dir.as_str(),
        ) {
            Some(id) => (id.clone(), false),
            None => {
                let id = fresh_unique_id();
                workspace_path_map.insert(isobin_manifest_dir.clone(), id.clone());
                (id, true)
            },
        };
        let base_unique_workspace_dir = path_join(self.data_local_dir.as_str(), id.as_str());
        let unique_cache_dir = path_join(self.cache_dir.as_str(), id.as_str());
        (Workspace::new(id, base_unique_workspace_dir, unique_cache_dir), needs_save)
    }

    /// Drops a project directory's entry from the path map; the caller
    /// persists the changed map.
    pub fn remove_isobin_manifest_dir_from_workspace_map(
        &self,
        workspace_path_map: &mut WorkspacePathMap,
        isobin_manifest_dir: &String,
    )
        requires
            old(workspace_path_map).wf(),
        ensures
            final(workspace_path_map).wf(),
            final(workspace_path_map).as_map() == old(workspace_path_map).as_map().remove(
                isobin_manifest_dir@,
            ),
    {
        workspace_path_map.remove(isobin_manifest_dir.as_str());
    }
}

} // verus!
