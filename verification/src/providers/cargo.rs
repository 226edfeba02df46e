//! The cargo provider's manifest: named dependency specifications, their
//! validation and path fixing, and the diff engine computing which names
//! need an install or an uninstall this cycle.
//!
//! Versions and paths are held as plain strings; structural comparison of
//! two specifications always excludes the derived `absolute_path`, which is
//! recomputed from the manifest directory and never persisted.

use vstd::prelude::*;
use crate::errors::{IsobinManifestError, ValidateError};
use crate::file_modified::{has_file_diff, signature_maps_agree, FileDiffHelpers, FileModifiedCacheMap};
use crate::providers::ProviderKind;
use crate::strmap::StrMap;
use crate::strops::{names_contain, path_join, spec_join, str_eq, strs_view};

verus! {

/// An optional string, viewed.
pub open spec fn opt_str_view(o: Option<String>) -> Option<Seq<char>> {
    match o {
        Some(s) => Some(s@),
        None => None,
    }
}

/// An optional list of strings, viewed.
pub open spec fn opt_strs_view(o: Option<Vec<String>>) -> Option<Seq<Seq<char>>> {
    match o {
        Some(v) => Some(strs_view(v@)),
        None => None,
    }
}

/// What a detailed dependency specification denotes.
#[verifier::ext_equal]
pub struct DepDetailModel {
    pub bins: Option<Seq<Seq<char>>>,
    pub version: Option<Seq<char>>,
    pub registry: Option<Seq<char>>,
    pub index: Option<Seq<char>>,
    pub path: Option<Seq<char>>,
    pub absolute_path: Option<Seq<char>>,
    pub git: Option<Seq<char>>,
    pub branch: Option<Seq<char>>,
    pub tag: Option<Seq<char>>,
    pub rev: Option<Seq<char>>,
    pub features: Option<Seq<Seq<char>>>,
    pub no_default_features: Option<bool>,
    pub all_features: Option<bool>,
}

/// What a dependency specification denotes.
#[verifier::ext_equal]
pub enum DepModel {
    Simple(Seq<char>),
    Detailed(DepDetailModel),
}

/// A dependency specification: a bare version requirement, or a detailed
/// table.
#[derive(Debug, PartialEq)]
pub enum CargoInstallDependency {
    Simple(String),
    Detailed(CargoInstallDependencyDetail),
}

/// A detailed dependency specification. `absolute_path` is derived from
/// `path` by [`CargoInstallDependencyDetail::fix`] and is never persisted.
#[derive(Debug, PartialEq)]
pub struct CargoInstallDependencyDetail {
    pub bins: Option<Vec<String>>,
    pub version: Option<String>,
    pub registry: Option<String>,
    pub index: Option<String>,
    pub path: Option<String>,
    pub absolute_path: Option<String>,
    pub git: Option<String>,
    pub branch: Option<String>,
    pub tag: Option<String>,
    pub rev: Option<String>,
    pub features: Option<Vec<String>>,
    pub no_default_features: Option<bool>,
    pub all_features: Option<bool>,
}

impl View for CargoInstallDependencyDetail {
    type V = DepDetailModel;

    open spec fn view(&self) -> DepDetailModel {
        DepDetailModel {
            bins: opt_strs_view(self.bins),
            version: opt_str_view(self.version),
            registry: opt_str_view(self.registry),
            index: opt_str_view(self.index),
            path: opt_str_view(self.path),
            absolute_path: opt_str_view(self.absolute_path),
            git: opt_str_view(self.git),
            branch: opt_str_view(self.branch),
            tag: opt_str_view(self.tag),
            rev: opt_str_view(self.rev),
            features: opt_strs_view(self.features),
            no_default_features: self.no_default_features,
            all_features: self.all_features,
        }
    }
}

impl View for CargoInstallDependency {
    type V = DepModel;

    open spec fn view(&self) -> DepModel {
        match self {
            CargoInstallDependency::Simple(v) => DepModel::Simple(v@),
            CargoInstallDependency::Detailed(d) => DepModel::Detailed(d@),
        }
    }
}

/// The detailed model with its derived field dropped: the shape under which
/// two specifications are compared.
pub open spec fn erase_absolute_path(d: DepDetailModel) -> DepDetailModel {
    DepDetailModel { absolute_path: None, ..d }
}

/// Structural sameness of two dependency specifications, the derived
/// `absolute_path` excluded.
pub open spec fn dep_congruent(a: DepModel, b: DepModel) -> bool {
    match (a, b) {
        (DepModel::Simple(x), DepModel::Simple(y)) => x == y,
        (DepModel::Detailed(x), DepModel::Detailed(y)) => erase_absolute_path(x)
            == erase_absolute_path(y),
        _ => false,
    }
}

/// A detailed specification is valid when it pins at least one source.
pub open spec fn detail_valid(d: DepDetailModel) -> bool {
    d.version is Some || d.path is Some || d.git is Some
}

/// A dependency specification is valid when a detailed one pins at least
/// one of version, path and git; a bare version always is.
pub open spec fn dep_valid(d: DepModel) -> bool {
    match d {
        DepModel::Simple(_) => true,
        DepModel::Detailed(dd) => detail_valid(dd),
    }
}

/// Fixing a detailed specification resolves its relative `path` against the
/// directory holding the manifest.
pub open spec fn spec_fix_detail(d: DepDetailModel, manifest_dir: Seq<char>) -> DepDetailModel {
    match d.path {
        Some(p) => DepDetailModel { absolute_path: Some(spec_join(manifest_dir, p)), ..d },
        None => d,
    }
}

/// Fixing a dependency specification: a bare version is untouched.
pub open spec fn spec_fix_dep(d: DepModel, manifest_dir: Seq<char>) -> DepModel {
    match d {
        DepModel::Simple(_) => d,
        DepModel::Detailed(dd) => DepModel::Detailed(spec_fix_detail(dd, manifest_dir)),
    }
}

fn opt_str_eq(a: &Option<String>, b: &Option<String>) -> (r: bool)
    ensures
        r == (opt_str_view(*a) == opt_str_view(*b)),
{
    match a {
        Some(x) => match b {
            Some(y) => str_eq(x.as_str(), y.as_str()),
            None => false,
        },
        None => match b {
            Some(_) => false,
            None => true,
        },
    }
}

fn str_vec_eq(a: &Vec<String>, b: &Vec<String>) -> (r: bool)
    ensures
        r == (strs_view(a@) == strs_view(b@)),
{
    let n = a.len();
    if n != b.len() {
        proof {
            assert(strs_view(a@).len() != strs_view(b@).len());
        }
        return false;
    }
    let mut i: usize = 0;
    while i < n
        invariant
            i <= n,
            n == a@.len(),
            n == b@.len(),
            forall|j: int| 0 <= j < i ==> strs_view(a@)[j] == strs_view(b@)[j],
        decreases n - i,
    {
        if !str_eq(a[i].as_str(), b[i].as_str()) {
            proof {
                assert(strs_view(a@)[i as int] != strs_view(b@)[i as int]);
            }
            return false;
        }
        i = i + 1;
    }
    proof {
        assert(strs_view(a@) =~= strs_view(b@));
    }
    true
}

fn opt_str_vec_eq(a: &Option<Vec<String>>, b: &Option<Vec<String>>) -> (r: bool)
    ensures
        r == (opt_strs_view(*a) == opt_strs_view(*b)),
{
    match a {
        Some(x) => match b {
            Some(y) => str_vec_eq(x, y),
            None => false,
        },
        None => match b {
            Some(_) => false,
            None => true,
        },
    }
}

fn opt_bool_eq(a: &Option<bool>, b: &Option<bool>) -> (r: bool)
    ensures
        r == (*a == *b),
{
    match a {
        Some(x) => match b {
            Some(y) => *x == *y,
            None => false,
        },
        None => match b {
            Some(_) => false,
            None => true,
        },
    }
}

fn opt_str_clone(o: &Option<String>) -> (r: Option<String>)
    ensures
        r == *o,
{
    match o {
        Some(s) => Some(s.clone()),
        None => None,
    }
}

fn str_vec_clone(v: &Vec<String>) -> (r: Vec<String>)
    ensures
        r@ == v@,
{
    let n = v.len();
    let mut r: Vec<String> = Vec::new();
    let mut i: usize = 0;
    while i < n
        invariant
            i <= n,
            n == v@.len(),
            r@ == v@.take(i as int),
        decreases n - i,
    {
        r.push(v[i].clone());
        proof {
            assert(r@ =~= v@.take(i + 1));
        }
        i = i + 1;
    }
    proof {
        assert(v@.take(n as int) =~= v@);
    }
    r
}

fn opt_str_vec_clone(o: &Option<Vec<String>>) -> (r: Option<Vec<String>>)
    ensures
        opt_strs_view(r) == opt_strs_view(*o),
{
    match o {
        Some(v) => Some(str_vec_clone(v)),
        None => None,
    }
}

impl CargoInstallDependencyDetail {
    /// Whether this and `other` are the same specification, the derived
    /// `absolute_path` excluded.
    pub fn congruent(&self, other: &Self) -> (r: bool)
        ensures
            r == (erase_absolute_path(self@) == erase_absolute_path(other@)),
    {
        let r = opt_str_vec_eq(&self.bins, &other.bins) && opt_str_eq(&self.version, &other.version)
            && opt_str_eq(&self.registry, &other.registry) && opt_str_eq(
            &self.index,
            &other.index,
        ) && opt_str_eq(&self.path, &other.path) && opt_str_eq(&self.git, &other.git) && opt_str_eq(
            &self.branch,
            &other.branch,
        ) && opt_str_eq(&self.tag, &other.tag) && opt_str_eq(&self.rev, &other.rev)
            && opt_str_vec_eq(&self.features, &other.features) && opt_bool_eq(
            &self.no_default_features,
            &other.no_default_features,
        ) && opt_bool_eq(&self.all_features, &other.all_features);
        proof {
            if r {
                assert(erase_absolute_path(self@) =~= erase_absolute_path(other@));
            }
        }
        r
    }

    /// A detailed specification must pin at least one of version, path and
    /// git.
    pub fn validate(&self) -> (r: Result<(), String>)
        ensures
            r is Ok <==> detail_valid(self@),
            r matches Err(m) ==> m@ == "cargo dependency dependency should have version or path or git."@,
    {
        if self.version.is_none() && self.path.is_none() && self.git.is_none() {
            Err("cargo dependency dependency should have version or path or git.".to_owned())
        } else {
            Ok(())
        }
    }

    /// Resolves the relative `path` against the directory holding the
    /// manifest, recording it in `absolute_path`.
    pub fn fix(self, isobin_manifest_dir: &str) -> (r: Self)
        ensures
            r@ == spec_fix_detail(self@, isobin_manifest_dir@),
    {
        match &self.path {
            Some(p) => {
                let absolute = path_join(isobin_manifest_dir, p.as_str());
                let mut r = self;
                r.absolute_path = Some(absolute);
                proof {
                    assert(r@ =~= spec_fix_detail(self@, isobin_manifest_dir@));
                }
                r
            },
            None => self,
        }
    }

    /// The specification pinning just a version.
    pub fn from_version(version: String) -> (r: Self)
        ensures
            r@ == (DepDetailModel {
                bins: None,
                version: Some(version@),
                registry: None,
                index: None,
                path: None,
                absolute_path: None,
                git: None,
                branch: None,
                tag: None,
                rev: None,
                features: None,
                no_default_features: None,
                all_features: None,
            }),
    {
        CargoInstallDependencyDetail { version: Some(version), ..Default::default() }
    }
}

impl Default for CargoInstallDependencyDetail {
    /// The empty specification: every field absent.
    fn default() -> (r: Self)
        ensures
            r@ == (DepDetailModel {
                bins: None,
                version: None,
                registry: None,
                index: None,
                path: None,
                absolute_path: None,
                git: None,
                branch: None,
                tag: None,
                rev: None,
                features: None,
                no_default_features: None,
                all_features: None,
            }),
    {
        CargoInstallDependencyDetail {
            bins: None,
            version: None,
            registry: None,
            index: None,
            path: None,
            absolute_path: None,
            git: None,
            branch: None,
            tag: None,
            rev: None,
            features: None,
            no_default_features: None,
            all_features: None,
        }
    }
}

impl Clone for CargoInstallDependencyDetail {
    fn clone(&self) -> (r: Self)
        ensures
            r@ == self@,
    {
        let r = CargoInstallDependencyDetail {
            bins: opt_str_vec_clone(&self.bins),
            version: opt_str_clone(&self.version),
            registry: opt_str_clone(&self.registry),
            index: opt_str_clone(&self.index),
            path: opt_str_clone(&self.path),
            absolute_path: opt_str_clone(&self.absolute_path),
            git: opt_str_clone(&self.git),
            branch: opt_str_clone(&self.branch),
            tag: opt_str_clone(&self.tag),
            rev: opt_str_clone(&self.rev),
            features: opt_str_vec_clone(&self.features),
            no_default_features: self.no_default_features,
            all_features: self.all_features,
        };
        proof {
            assert(r@ =~= self@);
        }
        r
    }
}

impl CargoInstallDependency {
    /// Whether this and `other` are the same specification, the derived
    /// `absolute_path` excluded.
    pub fn congruent(&self, other: &Self) -> (r: bool)
        ensures
            r == dep_congruent(self@, other@),
    {
        match self {
            CargoInstallDependency::Simple(a) => match other {
                CargoInstallDependency::Simple(b) => str_eq(a.as_str(), b.as_str()),
                CargoInstallDependency::Detailed(_) => false,
            },
            CargoInstallDependency::Detailed(a) => match other {
                CargoInstallDependency::Detailed(b) => a.congruent(b),
                CargoInstallDependency::Simple(_) => false,
            },
        }
    }

    /// A bare version is always valid; a detailed table is checked.
    pub fn validate(&self) -> (r: Result<(), String>)
        ensures
            r is Ok <==> dep_valid(self@),
            r matches Err(m) ==> m@ == "cargo dependency dependency should have version or path or git."@,
    {
        match self {
            CargoInstallDependency::Simple(_) => Ok(()),
            CargoInstallDependency::Detailed(d) => d.validate(),
        }
    }

    /// Resolves a detailed table's relative path; a bare version is
    /// untouched.
    pub fn fix(self, isobin_manifest_dir: &str) -> (r: Self)
        ensures
            r@ == spec_fix_dep(self@, isobin_manifest_dir@),
    {
        match self {
            CargoInstallDependency::Simple(_) => self,
            CargoInstallDependency::Detailed(d) => {
                CargoInstallDependency::Detailed(d.fix(isobin_manifest_dir))
            },
        }
    }
}

impl Clone for CargoInstallDependency {
    fn clone(&self) -> (r: Self)
        ensures
            r@ == self@,
    {
        match self {
            CargoInstallDependency::Simple(v) => CargoInstallDependency::Simple(v.clone()),
            CargoInstallDependency::Detailed(d) => CargoInstallDependency::Detailed(d.clone()),
        }
    }
}

/// A name needs an install this cycle exactly when the desired manifest
/// holds it and the cached one either lacks it, holds a structurally
/// different specification, or the name's tracked local files changed.
pub open spec fn need_install_cond(
    base: Map<Seq<char>, DepModel>,
    cached: Map<Seq<char>, DepModel>,
    changed: Seq<Seq<char>>,
    n: Seq<char>,
) -> bool {
    base.contains_key(n) && (!cached.contains_key(n) || !dep_congruent(base[n], cached[n])
        || changed.contains(n))
}

/// A name needs an uninstall exactly when the cached manifest holds it and
/// the desired one does not.
pub open spec fn need_uninstall_cond(
    base: Map<Seq<char>, DepModel>,
    cached: Map<Seq<char>, DepModel>,
    n: Seq<char>,
) -> bool {
    cached.contains_key(n) && !base.contains_key(n)
}

/// The names of the invalid entries, in manifest order.
pub open spec fn invalid_names(s: Seq<(Seq<char>, DepModel)>) -> Seq<Seq<char>>
    decreases s.len(),
{
    if s.len() == 0 {
        Seq::empty()
    } else {
        invalid_names(s.drop_last()) + if !dep_valid(s.last().1) {
            seq![s.last().0]
        } else {
            Seq::empty()
        }
    }
}

/// The cargo manifest: dependency specifications by unique name, in
/// insertion order.
pub struct CargoManifest {
    dependencies: StrMap<CargoInstallDependency>,
}

impl CargoManifest {
    /// The entries as name / specification-model pairs, in storage order.
    pub closed spec fn dep_seq(&self) -> Seq<(Seq<char>, DepModel)> {
        self.dependencies.kv_seq()
    }

    /// The denoted name-to-specification map.
    pub closed spec fn dep_map(&self) -> Map<Seq<char>, DepModel> {
        self.dependencies.as_map()
    }

    /// Well-formed: no name occurs twice.
    pub closed spec fn wf(&self) -> bool {
        self.dependencies.wf()
    }

    pub fn new() -> (r: Self)
        ensures
            r.wf(),
            r.dep_map() == Map::<Seq<char>, DepModel>::empty(),
            r.dep_seq() == Seq::<(Seq<char>, DepModel)>::empty(),
    {
        let r = CargoManifest { dependencies: StrMap::new() };
        proof {
            assert(r.dep_seq() =~= Seq::<(Seq<char>, DepModel)>::empty());
        }
        r
    }

    /// The dependency table itself.
    pub fn dependencies(&self) -> (r: &StrMap<CargoInstallDependency>)
        ensures
            r.kv_seq() == self.dep_seq(),
            r.as_map() == self.dep_map(),
            r.wf() == self.wf(),
    {
        &self.dependencies
    }

    /// A manifest around an already-built dependency table.
    pub fn make_from_new_dependencies(dependencies: StrMap<CargoInstallDependency>) -> (r: Self)
        ensures
            r.dep_seq() == dependencies.kv_seq(),
            r.dep_map() == dependencies.as_map(),
            r.wf() == dependencies.wf(),
    {
        CargoManifest { dependencies }
    }

    pub fn len(&self) -> (r: usize)
        ensures
            r == self.dep_seq().len(),
    {
        self.dependencies.len()
    }

    pub fn is_empty(&self) -> (r: bool)
        ensures
            r == (self.dep_seq().len() == 0),
    {
        self.dependencies.len() == 0
    }

    pub fn name_at(&self, i: usize) -> (r: &String)
        requires
            i < self.dep_seq().len(),
        ensures
            r@ == self.dep_seq()[i as int].0,
    {
        self.dependencies.key_at(i)
    }

    pub fn dependency_at(&self, i: usize) -> (r: &CargoInstallDependency)
        requires
            i < self.dep_seq().len(),
        ensures
            r@ == self.dep_seq()[i as int].1,
    {
        self.dependencies.value_at(i)
    }

    pub fn get_dependency(&self, name: &str) -> (r: Option<&CargoInstallDependency>)
        requires
            self.wf(),
        ensures
            match r {
                Some(d) => self.dep_map().contains_key(name@) && d@ == self.dep_map()[name@],
                None => !self.dep_map().contains_key(name@),
            },
    {
        self.dependencies.get(name)
    }

    pub fn insert_dependency(&mut self, name: String, dependency: CargoInstallDependency)
        requires
            old(self).wf(),
            !old(self).dep_map().contains_key(name@),
        ensures
            final(self).wf(),
            final(self).dep_map() == old(self).dep_map().insert(name@, dependency@),
            final(self).dep_seq() == old(self).dep_seq().push((name@, dependency@)),
    {
        self.dependencies.insert(name, dependency);
    }

    /// The manifest names no dependency exactly when it has no entries.
    pub proof fn lemma_no_entries_iff_no_names(&self)
        requires
            self.wf(),
        ensures
            (self.dep_seq().len() == 0) <==> (forall|n: Seq<char>|
                !self.dep_map().contains_key(n)),
    {
        self.dependencies.lemma_len_zero_iff_no_keys();
        if self.dep_seq().len() == 0 {
            assert forall|n: Seq<char>| !self.dep_map().contains_key(n) by {
                assert(!self.dependencies.as_map().contains_key(n));
            }
        } else {
            self.dependencies.lemma_entry_in_map(0);
            assert(self.dep_map().contains_key(self.dep_seq()[0].0));
        }
    }

    /// A structural copy: the same names and specifications in the same
    /// order.
    pub fn duplicate(&self) -> (r: Self)
        requires
            self.wf(),
        ensures
            r.wf(),
            r.dep_seq() == self.dep_seq(),
            r.dep_map() == self.dep_map(),
    {
        let n = self.dependencies.len();
        let mut r = CargoManifest::new();
        let mut i: usize = 0;
        while i < n
            invariant
                self.wf(),
                r.wf(),
                n == self.dep_seq().len(),
                i <= n,
                r.dep_seq() == self.dep_seq().take(i as int),
            decreases n - i,
        {
            let name = self.dependencies.key_at(i);
            let dep = self.dependencies.value_at(i);
            proof {
                if r.dep_map().contains_key(name@) {
                    r.dependencies.lemma_map_covered(name@);
                    let j = choose|j: int|
                        0 <= j < r.dep_seq().len() && r.dep_seq()[j].0 == name@;
                    assert(self.dep_seq()[j].0 == self.dep_seq()[i as int].0);
                    assert(false);
                }
            }
            r.insert_dependency(name.clone(), dep.clone());
            proof {
                assert(r.dep_seq() =~= self.dep_seq().take(i + 1));
            }
            i = i + 1;
        }
        proof {
            assert(self.dep_seq().take(n as int) =~= self.dep_seq());
        }
        r
    }

    /// The subset of `base` that needs an install this cycle, given the
    /// cached manifest of the last attempt and the names whose tracked
    /// local files changed: names absent from the cache, names whose
    /// specification differs structurally (the derived `absolute_path`
    /// excluded), and names reported changed.
    pub fn get_need_install_dependency_manifest(
        base: &Self,
        cached: &Self,
        changed_names: &Vec<String>,
    ) -> (r: Self)
        requires
            base.wf(),
            cached.wf(),
        ensures
            r.wf(),
            forall|n: Seq<char>| #[trigger]
                r.dep_map().contains_key(n) <==> need_install_cond(
                    base.dep_map(),
                    cached.dep_map(),
                    strs_view(changed_names@),
                    n,
                ),
            forall|n: Seq<char>| #[trigger]
                r.dep_map().contains_key(n) ==> r.dep_map()[n] == base.dep_map()[n],
    {
        let n = base.dependencies.len();
        let mut r = CargoManifest::new();
        let mut i: usize = 0;
        while i < n
            invariant
                base.wf(),
                cached.wf(),
                r.wf(),
                n == base.dep_seq().len(),
                i <= n,
                forall|k: Seq<char>| #[trigger]
                    r.dep_map().contains_key(k) ==> exists|j: int|
                        0 <= j < i && base.dep_seq()[j].0 == k,
                forall|j: int|
                    0 <= j < i ==> (r.dep_map().contains_key(#[trigger] base.dep_seq()[j].0)
                        <==> need_install_cond(
                        base.dep_map(),
                        cached.dep_map(),
                        strs_view(changed_names@),
                        base.dep_seq()[j].0,
                    )),
                forall|k: Seq<char>| #[trigger]
                    r.dep_map().contains_key(k) ==> r.dep_map()[k] == base.dep_map()[k],
            decreases n - i,
        {
            let name = base.dependencies.key_at(i);
            let dep = base.dependencies.value_at(i);
            proof {
                base.dependencies.lemma_entry_in_map(i as int);
            }
            let install = match cached.dependencies.get(name.as_str()) {
                Some(cached_dep) => {
                    if !dep.congruent(cached_dep) {
                        true
                    } else {
                        names_contain(changed_names, name.as_str())
                    }
                },
                None => true,
            };
            if install {
                proof {
                    if r.dep_map().contains_key(name@) {
                        let j = choose|j: int|
                            0 <= j < i && base.dep_seq()[j].0 == name@;
                        assert(base.dep_seq()[j].0 == base.dep_seq()[i as int].0);
                        assert(false);
                    }
                }
                r.insert_dependency(name.clone(), dep.clone());
            }
            i = i + 1;
        }
        proof {
            assert forall|k: Seq<char>| #[trigger]
                r.dep_map().contains_key(k) <==> need_install_cond(
                    base.dep_map(),
                    cached.dep_map(),
                    strs_view(changed_names@),
                    k,
                ) by {
                if need_install_cond(
                    base.dep_map(),
                    cached.dep_map(),
                    strs_view(changed_names@),
                    k,
                ) {
                    base.dependencies.lemma_map_covered(k);
                }
            }
        }
        r
    }

    /// The subset of the cached manifest whose names the desired manifest
    /// no longer holds.
    pub fn get_need_uninstall_dependency_manifest(base: &Self, cached: &Self) -> (r: Self)
        requires
            base.wf(),
            cached.wf(),
        ensures
            r.wf(),
            forall|n: Seq<char>| #[trigger]
                r.dep_map().contains_key(n) <==> need_uninstall_cond(
                    base.dep_map(),
                    cached.dep_map(),
                    n,
                ),
            forall|n: Seq<char>| #[trigger]
                r.dep_map().contains_key(n) ==> r.dep_map()[n] == cached.dep_map()[n],
    {
        let n = cached.dependencies.len();
        let mut r = CargoManifest::new();
        let mut i: usize = 0;
        while i < n
            invariant
                base.wf(),
                cached.wf(),
                r.wf(),
                n == cached.dep_seq().len(),
                i <= n,
                forall|k: Seq<char>| #[trigger]
                    r.dep_map().contains_key(k) ==> exists|j: int|
                        0 <= j < i && cached.dep_seq()[j].0 == k,
                forall|j: int|
                    0 <= j < i ==> (r.dep_map().contains_key(#[trigger] cached.dep_seq()[j].0)
                        <==> need_uninstall_cond(
                        base.dep_map(),
                        cached.dep_map(),
                        cached.dep_seq()[j].0,
                    )),
                forall|k: Seq<char>| #[trigger]
                    r.dep_map().contains_key(k) ==> r.dep_map()[k] == cached.dep_map()[k],
            decreases n - i,
        {
            let name = cached.dependencies.key_at(i);
            let dep = cached.dependencies.value_at(i);
            proof {
                cached.dependencies.lemma_entry_in_map(i as int);
            }
            if base.dependencies.get(name.as_str()).is_none() {
                proof {
                    if r.dep_map().contains_key(name@) {
                        let j = choose|j: int|
                            0 <= j < i && cached.dep_seq()[j].0 == name@;
                        assert(cached.dep_seq()[j].0 == cached.dep_seq()[i as int].0);
                        assert(false);
                    }
                }
                r.insert_dependency(name.clone(), dep.clone());
            }
            i = i + 1;
        }
        proof {
            assert forall|k: Seq<char>| #[trigger]
                r.dep_map().contains_key(k) <==> need_uninstall_cond(
                    base.dep_map(),
                    cached.dep_map(),
                    k,
                ) by {
                if need_uninstall_cond(base.dep_map(), cached.dep_map(), k) {
                    cached.dependencies.lemma_map_covered(k);
                }
            }
        }
        r
    }

    /// Whether `name` differs between this manifest and `other`: present
    /// here and absent there, or present in both with structurally
    /// different specifications, or with its tracked local files changed.
    pub fn ditect_difference(&self, other: &Self, name: &str, path_changed: bool) -> (r: bool)
        requires
            self.wf(),
            other.wf(),
        ensures
            r == (self.dep_map().contains_key(name@) && (!other.dep_map().contains_key(name@)
                || !dep_congruent(self.dep_map()[name@], other.dep_map()[name@]) || path_changed)),
    {
        match self.dependencies.get(name) {
            Some(dependency) => match other.dependencies.get(name) {
                Some(other_dependency) => !dependency.congruent(other_dependency) || path_changed,
                None => true,
            },
            None => false,
        }
    }

    /// Validation aggregates every invalid dependency into one error, in
    /// manifest order, rather than stopping at the first.
    pub fn validate(&self) -> (r: Result<(), IsobinManifestError>)
        requires
            self.wf(),
        ensures
            r is Ok <==> (forall|i: int|
                0 <= i < self.dep_seq().len() ==> dep_valid(#[trigger] self.dep_seq()[i].1)),
            r matches Err(e) ==> match e {
                IsobinManifestError::MultiValidate(es) => {
                    &&& es@.len() == invalid_names(self.dep_seq()).len()
                    &&& es@.len() > 0
                    &&& forall|k: int|
                        0 <= k < es@.len() ==> (#[trigger] es@[k].name@) == invalid_names(
                            self.dep_seq(),
                        )[k]
                    &&& forall|k: int|
                        0 <= k < es@.len() ==> (#[trigger] es@[k].provider) == ProviderKind::Cargo
                    &&& forall|k: int|
                        0 <= k < es@.len() ==> (#[trigger] es@[k].message)@
                            == "cargo dependency dependency should have version or path or git."@
                },
            },
    {
        let n = self.dependencies.len();
        let mut errs: Vec<ValidateError> = Vec::new();
        let mut i: usize = 0;
        while i < n
            invariant
                self.wf(),
                n == self.dep_seq().len(),
                i <= n,
                strs_view(errs@.map_values(|e: ValidateError| e.name)) =~= invalid_names(
                    self.dep_seq().take(i as int),
                ),
                forall|k: int|
                    0 <= k < errs@.len() ==> (#[trigger] errs@[k].provider) == ProviderKind::Cargo,
                forall|k: int|
                    0 <= k < errs@.len() ==> (#[trigger] errs@[k].message)@
                        == "cargo dependency dependency should have version or path or git."@,
                errs@.len() == 0 <==> (forall|j: int|
                    0 <= j < i ==> dep_valid(#[trigger] self.dep_seq()[j].1)),
            decreases n - i,
        {
            let name = self.dependencies.key_at(i);
            let dep = self.dependencies.value_at(i);
            let ghost prev = errs@;
            match dep.validate() {
                Ok(_) => {
                    proof {
                        assert(self.dep_seq().take(i + 1).drop_last() =~= self.dep_seq().take(
                            i as int,
                        ));
                    }
                },
                Err(message) => {
                    errs.push(ValidateError { provider: ProviderKind::Cargo, name: name.clone(), message });
                    proof {
                        assert(self.dep_seq().take(i + 1).drop_last() =~= self.dep_seq().take(
                            i as int,
                        ));
                        assert(errs@.map_values(|e: ValidateError| e.name) =~= prev.map_values(
                            |e: ValidateError| e.name,
                        ).push(errs@.last().name));
                        assert(strs_view(errs@.map_values(|e: ValidateError| e.name))
                            =~= strs_view(prev.map_values(|e: ValidateError| e.name)).push(
                            name@,
                        ));
                    }
                },
            }
            i = i + 1;
        }
        proof {
            assert(self.dep_seq().take(n as int) =~= self.dep_seq());
        }
        if errs.len() == 0 {
            Ok(())
        } else {
            Err(IsobinManifestError::MultiValidate(errs))
        }
    }

    /// Resolves every detailed entry's relative path against the directory
    /// holding the manifest; names, order and all other fields are kept.
    pub fn fix(self, isobin_manifest_dir: &str) -> (r: Self)
        requires
            self.wf(),
        ensures
            r.wf(),
            r.dep_seq().len() == self.dep_seq().len(),
            forall|i: int|
                0 <= i < self.dep_seq().len() ==> (#[trigger] r.dep_seq()[i]).0
                    == self.dep_seq()[i].0 && r.dep_seq()[i].1 == spec_fix_dep(
                    self.dep_seq()[i].1,
                    isobin_manifest_dir@,
                ),
    {
        let n = self.dependencies.len();
        let mut r = CargoManifest::new();
        let mut i: usize = 0;
        while i < n
            invariant
                self.wf(),
                r.wf(),
                n == self.dep_seq().len(),
                i <= n,
                r.dep_seq().len() == i,
                forall|j: int|
                    0 <= j < i ==> (#[trigger] r.dep_seq()[j]).0 == self.dep_seq()[j].0
                        && r.dep_seq()[j].1 == spec_fix_dep(
                        self.dep_seq()[j].1,
                        isobin_manifest_dir@,
                    ),
            decreases n - i,
        {
            let name = self.dependencies.key_at(i);
            let dep = self.dependencies.value_at(i);
            proof {
                if r.dep_map().contains_key(name@) {
                    r.dependencies.lemma_map_covered(name@);
                    let j = choose|j: int| 0 <= j < r.dep_seq().len() && r.dep_seq()[j].0 == name@;
                    assert(self.dep_seq()[j].0 == self.dep_seq()[i as int].0);
                    assert(false);
                }
            }
            r.insert_dependency(name.clone(), dep.clone().fix(isobin_manifest_dir));
            i = i + 1;
        }
        r
    }
}

/// The walk filter for a cargo local-path dependency: Rust sources by
/// extension, the manifest and lock files by name, and never the VCS or
/// build-output directories.
pub fn cargo_file_diff_helpers() -> (r: FileDiffHelpers)
    ensures
        strs_view(r.target_exts@) == seq!["rs"@],
        strs_view(r.target_file_names@) == seq!["Cargo.toml"@, "Cargo.lock"@],
        strs_view(r.exclude_file_names@) == Seq::<Seq<char>>::empty(),
        strs_view(r.exclude_dir_names@) == seq![".git"@, "target"@],
{
    let target_exts: Vec<String> = vec!["rs".to_owned()];
    let target_file_names: Vec<String> = vec!["Cargo.toml".to_owned(), "Cargo.lock".to_owned()];
    let exclude_file_names: Vec<String> = Vec::new();
    let exclude_dir_names: Vec<String> = vec![".git".to_owned(), "target".to_owned()];
    let r = FileDiffHelpers { target_exts, target_file_names, exclude_file_names, exclude_dir_names };
    proof {
        assert(strs_view(r.target_exts@) =~= seq!["rs"@]);
        assert(strs_view(r.target_file_names@) =~= seq!["Cargo.toml"@, "Cargo.lock"@]);
        assert(strs_view(r.exclude_file_names@) =~= Seq::<Seq<char>>::empty());
        assert(strs_view(r.exclude_dir_names@) =~= seq![".git"@, "target"@]);
    }
    r
}

/// Whether a dependency needs a rebuild because of local file changes:
/// only a detailed local-path dependency can, and it does exactly when the
/// fresh signatures of its tracked directory no longer agree with the
/// recorded ones. The walk producing the fresh signatures happens outside
/// the library.
pub fn check_need_build_in_path(
    dependency: &CargoInstallDependency,
    current_signatures: &FileModifiedCacheMap,
    cached_signatures: &FileModifiedCacheMap,
) -> (r: bool)
    requires
        current_signatures.wf(),
        cached_signatures.wf(),
    ensures
        r == match dependency@ {
            DepModel::Simple(_) => false,
            DepModel::Detailed(d) => d.path is Some && !signature_maps_agree(
                current_signatures.as_map(),
                cached_signatures.as_map(),
            ),
        },
{
    match dependency {
        CargoInstallDependency::Simple(_) => false,
        CargoInstallDependency::Detailed(d) => {
            if d.path.is_some() {
                has_file_diff(current_signatures, cached_signatures)
            } else {
                false
            }
        },
    }
}

/// One named install the cargo runner will execute.
#[derive(Debug, PartialEq)]
pub struct CargoInstallTarget {
    pub name: String,
    pub install_dependency: CargoInstallDependency,
}

impl CargoInstallTarget {
    pub fn new(name: String, install_dependency: CargoInstallDependency) -> (r: Self)
        ensures
            r.name@ == name@,
            r.install_dependency@ == install_dependency@,
    {
        CargoInstallTarget { name, install_dependency }
    }
}

impl Clone for CargoInstallTarget {
    fn clone(&self) -> (r: Self)
        ensures
            r.name@ == self.name@,
            r.install_dependency@ == self.install_dependency@,
    {
        CargoInstallTarget {
            name: self.name.clone(),
            install_dependency: self.install_dependency.clone(),
        }
    }
}

/// No spurious reinstall: when the cached manifest equals the desired one
/// and no tracked local files changed, no name meets the need-install
/// condition.
pub proof fn lemma_no_spurious_reinstall(base: Map<Seq<char>, DepModel>, n: Seq<char>)
    ensures
        !need_install_cond(base, base, Seq::<Seq<char>>::empty(), n),
{
    if base.contains_key(n) {
        assert(dep_congruent(base[n], base[n])) by {
            match base[n] {
                DepModel::Simple(_) => {},
                DepModel::Detailed(_) => {},
            }
        }
    }
}

/// Diffing against a cache whose names the desired manifest covers
/// uninstalls nothing; the other way around, exactly the desired-minus-cache
/// names are uninstalled.
pub proof fn lemma_need_uninstall_subset(
    a: Map<Seq<char>, DepModel>,
    b: Map<Seq<char>, DepModel>,
    n: Seq<char>,
)
    requires
        forall|k: Seq<char>| #[trigger] b.contains_key(k) ==> a.contains_key(k),
    ensures
        !need_uninstall_cond(a, b, n),
        need_uninstall_cond(b, a, n) <==> a.contains_key(n) && !b.contains_key(n),
{
}

/// Changing any field of a detailed specification other than the derived
/// `absolute_path` makes it structurally different from the stored one.
pub proof fn lemma_detail_field_change_breaks_congruence(a: DepDetailModel, b: DepDetailModel)
    requires
        a.bins != b.bins || a.version != b.version || a.registry != b.registry || a.index
            != b.index || a.path != b.path || a.git != b.git || a.branch != b.branch || a.tag
            != b.tag || a.rev != b.rev || a.features != b.features || a.no_default_features
            != b.no_default_features || a.all_features != b.all_features,
    ensures
        !dep_congruent(DepModel::Detailed(a), DepModel::Detailed(b)),
{
}

/// A structural change to a name's specification makes it need an install
/// again even though the cached manifest holds the name.
pub proof fn lemma_changed_field_reinstalls(
    base: Map<Seq<char>, DepModel>,
    cached: Map<Seq<char>, DepModel>,
    changed: Seq<Seq<char>>,
    n: Seq<char>,
)
    requires
        base.contains_key(n),
        cached.contains_key(n),
        !dep_congruent(base[n], cached[n]),
    ensures
        need_install_cond(base, cached, changed, n),
{
}

/// A local-path dependency whose tracked files changed needs an install
/// again whatever the cached manifest holds of it.
pub proof fn lemma_tracked_file_change_reinstalls(
    base: Map<Seq<char>, DepModel>,
    cached: Map<Seq<char>, DepModel>,
    changed: Seq<Seq<char>>,
    n: Seq<char>,
)
    requires
        base.contains_key(n),
        changed.contains(n),
    ensures
        need_install_cond(base, cached, changed, n),
{
}

} // verus!
