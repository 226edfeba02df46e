//! The desired-state configuration: one manifest per provider, loaded from
//! a configuration file whose reading and parsing happen outside the
//! library. Which parser applies is decided here from the file extension.

use vstd::prelude::*;
use crate::errors::IsobinConfigError;
use crate::providers::cargo::{need_install_cond, CargoManifest, DepModel};
use crate::strops::{after_last, spec_extension, str_eq, strs_view, suffix_after_last, extension_of};

verus! {

/// The configuration formats the tool reads.
#[derive(Clone, Copy, Debug, PartialEq, Eq, Structural)]
pub enum ConfigFileExtensions {
    Yaml,
    Toml,
}

/// The desired manifest of every provider, as parsed from the
/// configuration file.
pub struct IsobinConfig {
    cargo: CargoManifest,
}

impl IsobinConfig {
    /// The cargo manifest's entries, in storage order.
    pub closed spec fn cargo_seq(&self) -> Seq<(Seq<char>, DepModel)> {
        self.cargo.dep_seq()
    }

    /// The cargo manifest's denoted name-to-specification map.
    pub closed spec fn cargo_map(&self) -> Map<Seq<char>, DepModel> {
        self.cargo.dep_map()
    }

    pub closed spec fn wf(&self) -> bool {
        self.cargo.wf()
    }

    pub fn new(cargo: CargoManifest) -> (r: Self)
        ensures
            r.cargo_seq() == cargo.dep_seq(),
            r.cargo_map() == cargo.dep_map(),
            r.wf() == cargo.wf(),
    {
        IsobinConfig { cargo }
    }

    pub fn cargo(&self) -> (r: &CargoManifest)
        ensures
            r.dep_seq() == self.cargo_seq(),
            r.dep_map() == self.cargo_map(),
            r.wf() == self.wf(),
    {
        &self.cargo
    }

    /// A structural copy.
    pub fn duplicate(&self) -> (r: Self)
        requires
            self.wf(),
        ensures
            r.wf(),
            r.cargo_seq() == self.cargo_seq(),
            r.cargo_map() == self.cargo_map(),
    {
        IsobinConfig { cargo: self.cargo.duplicate() }
    }

    /// The configuration format a path's extension selects.
    pub fn get_file_extension(path: &str) -> (r: Result<ConfigFileExtensions, IsobinConfigError>)
        ensures
            ({
                let ext = spec_extension(after_last(path@, '/'));
                match r {
                    Ok(ConfigFileExtensions::Toml) => ext == Some("toml"@),
                    Ok(ConfigFileExtensions::Yaml) => ext == Some("yml"@) || ext == Some("yaml"@),
                    Err(IsobinConfigError::NothingFileExtension) => ext is None,
                    Err(IsobinConfigError::UnknownFileExtension(s)) => ext matches Some(x) && s@
                        == x && x != "toml"@ && x != "yml"@ && x != "yaml"@,
                    Err(_) => false,
                }
            }),
    {
        let file_name = suffix_after_last(path, '/');
        match extension_of(file_name.as_str()) {
            None => Err(IsobinConfigError::NothingFileExtension),
            Some(extension) => {
                if str_eq(extension.as_str(), "toml") {
                    Ok(ConfigFileExtensions::Toml)
                } else if str_eq(extension.as_str(), "yml") || str_eq(extension.as_str(), "yaml") {
                    Ok(ConfigFileExtensions::Yaml)
                } else {
                    Err(IsobinConfigError::UnknownFileExtension(extension))
                }
            },
        }
    }

    /// The subset of the desired configuration that needs an install, given
    /// the cached configuration of the last attempt and the names whose
    /// tracked local files changed.
    pub fn get_need_install_config(
        base: &Self,
        cached: &Self,
        changed_names: &Vec<String>,
    ) -> (r: Self)
        requires
            base.wf(),
            cached.wf(),
        ensures
            r.wf(),
            forall|n: Seq<char>| #[trigger]
                r.cargo_map().contains_key(n) <==> need_install_cond(
                    base.cargo_map(),
                    cached.cargo_map(),
                    strs_view(changed_names@),
                    n,
                ),
            forall|n: Seq<char>| #[trigger]
                r.cargo_map().contains_key(n) ==> r.cargo_map()[n] == base.cargo_map()[n],
    {
        IsobinConfig {
            cargo: CargoManifest::get_need_install_dependency_manifest(
                &base.cargo,
                &cached.cargo,
                changed_names,
            ),
        }
    }
}

} // verus!
