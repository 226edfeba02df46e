//! The install-section configuration shape: a file whose `install` table
//! holds one manifest per provider. Reading and parsing the file happen
//! outside the library.

use vstd::prelude::*;
use crate::providers::cargo::{CargoManifest, DepModel};

verus! {

/// The `install` table: one manifest per provider.
pub struct InstallConfig {
    cargo: CargoManifest,
}

impl InstallConfig {
    pub closed spec fn cargo_seq(&self) -> Seq<(Seq<char>, DepModel)> {
        self.cargo.dep_seq()
    }

    pub closed spec fn cargo_map(&self) -> Map<Seq<char>, DepModel> {
        self.cargo.dep_map()
    }

    pub closed spec fn wf(&self) -> bool {
        self.cargo.wf()
    }

    pub fn new(cargo: CargoManifest) -> (r: Self)
        ensures
            r.cargo_seq() == cargo.dep_seq(),
            r.cargo_map() == cargo.dep_map(),
            r.wf() == cargo.wf(),
    {
        InstallConfig { cargo }
    }

    pub fn cargo(&self) -> (r: &CargoManifest)
        ensures
            r.dep_seq() == self.cargo_seq(),
            r.dep_map() == self.cargo_map(),
            r.wf() == self.wf(),
    {
        &self.cargo
    }
}

/// A whole install-section configuration file.
pub struct IsobinInstallConfig {
    install: InstallConfig,
}

impl IsobinInstallConfig {
    pub closed spec fn install_cargo_seq(&self) -> Seq<(Seq<char>, DepModel)> {
        self.install.cargo_seq()
    }

    pub closed spec fn install_cargo_map(&self) -> Map<Seq<char>, DepModel> {
        self.install.cargo_map()
    }

    pub closed spec fn wf(&self) -> bool {
        self.install.wf()
    }

    pub fn new(install: InstallConfig) -> (r: Self)
        ensures
            r.install_cargo_seq() == install.cargo_seq(),
            r.install_cargo_map() == install.cargo_map(),
            r.wf() == install.wf(),
    {
        IsobinInstallConfig { install }
    }

    pub fn install(&self) -> (r: &InstallConfig)
        ensures
            r.cargo_seq() == self.install_cargo_seq(),
            r.cargo_map() == self.install_cargo_map(),
            r.wf() == self.wf(),
    {
        &self.install
    }
}

} // verus!
