//! Pluggable install providers. Each provider installs one ecosystem's
//! tools; the manifest, diffing and validation rules of the cargo provider
//! live in [`cargo`].

use vstd::prelude::*;

pub mod cargo;

verus! {

/// The provider a dependency or an error belongs to.
#[derive(Clone, Copy, Debug, PartialEq, Eq, Structural)]
pub enum ProviderKind {
    Cargo,
}

} // verus!
