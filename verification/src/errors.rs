//! Error values surfaced by the library. Every error carries enough plain
//! data — provider, dependency name, message — for a caller to re-run only
//! what failed.

use vstd::prelude::*;
use crate::providers::ProviderKind;

verus! {

/// Failure to read a configuration file into a manifest. Reading and
/// parsing happen outside the library; the variants carry their messages.
#[derive(Debug, PartialEq)]
pub enum IsobinConfigError {
    /// The configuration path has no file extension.
    NothingFileExtension,
    /// The configuration path has an extension the tool does not know.
    UnknownFileExtension(String),
    /// The configuration file could not be read.
    ReadIsobinConfig(String),
    /// The configuration text could not be parsed.
    ParseIsobinConfig(String),
}

/// One dependency specification that failed validation.
#[derive(Debug, PartialEq)]
pub struct ValidateError {
    pub provider: ProviderKind,
    pub name: String,
    pub message: String,
}

/// Manifest-level failure: validation aggregates every offending
/// dependency rather than stopping at the first.
#[derive(Debug, PartialEq)]
pub enum IsobinManifestError {
    MultiValidate(Vec<ValidateError>),
}

} // verus!
