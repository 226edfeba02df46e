//! Tool-installation orchestration core: manifest diffing for incremental
//! installs, file-signature based change detection for local-path
//! dependencies, workspace staging with atomic promotion, and the decision
//! logic of the concurrent install cycle.
//!
//! Everything environment-facing — reading configuration files, walking
//! directories, renaming workspace trees, invoking a provider's underlying
//! tooling — lives outside this crate and hands plain values in; the
//! decisions made on those values are specified and verified here.

pub mod config;
pub mod errors;
pub mod file_modified;
pub mod install;
pub mod isobin;
pub mod paths;
pub mod providers;
pub mod strmap;
pub mod strops;
