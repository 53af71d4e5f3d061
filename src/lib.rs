//! Compatibility-matrix engine for MoonBit packages and repositories.
//!
//! - `dashboard`: the data model of a run and the assembly of its document.
//! - `matrix`: the matrix runner, as a step machine that asks its driver to
//!   run toolchain commands and fills the check/build/test cells.
//! - `orchestrator`: the build of one source over its versions or revisions.
//! - `config`: declarations and the source list built from them.
//! - `mooncakesio`: the registry listing, archive URLs and index paths.
//! - `refresh`: bringing package declarations up to date with the registry.
//! - `snapshot`: where the snapshots of a run are written.
//! - `text`, `order`: character-level helpers and the order of names.
pub mod config;
pub mod dashboard;
pub mod matrix;
pub mod mooncakesio;
pub mod orchestrator;
pub mod order;
pub mod refresh;
pub mod snapshot;
pub mod text;
