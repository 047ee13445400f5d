//! Registry and alert engine for a "code cemetery": records of retired
//! software assets (tombstones), a staleness scanner that classifies
//! repositories as dead, and a resurrection-alert lifecycle.

pub mod alerts;
pub mod asset;
pub mod config;
pub mod paths;
pub mod scanner;
pub mod stats;
pub mod strutil;
pub mod timefmt;
pub mod tombstone;

use vstd::prelude::*;

verus! {

/// The error taxonomy shared by all stores.
#[derive(Clone, Copy, Debug, PartialEq, Eq, Structural)]
pub enum CemeteryError {
    /// A file read or write failed at the storage boundary.
    IoError,
    /// A persisted document could not be parsed.
    ParseError,
    /// A remote fetch failed during a scan.
    NetworkError,
    /// Derived counts were inconsistent (e.g. more alive assets than assets).
    DataIntegrityError,
}

} // verus!
