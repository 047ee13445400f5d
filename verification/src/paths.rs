//! Locations of the persisted stores, relative to an explicitly given
//! base directory.

use vstd::prelude::*;
use vstd::string::StringExecFns;

verus! {

/// Where the asset index lives under `base`.
pub fn get_asset_index_path(base: &str) -> (r: String)
    ensures
        r@ == base@ + "/.cemetery/asset-index.json"@,
{
    let mut s = String::from_str(base);
    s.append("/.cemetery/asset-index.json");
    s
}

/// Where the tombstone registry lives under `base`.
pub fn get_tombstone_registry_path(base: &str) -> (r: String)
    ensures
        r@ == base@ + "/.cemetery/tombstone-registry.json"@,
{
    let mut s = String::from_str(base);
    s.append("/.cemetery/tombstone-registry.json");
    s
}

} // verus!
