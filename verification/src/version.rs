//! The version registry: the closed, totally ordered range of supported
//! schema versions.

use vstd::prelude::*;
use crate::{VERSION_MIN, VERSION_MAX};

verus! {

/// True exactly when `v` is a supported schema version.
pub open spec fn version_supported(v: int) -> bool {
    VERSION_MIN <= v <= VERSION_MAX
}

/// Returns whether `v` is a supported schema version.
pub fn is_supported(v: u32) -> (r: bool)
    ensures
        r == version_supported(v as int),
{
    VERSION_MIN <= v && v <= VERSION_MAX
}

/// Parses a version number, accepting exactly the supported range.
///
/// The argument is a raw number as it appears in a document's version
/// marker; parsing never succeeds for a value outside the closed range.
pub fn parse_version(raw: u64) -> (r: Option<u32>)
    ensures
        r matches Some(v) ==> v == raw && version_supported(v as int),
        r is None ==> !version_supported(raw as int),
{
    if (VERSION_MIN as u64) <= raw && raw <= (VERSION_MAX as u64) {
        Some(raw as u32)
    } else {
        None
    }
}

/// The version after `v`, or `None` when `v` is the maximum (or unsupported).
pub fn next_version(v: u32) -> (r: Option<u32>)
    ensures
        r matches Some(n) ==> n == v + 1 && version_supported(v as int) && v < VERSION_MAX,
        r is None ==> !(version_supported(v as int) && v < VERSION_MAX),
{
    if VERSION_MIN <= v && v < VERSION_MAX {
        Some(v + 1)
    } else {
        None
    }
}

} // verus!
