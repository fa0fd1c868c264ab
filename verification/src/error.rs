//! The error taxonomy of a migration run.

use vstd::prelude::*;

verus! {

/// Why a migration run failed.
///
/// Every failure is fatal: either the whole document migrates or nothing
/// is produced.
#[derive(Debug, PartialEq, Eq)]
pub enum MigrateError {
    /// The requested target or detected source version lies outside the
    /// supported range, or the version marker is missing or malformed.
    UnsupportedVersion { found: u64 },
    /// The detected source version is newer than the requested target;
    /// no downgrade path exists.
    Downgrade { source: u32, target: u32 },
    /// The document does not conform to the source version's schema; the
    /// path names the offending field, outermost key first.
    Shape { path: Vec<String> },
}

impl MigrateError {
    /// A shape error at one key.
    pub fn shape_at(key: &str) -> (r: MigrateError)
        ensures
            r is Shape,
    {
        MigrateError::Shape { path: vec![String::from_str(key)] }
    }

    /// Prefixes an enclosing key to a shape error's path; other errors are
    /// returned unchanged.
    pub fn nested(self, key: &str) -> (r: MigrateError)
        ensures
            r is Shape <==> self is Shape,
            !(self is Shape) ==> r == self,
    {
        match self {
            MigrateError::Shape { mut path } => {
                path.insert(0, String::from_str(key));
                MigrateError::Shape { path }
            },
            e => e,
        }
    }
}

} // verus!
