//! The chain orchestrator over typed documents: a document at any
//! supported version is driven, one single-step migration at a time, up to
//! the requested target version.

use vstd::prelude::*;
use crate::migrate::{crate_1_to_2, crate_2_to_3};
use crate::model::{spec_step, spec_chain, CrateModel};
use crate::version::version_supported;
use crate::{v1, v2, v3};

verus! {

/// A document at whichever supported version it currently has.
pub enum VersionedCrate {
    V1(v1::Crate),
    V2(v2::Crate),
    V3(v3::Crate),
}

impl VersionedCrate {
    /// The version this document is at.
    pub open spec fn version(self) -> int {
        match self {
            VersionedCrate::V1(_) => 1,
            VersionedCrate::V2(_) => 2,
            VersionedCrate::V3(_) => 3,
        }
    }

    /// The document's model.
    pub open spec fn model(self) -> CrateModel {
        match self {
            VersionedCrate::V1(c) => c.model(),
            VersionedCrate::V2(c) => c.model(),
            VersionedCrate::V3(c) => c.model(),
        }
    }

    /// Well formed: the declaration keys are pairwise distinct.
    pub open spec fn wf(self) -> bool {
        match self {
            VersionedCrate::V1(c) => c.wf(),
            VersionedCrate::V2(c) => c.wf(),
            VersionedCrate::V3(c) => c.wf(),
        }
    }

    /// Reads the version off the document.
    pub fn current_version(&self) -> (v: u32)
        ensures
            v == self.version(),
    {
        match self {
            VersionedCrate::V1(_) => 1,
            VersionedCrate::V2(_) => 2,
            VersionedCrate::V3(_) => 3,
        }
    }

    /// Applies the single-step migration to the next version.
    pub fn step_up(self) -> (r: VersionedCrate)
        requires
            self.wf(),
            self.version() < 3,
        ensures
            r.wf(),
            r.version() == self.version() + 1,
            r.model() == spec_step(self.model(), self.version()),
    {
        match self {
            VersionedCrate::V1(c) => VersionedCrate::V2(crate_1_to_2(c)),
            VersionedCrate::V2(c) => VersionedCrate::V3(crate_2_to_3(c)),
            VersionedCrate::V3(c) => {
                proof {
                    assert(false);
                }
                VersionedCrate::V3(c)
            },
        }
    }
}

/// Drives a document from its current version up to `target` by chaining
/// single-step migrations; with the versions already equal it performs no
/// step and returns the document as it is.
pub fn migrate_to(c: VersionedCrate, target: u32) -> (r: VersionedCrate)
    requires
        c.wf(),
        version_supported(target as int),
        c.version() <= target,
    ensures
        r.wf(),
        r.version() == target,
        r.model() == spec_chain(c.model(), c.version(), target as int),
        c.version() == target ==> r == c,
{
    let ghost orig = c;
    let mut cur = c;
    let mut v = cur.current_version();
    while v < target
        invariant
            cur.wf(),
            v == cur.version(),
            version_supported(target as int),
            cur.version() <= target,
            spec_chain(orig.model(), orig.version(), target as int)
                == spec_chain(cur.model(), cur.version(), target as int),
            orig.version() == target ==> cur == orig,
        decreases target - v,
    {
        cur = cur.step_up();
        v = cur.current_version();
    }
    cur
}

} // verus!
