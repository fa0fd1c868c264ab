//! The document pipeline: version detection, decoding at the source
//! version, the migration chain, and encoding at the target version.
//!
//! This is the library's entry point for a whole run on one in-memory JSON
//! document; reading text in and writing text out belong to the caller.

use vstd::prelude::*;
use crate::chain::{VersionedCrate, migrate_to};
use crate::codec::{dec_crate, enc_crate};
use crate::decode::decode_crate_v1;
use crate::decode_v2::decode_crate_v2;
use crate::decode_v3::decode_crate_v3;
use crate::encode::encode_crate_v1;
use crate::encode_v2::encode_crate_v2;
use crate::encode_v3::encode_crate_v3;
use crate::error::MigrateError;
use crate::json::{JsonValue, JsonModel, spec_lookup, lookup};
use crate::model::spec_chain;
use crate::version::{version_supported, is_supported, parse_version};

verus! {

/// The version marker embedded in a document, when one is there.
pub open spec fn spec_detect(j: JsonModel) -> Option<u64> {
    match j {
        JsonModel::Obj(es) => match spec_lookup(es, "schema_version"@) {
            Option::Some(JsonModel::UInt(n)) => Option::Some(n),
            _ => Option::None,
        },
        _ => Option::None,
    }
}

/// Reads the embedded version marker off a document.
pub fn detect_version(j: &JsonValue) -> (r: Option<u64>)
    ensures
        r == spec_detect(j.model()),
{
    match j {
        JsonValue::Obj(o) => match lookup(o, &String::from_str("schema_version")) {
            Some(JsonValue::UInt(n)) => Some(*n),
            _ => None,
        },
        _ => None,
    }
}

/// Migrates one document to the requested target version.
///
/// The source version is the document's embedded marker.  The run fails
/// with an unsupported-version error when the target or the marker lies
/// outside the registry, with a downgrade error when the source is newer
/// than the target, and with a shape error when the document does not
/// conform to its claimed version.  With source and target equal the
/// document is validated and returned unchanged, with no migration step;
/// otherwise the result is the migrated document, encoded canonically at
/// the target version.
pub fn migrate_document(doc: JsonValue, target: u32) -> (r: Result<JsonValue, MigrateError>)
    ensures
        !version_supported(target as int) ==> (r matches Err(e) && e is UnsupportedVersion),
        version_supported(target as int) ==> match spec_detect(doc.model()) {
            Option::None => r matches Err(e) && e is UnsupportedVersion,
            Option::Some(s) => {
                if !version_supported(s as int) {
                    r matches Err(e) && e is UnsupportedVersion
                } else if s > target {
                    r matches Err(e) && e is Downgrade
                } else {
                    match dec_crate(doc.model(), s as int) {
                        Option::Some(m) => {
                            if s == target {
                                r matches Ok(out) && out == doc
                            } else {
                                r matches Ok(out) && out.model() == enc_crate(
                                    spec_chain(m, s as int, target as int),
                                    target as int,
                                )
                            }
                        },
                        Option::None => r matches Err(e) && e is Shape,
                    }
                }
            },
        },
{
    if !is_supported(target) {
        return Err(MigrateError::UnsupportedVersion { found: target as u64 });
    }
    let raw: u64 = match detect_version(&doc) {
        Some(n) => n,
        None => {
            return Err(MigrateError::UnsupportedVersion { found: 0 });
        },
    };
    let source: u32 = match parse_version(raw) {
        Some(v) => v,
        None => {
            return Err(MigrateError::UnsupportedVersion { found: raw });
        },
    };
    if source > target {
        return Err(MigrateError::Downgrade { source, target });
    }
    let vc: VersionedCrate = if source == 1 {
        match decode_crate_v1(&doc) {
            Ok(c) => VersionedCrate::V1(c),
            Err(e) => {
                return Err(e);
            },
        }
    } else if source == 2 {
        match decode_crate_v2(&doc) {
            Ok(c) => VersionedCrate::V2(c),
            Err(e) => {
                return Err(e);
            },
        }
    } else {
        match decode_crate_v3(&doc) {
            Ok(c) => VersionedCrate::V3(c),
            Err(e) => {
                return Err(e);
            },
        }
    };
    if source == target {
        return Ok(doc);
    }
    let migrated = migrate_to(vc, target);
    let out: JsonValue = match migrated {
        VersionedCrate::V1(c) => encode_crate_v1(c),
        VersionedCrate::V2(c) => encode_crate_v2(c),
        VersionedCrate::V3(c) => encode_crate_v3(c),
    };
    Ok(out)
}

} // verus!
