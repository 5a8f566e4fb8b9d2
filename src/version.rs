//! The optimistic-concurrency guard on capsule and item updates. The caller
//! names the version it last saw, in the query (`etag`), in the body, or in
//! both; the update goes ahead only when that is the current version.
use vstd::prelude::*;

use crate::store::StoreError;

verus! {

/// The version the caller expects: the query's, else the body's.
pub open spec fn expected_version(etag: Option<u32>, body_version: Option<u32>) -> Option<u32> {
    match etag {
        Some(e) => Some(e),
        None => body_version,
    }
}

/// Why an update expecting `etag` / `body_version` is refused on a record at
/// version `current`, if it is.
pub open spec fn version_error(etag: Option<u32>, body_version: Option<u32>, current: u32) -> Option<
    StoreError,
> {
    if etag is Some && body_version is Some && etag != body_version {
        Some(StoreError::VersionConflictRequest)
    } else {
        match expected_version(etag, body_version) {
            None => Some(StoreError::VersionRequired),
            Some(v) => if v != current {
                Some(StoreError::StaleVersion)
            } else {
                None
            },
        }
    }
}

/// Checks the caller's expected version against the record's `current` one.
pub fn check_version(etag: Option<u32>, body_version: Option<u32>, current: u32) -> (r: Result<
    (),
    StoreError,
>)
    ensures
        match version_error(etag, body_version, current) {
            Some(e) => r == Err::<(), StoreError>(e),
            None => r is Ok,
        },
{
    match (etag, body_version) {
        (Some(e), Some(v)) => if e != v {
            return Err(StoreError::VersionConflictRequest);
        },
        _ => {},
    }
    let expected = match etag {
        Some(e) => Some(e),
        None => body_version,
    };
    match expected {
        None => Err(StoreError::VersionRequired),
        Some(v) => if v != current {
            Err(StoreError::StaleVersion)
        } else {
            Ok(())
        },
    }
}

} // verus!
