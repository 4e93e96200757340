//! The repository's operations on storage: uploading a package and deleting
//! one, each followed by a rebuild of that type's index.

use vstd::prelude::*;
use crate::extract::{extract_metadata, extract_record, is_record_of, metadata_of};
use crate::index::PackageRecord;
use crate::processor::{classify, classify_upload, lower_of, PackageType, RepoError};
use crate::rebuild::{all_extract, fails_with, rebuild, records_of_store};
use crate::release::index_published;
use crate::storage::{blob_key, blob_key_spec, MemoryStorage};

verus! {

/// The extension of stored blobs of type `t`.
pub open spec fn blob_ext_spec(t: PackageType) -> Seq<char> {
    match t {
        PackageType::Deb => "deb"@,
        PackageType::Rpm => "rpm"@,
        PackageType::Arch => "pkg.tar.gz"@,
        PackageType::Alpine => "apk"@,
    }
}

/// The extension of stored blobs of type `t`.
pub fn blob_ext(t: PackageType) -> (r: &'static str)
    ensures
        r@ == blob_ext_spec(t),
{
    match t {
        PackageType::Deb => "deb",
        PackageType::Rpm => "rpm",
        PackageType::Arch => "pkg.tar.gz",
        PackageType::Alpine => "apk",
    }
}

/// After storage went from `mid` to `after`, the rebuild of type `t` at
/// `stamp` ended as `ok` or with `err`: it succeeds exactly when every
/// stored blob of the type yields its metadata; on failure storage stays at
/// `mid`; on success the index is published from the records of every
/// stored blob.
pub open spec fn rebuilt(
    mid: Map<Seq<char>, Seq<u8>>,
    after: Map<Seq<char>, Seq<u8>>,
    t: PackageType,
    stamp: Seq<char>,
    ok: bool,
    err: Option<RepoError>,
) -> bool {
    &&& ok <==> all_extract(mid, t)
    &&& err matches Some(e) ==> fails_with(mid, t, e) && after == mid
    &&& ok ==> exists|recs: Seq<PackageRecord>|
        records_of_store(mid, t, recs) && index_published(t, mid, after, recs, stamp)
}

/// Uploads the package `blob` named `filename`: classifies the name,
/// extracts the metadata, stores the blob under its name and version, and
/// rebuilds the index of its type at `stamp`. A name of no known type, or a
/// blob whose metadata cannot be read, is refused with storage unchanged.
pub fn upload(store: &mut MemoryStorage, filename: &str, blob: &[u8], stamp: &str) -> (r: Result<
    PackageRecord,
    RepoError,
>)
    requires
        old(store).wf(),
    ensures
        final(store).wf(),
        match classify(lower_of(filename@)) {
            None => r matches Err(e) && e == RepoError::UnknownFormat && final(store)@ == old(
                store,
            )@,
            Some(t) => match metadata_of(t, blob@) {
                Err(e) => r matches Err(x) && x == e && final(store)@ == old(store)@,
                Ok(m) => {
                    let key = blob_key_spec(t, m.0, m.1, blob_ext_spec(t));
                    let mid = old(store)@.insert(key, blob@);
                    &&& rebuilt(
                        mid,
                        final(store)@,
                        t,
                        stamp@,
                        r is Ok,
                        match r {
                            Ok(_) => None,
                            Err(e) => Some(e),
                        },
                    )
                    &&& r matches Ok(rec) ==> is_record_of(t, blob@, key, rec)
                },
            },
        },
{
    let t = match classify_upload(filename) {
        Ok(t) => t,
        Err(e) => {
            return Err(e);
        },
    };
    let m = match extract_metadata(t, blob) {
        Ok(m) => m,
        Err(e) => {
            return Err(e);
        },
    };
    let key = blob_key(t, m.name.as_str(), m.version.as_str(), blob_ext(t));
    let rec = match extract_record(t, blob, key.as_str()) {
        Ok(rec) => rec,
        Err(e) => {
            return Err(e);
        },
    };
    let _ = store.write(key.as_str(), blob);
    match rebuild(store, t, stamp) {
        Ok(()) => Ok(rec),
        Err(e) => Err(e),
    }
}

/// Deletes the package `name` at `version` of type `t` (deleting one that
/// is not stored is no error) and rebuilds the index of the type at
/// `stamp`.
pub fn delete_package(
    store: &mut MemoryStorage,
    t: PackageType,
    name: &str,
    version: &str,
    stamp: &str,
) -> (r: Result<(), RepoError>)
    requires
        old(store).wf(),
    ensures
        final(store).wf(),
        rebuilt(
            old(store)@.remove(blob_key_spec(t, name@, version@, blob_ext_spec(t))),
            final(store)@,
            t,
            stamp@,
            r is Ok,
            match r {
                Ok(_) => None,
                Err(e) => Some(e),
            },
        ),
{
    let key = blob_key(t, name, version, blob_ext(t));
    let _ = store.delete(key.as_str());
    rebuild(store, t, stamp)
}

} // verus!
