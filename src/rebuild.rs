//! Rebuilding an index from the blobs in storage: every stored blob of the
//! type is read and its metadata extracted again, and only when all succeed
//! is the new index published.

use vstd::prelude::*;
use crate::extract::{extract_record, is_record_of, metadata_of};
use crate::metadata::MetadataModel;
use crate::index::PackageRecord;
use crate::processor::{PackageType, RepoError};
use crate::release::{index_published, publish_index};
use crate::storage::{blob_prefix, blob_prefix_spec, keys_under, lists_exactly, MemoryStorage};

verus! {

/// `recs` holds, for each blob of type `t` in `m`, the record of that blob,
/// and nothing else.
pub open spec fn records_of_store(
    m: Map<Seq<char>, Seq<u8>>,
    t: PackageType,
    recs: Seq<PackageRecord>,
) -> bool {
    exists|keys: Seq<String>|
        #![trigger lists_exactly(keys, keys_under(m, blob_prefix_spec(t)))]
        lists_exactly(keys, keys_under(m, blob_prefix_spec(t))) && recs.len() == keys.len()
            && forall|i: int|
            0 <= i < keys.len() ==> is_record_of(t, m[keys[i]@], keys[i]@, #[trigger] recs[i])
}

/// Every blob of type `t` stored in `m` yields its metadata.
pub open spec fn all_extract(m: Map<Seq<char>, Seq<u8>>, t: PackageType) -> bool {
    forall|k: Seq<char>|
        #[trigger] keys_under(m, blob_prefix_spec(t)).contains(k) ==> metadata_of(t, m[k]) is Ok
}

/// Some blob of type `t` stored in `m` fails extraction with `e`.
pub open spec fn fails_with(m: Map<Seq<char>, Seq<u8>>, t: PackageType, e: RepoError) -> bool {
    exists|k: Seq<char>|
        #[trigger] keys_under(m, blob_prefix_spec(t)).contains(k) && metadata_of(t, m[k]) == Err::<
            MetadataModel,
            RepoError,
        >(e)
}

/// Reads every stored blob of type `t` and extracts its record; succeeds
/// exactly when every such blob yields its metadata, and otherwise fails
/// with the error of one that does not.
pub fn collect_records(store: &MemoryStorage, t: PackageType) -> (r: Result<Vec<PackageRecord>, RepoError>)
    requires
        store.wf(),
    ensures
        r is Ok <==> all_extract(store@, t),
        r matches Ok(recs) ==> records_of_store(store@, t, recs@),
        r matches Err(e) ==> fails_with(store@, t, e),
{
    let prefix = blob_prefix(t);
    let keys = match store.list(prefix.as_str()) {
        Ok(k) => k,
        Err(_) => {
            return Err(RepoError::StorageFailure);
        },
    };
    let mut recs: Vec<PackageRecord> = Vec::new();
    let mut i: usize = 0;
    while i < keys.len()
        invariant
            store.wf(),
            lists_exactly(keys@, keys_under(store@, blob_prefix_spec(t))),
            i <= keys@.len(),
            recs@.len() == i,
            forall|j: int|
                0 <= j < i ==> is_record_of(t, store@[keys@[j]@], keys@[j]@, #[trigger] recs@[j]),
            forall|j: int| 0 <= j < i ==> metadata_of(t, store@[#[trigger] keys@[j]@]) is Ok,
        decreases keys@.len() - i,
    {
        assert(keys_under(store@, blob_prefix_spec(t)).contains(keys@[i as int]@));
        let blob = match store.read(keys[i].as_str()) {
            Ok(b) => b,
            Err(_) => {
                return Err(RepoError::StorageFailure);
            },
        };
        let rec = match extract_record(t, blob.as_slice(), keys[i].as_str()) {
            Ok(rec) => rec,
            Err(e) => {
                assert(keys_under(store@, blob_prefix_spec(t)).contains(keys@[i as int]@));
                return Err(e);
            },
        };
        recs.push(rec);
        i = i + 1;
    }
    assert(all_extract(store@, t)) by {
        assert forall|k: Seq<char>| #[trigger]
            keys_under(store@, blob_prefix_spec(t)).contains(k) implies metadata_of(
            t,
            store@[k],
        ) is Ok by {
            let j = choose|j: int| 0 <= j < keys@.len() && keys@[j]@ == k;
            assert(metadata_of(t, store@[keys@[j]@]) is Ok);
        }
    }
    Ok(recs)
}

/// Rebuilds and publishes the index of type `t` from the stored blobs of
/// that type at `stamp`. It succeeds exactly when every such blob yields its
/// metadata; where one does not, storage is left as it was.
pub fn rebuild(store: &mut MemoryStorage, t: PackageType, stamp: &str) -> (r: Result<(), RepoError>)
    requires
        old(store).wf(),
    ensures
        final(store).wf(),
        r is Ok <==> all_extract(old(store)@, t),
        r matches Err(e) ==> fails_with(old(store)@, t, e),
        r is Err ==> final(store)@ == old(store)@,
        r is Ok ==> exists|recs: Seq<PackageRecord>|
            records_of_store(old(store)@, t, recs) && index_published(
                t,
                old(store)@,
                final(store)@,
                recs,
                stamp@,
            ),
{
    let recs = match collect_records(store, t) {
        Ok(recs) => recs,
        Err(e) => {
            return Err(e);
        },
    };
    match publish_index(store, t, recs, stamp) {
        Ok(()) => Ok(()),
        Err(_) => Err(RepoError::StorageFailure),
    }
}

} // verus!
