//! Laws that hold between the storage operations and the key layout.

use vstd::prelude::*;
use crate::index::{entries_text, PackageRecord};
use crate::order::{one_record_per_version, sorted, sorted_listing_is_unique};
use crate::processor::PackageType;
use crate::rebuild::records_of_store;
use crate::storage::lists_exactly;
use crate::release::{
    deb_published, packages_key, primary_key, release_key, release_text, repomd_key, repomd_text,
    rpm_published,
};
use crate::index::primary_head;
use vstd::utf8::encode_utf8;
use crate::storage::{blob_key_spec, blob_prefix_spec, keys_under};
use crate::text::has_prefix;

verus! {

/// Deleting a key that holds nothing leaves the store as it was
/// (`MemoryStorage::delete` returns `Ok` and removes the key).
pub proof fn delete_absent_is_noop(m: Map<Seq<char>, Seq<u8>>, key: Seq<char>)
    requires
        !m.contains_key(key),
    ensures
        m.remove(key) == m,
{
    assert(m.remove(key) =~= m);
}

/// After a delete, the key holds nothing, and no listing names it.
pub proof fn delete_then_absent(m: Map<Seq<char>, Seq<u8>>, key: Seq<char>, prefix: Seq<char>)
    ensures
        !m.remove(key).contains_key(key),
        !keys_under(m.remove(key), prefix).contains(key),
{
}

/// A read after a write returns the bytes written, and a listing under any
/// prefix of the key names it.
pub proof fn write_then_read_and_list(
    m: Map<Seq<char>, Seq<u8>>,
    key: Seq<char>,
    data: Seq<u8>,
    prefix: Seq<char>,
)
    ensures
        m.insert(key, data).contains_key(key),
        m.insert(key, data)[key] == data,
        has_prefix(key, prefix) ==> keys_under(m.insert(key, data), prefix).contains(key),
{
}

/// Two writes to different keys both remain, whichever comes first.
pub proof fn distinct_writes_both_kept(
    m: Map<Seq<char>, Seq<u8>>,
    k1: Seq<char>,
    d1: Seq<u8>,
    k2: Seq<char>,
    d2: Seq<u8>,
)
    requires
        k1 != k2,
    ensures
        m.insert(k1, d1).insert(k2, d2) == m.insert(k2, d2).insert(k1, d1),
        m.insert(k1, d1).insert(k2, d2)[k1] == d1,
        m.insert(k1, d1).insert(k2, d2)[k2] == d2,
{
    assert(m.insert(k1, d1).insert(k2, d2) =~= m.insert(k2, d2).insert(k1, d1));
}

/// Every blob key of a type lies under that type's blob prefix, so listing
/// the prefix finds every stored blob of the type.
pub proof fn blob_key_under_prefix(
    t: PackageType,
    name: Seq<char>,
    version: Seq<char>,
    ext: Seq<char>,
)
    ensures
        has_prefix(blob_key_spec(t, name, version, ext), blob_prefix_spec(t)),
{
    let p = blob_prefix_spec(t);
    let k = blob_key_spec(t, name, version, ext);
    assert(k =~= p + (name + "-"@ + version + "."@ + ext));
    assert(k.subrange(0, p.len() as int) =~= p);
}

/// An index lists a record exactly when the record is among those it was
/// built from: a package uploaded beside another is not lost, and a deleted
/// one is gone from the next build.
pub proof fn listing_holds_exactly_the_records(
    records: Seq<PackageRecord>,
    listing: Seq<PackageRecord>,
    x: PackageRecord,
)
    requires
        listing.to_multiset() == records.to_multiset(),
    ensures
        listing.contains(x) <==> records.contains(x),
{
    vstd::seq_lib::to_multiset_contains(listing, x);
    vstd::seq_lib::to_multiset_contains(records, x);
}

/// Building the index again from the same records gives the same text,
/// whatever order the records arrived in, where records that share name and
/// version are the same.
pub proof fn rebuild_gives_identical_index(
    t: PackageType,
    first: Seq<PackageRecord>,
    second: Seq<PackageRecord>,
    first_listing: Seq<PackageRecord>,
    second_listing: Seq<PackageRecord>,
)
    requires
        first.to_multiset() == second.to_multiset(),
        one_record_per_version(first.to_multiset()),
        sorted(first_listing),
        first_listing.to_multiset() == first.to_multiset(),
        sorted(second_listing),
        second_listing.to_multiset() == second.to_multiset(),
    ensures
        first_listing == second_listing,
        entries_text(t, first_listing) == entries_text(t, second_listing),
{
    sorted_listing_is_unique(first_listing, second_listing);
}

/// Once the Debian index is published, the digest and size that `Release`
/// records for `Packages` are those of the bytes stored under the
/// `Packages` key.
pub proof fn release_names_stored_packages(
    before: Map<Seq<char>, Seq<u8>>,
    after: Map<Seq<char>, Seq<u8>>,
    records: Seq<PackageRecord>,
    date: Seq<char>,
)
    requires
        deb_published(before, after, records, date),
    ensures
        after.contains_key(packages_key()),
        after.contains_key(release_key()),
        after[release_key()] == encode_utf8(release_text(date, "Packages"@, after[packages_key()])),
{
    reveal_strlit("index/");
    reveal_strlit("deb");
    reveal_strlit("/");
    reveal_strlit("Packages");
    reveal_strlit("Release");
    assert(packages_key()[10] != release_key()[10]);
    let rs = choose|rs: Seq<PackageRecord>|
        #![trigger entries_text(PackageType::Deb, rs)]
        sorted(rs) && rs.to_multiset() == records.to_multiset() && after == before.insert(
            packages_key(),
            encode_utf8(entries_text(PackageType::Deb, rs)),
        ).insert(
            release_key(),
            encode_utf8(
                release_text(date, "Packages"@, encode_utf8(entries_text(PackageType::Deb, rs))),
            ),
        );
}

/// A rebuild gives a record to a blob key of the type exactly when a blob
/// is stored there: a blob deleted before the rebuild has no record in the
/// new index, and blobs uploaded one after the other under different names
/// both have one.
pub proof fn rebuild_lists_exactly_stored_blobs(
    m: Map<Seq<char>, Seq<u8>>,
    t: PackageType,
    recs: Seq<PackageRecord>,
    key: Seq<char>,
)
    requires
        records_of_store(m, t, recs),
        has_prefix(key, blob_prefix_spec(t)),
    ensures
        m.contains_key(key) <==> exists|i: int| 0 <= i < recs.len() && (#[trigger] recs[i]).key@ == key,
{
    let keys = choose|keys: Seq<String>|
        #![trigger lists_exactly(keys, keys_under(m, blob_prefix_spec(t)))]
        lists_exactly(keys, keys_under(m, blob_prefix_spec(t))) && recs.len() == keys.len()
            && forall|i: int|
            0 <= i < keys.len() ==> crate::extract::is_record_of(
                t,
                m[keys[i]@],
                keys[i]@,
                #[trigger] recs[i],
            );
    if m.contains_key(key) {
        assert(keys_under(m, blob_prefix_spec(t)).contains(key));
        let i = choose|i: int| 0 <= i < keys.len() && keys[i]@ == key;
        assert(recs[i].key@ == key);
    }
    if exists|i: int| 0 <= i < recs.len() && (#[trigger] recs[i]).key@ == key {
        let i = choose|i: int| 0 <= i < recs.len() && (#[trigger] recs[i]).key@ == key;
        assert(crate::extract::is_record_of(t, m[keys[i]@], keys[i]@, recs[i]));
        assert(keys_under(m, blob_prefix_spec(t)).contains(keys[i]@));
    }
}

/// Once the RPM metadata is published, the digest and size that
/// `repomd.xml` records for `primary.xml` are those of the bytes stored
/// under the `primary.xml` key.
pub proof fn repomd_names_stored_primary(
    before: Map<Seq<char>, Seq<u8>>,
    after: Map<Seq<char>, Seq<u8>>,
    records: Seq<PackageRecord>,
    revision: Seq<char>,
)
    requires
        rpm_published(before, after, records, revision),
    ensures
        after.contains_key(primary_key()),
        after.contains_key(repomd_key()),
        after[repomd_key()] == encode_utf8(repomd_text(revision, after[primary_key()])),
{
    reveal_strlit("index/");
    reveal_strlit("rpm");
    reveal_strlit("/");
    reveal_strlit("primary.xml");
    reveal_strlit("repomd.xml");
    assert(primary_key()[10] != repomd_key()[10]);
    let rs = choose|rs: Seq<PackageRecord>|
        #![trigger entries_text(PackageType::Rpm, rs)]
        sorted(rs) && rs.to_multiset() == records.to_multiset() && after == before.insert(
            primary_key(),
            encode_utf8(
                primary_head(records.len()) + entries_text(PackageType::Rpm, rs) + "</metadata>\n"@,
            ),
        ).insert(
            repomd_key(),
            encode_utf8(
                repomd_text(
                    revision,
                    encode_utf8(
                        primary_head(records.len()) + entries_text(PackageType::Rpm, rs)
                            + "</metadata>\n"@,
                    ),
                ),
            ),
        );
}

} // verus!
