//! The Debian `Release` file, which names the `Packages` index with its
//! SHA-256 digest and size, and the publication of both into storage.

use vstd::prelude::*;
use vstd::utf8::encode_utf8;
use crate::index::{decimal, entries_text, index_text, primary_head, primary_xml, to_decimal, PackageRecord};
use crate::order::sorted;
use crate::processor::PackageType;
use crate::storage::{index_key, index_key_spec, MemoryStorage, StorageError};

verus! {

/// The SHA-256 digest of `data`.
pub uninterp spec fn sha256_of(data: Seq<u8>) -> Seq<u8>;

/// Relies on `sha2::Sha256::digest` (the `digest::Digest` trait): the
/// SHA-256 digest of the bytes, which is 32 bytes long.
#[verifier::external_body]
pub(crate) fn sha256(data: &[u8]) -> (r: Vec<u8>)
    ensures
        r@ == sha256_of(data@),
        r@.len() == 32,
{
    <sha2::Sha256 as sha2::Digest>::digest(data).to_vec()
}

/// The lowercase hex digit for `d`.
pub open spec fn hex_digit(d: u8) -> char {
    if d < 10 {
        (d + 48) as char
    } else {
        (d + 87) as char
    }
}

/// The bytes in lowercase hex, two digits each, high half first.
pub open spec fn hex_of(b: Seq<u8>) -> Seq<char>
    decreases b.len(),
{
    if b.len() == 0 {
        Seq::empty()
    } else {
        hex_of(b.drop_last()) + seq![hex_digit(b.last() / 16), hex_digit(b.last() % 16)]
    }
}

/// The one-character string of a hex digit.
fn hex_str(d: u8) -> (r: &'static str)
    requires
        d < 16,
    ensures
        r@ == seq![hex_digit(d)],
{
    proof {
        reveal_strlit("0");
        reveal_strlit("1");
        reveal_strlit("2");
        reveal_strlit("3");
        reveal_strlit("4");
        reveal_strlit("5");
        reveal_strlit("6");
        reveal_strlit("7");
        reveal_strlit("8");
        reveal_strlit("9");
        reveal_strlit("a");
        reveal_strlit("b");
        reveal_strlit("c");
        reveal_strlit("d");
        reveal_strlit("e");
        reveal_strlit("f");
    }
    let r = match d {
        0 => "0",
        1 => "1",
        2 => "2",
        3 => "3",
        4 => "4",
        5 => "5",
        6 => "6",
        7 => "7",
        8 => "8",
        9 => "9",
        10 => "a",
        11 => "b",
        12 => "c",
        13 => "d",
        14 => "e",
        _ => "f",
    };
    assert(r@ =~= seq![hex_digit(d)]);
    r
}

/// The bytes in lowercase hex.
pub fn to_hex(b: &[u8]) -> (r: String)
    ensures
        r@ == hex_of(b@),
{
    let mut s = String::new();
    let mut i: usize = 0;
    let n = b.len();
    assert(b@.take(0) =~= Seq::<u8>::empty());
    while i < n
        invariant
            n == b@.len(),
            i <= n,
            s@ == hex_of(b@.take(i as int)),
        decreases n - i,
    {
        assert(b@.take(i + 1).drop_last() =~= b@.take(i as int));
        let x = b[i];
        s.append(hex_str(x / 16));
        s.append(hex_str(x % 16));
        assert(s@ =~= hex_of(b@.take(i + 1)));
        i = i + 1;
    }
    assert(b@.take(n as int) =~= b@);
    s
}

/// The `Release` file for a `Packages` index holding `packages`, stored at
/// `path` relative to the file, generated at `date`.
pub open spec fn release_text(date: Seq<char>, path: Seq<char>, packages: Seq<u8>) -> Seq<char> {
    "Origin: Package Repository\nLabel: Package Repository\nSuite: stable\nCodename: stable\nDate: "@
        + date + "\nComponents: main\nSHA256:\n "@ + hex_of(sha256_of(packages)) + " "@
        + decimal(packages.len()) + " "@ + path + "\n"@
}

/// Writes the `Release` file for a `Packages` index holding `packages`.
pub fn release_file(date: &str, path: &str, packages: &[u8]) -> (r: String)
    ensures
        r@ == release_text(date@, path@, packages@),
{
    let digest = sha256(packages);
    let hex = to_hex(digest.as_slice());
    let size = to_decimal(packages.len() as u64);
    let mut s = String::from_str(
        "Origin: Package Repository\nLabel: Package Repository\nSuite: stable\nCodename: stable\nDate: ",
    );
    s.append(date);
    s.append("\nComponents: main\nSHA256:\n ");
    s.append(hex.as_str());
    s.append(" ");
    s.append(size.as_str());
    s.append(" ");
    s.append(path);
    s.append("\n");
    s
}

/// The storage key of the Debian `Packages` index.
pub open spec fn packages_key() -> Seq<char> {
    index_key_spec(PackageType::Deb, "Packages"@)
}

/// The storage key of the Debian `Release` file.
pub open spec fn release_key() -> Seq<char> {
    index_key_spec(PackageType::Deb, "Release"@)
}

/// `after` is `before` with the Debian index published for `records` at
/// `date`: `Packages` holds their stanzas by name and version, and `Release`
/// names the digest and size of exactly those bytes.
pub open spec fn deb_published(
    before: Map<Seq<char>, Seq<u8>>,
    after: Map<Seq<char>, Seq<u8>>,
    records: Seq<PackageRecord>,
    date: Seq<char>,
) -> bool {
    exists|rs: Seq<PackageRecord>|
        #![trigger entries_text(PackageType::Deb, rs)]
        sorted(rs) && rs.to_multiset() == records.to_multiset() && after == before.insert(
            packages_key(),
            encode_utf8(entries_text(PackageType::Deb, rs)),
        ).insert(
            release_key(),
            encode_utf8(
                release_text(date, "Packages"@, encode_utf8(entries_text(PackageType::Deb, rs))),
            ),
        )
}

/// Rebuilds the Debian index from `records` and stores `Packages` and then
/// `Release` under the index keys.
pub fn publish_deb(store: &mut MemoryStorage, records: Vec<PackageRecord>, date: &str) -> (r: Result<(), StorageError>)
    requires
        old(store).wf(),
    ensures
        final(store).wf(),
        r is Ok,
        deb_published(old(store)@, final(store)@, records@, date@),
{
    let ghost before = store@;
    let ghost recs = records@;
    let text = index_text(PackageType::Deb, records);
    let ghost rs = choose|rs: Seq<PackageRecord>|
        sorted(rs) && rs.to_multiset() == recs.to_multiset() && text@ == entries_text(
            PackageType::Deb,
            rs,
        );
    let bytes = text.as_str().as_bytes();
    let release = release_file(date, "Packages", bytes);
    let pk = index_key(PackageType::Deb, "Packages");
    let rk = index_key(PackageType::Deb, "Release");
    let _ = store.write(pk.as_str(), bytes);
    let _ = store.write(rk.as_str(), release.as_str().as_bytes());
    assert(store@ == before.insert(packages_key(), encode_utf8(entries_text(PackageType::Deb, rs))).insert(
        release_key(),
        encode_utf8(release_text(date@, "Packages"@, encode_utf8(entries_text(PackageType::Deb, rs)))),
    ));
    Ok(())
}

/// The `repomd.xml` manifest of an RPM repository whose `primary.xml`
/// holds `primary`, generated at `revision`.
pub open spec fn repomd_text(revision: Seq<char>, primary: Seq<u8>) -> Seq<char> {
    "<?xml version=\"1.0\" encoding=\"UTF-8\"?>\n<repomd xmlns=\"http://linux.duke.edu/metadata/repo\">\n  <revision>"@
        + revision + "</revision>\n  <data type=\"primary\">\n    <checksum type=\"sha256\">"@
        + hex_of(sha256_of(primary))
        + "</checksum>\n    <location href=\"repodata/primary.xml\"/>\n    <size>"@ + decimal(
        primary.len(),
    ) + "</size>\n  </data>\n</repomd>\n"@
}

/// Writes `repomd.xml` for a `primary.xml` holding `primary`.
pub fn repomd_file(revision: &str, primary: &[u8]) -> (r: String)
    ensures
        r@ == repomd_text(revision@, primary@),
{
    let digest = sha256(primary);
    let hex = to_hex(digest.as_slice());
    let size = to_decimal(primary.len() as u64);
    let mut s = String::from_str(
        "<?xml version=\"1.0\" encoding=\"UTF-8\"?>\n<repomd xmlns=\"http://linux.duke.edu/metadata/repo\">\n  <revision>",
    );
    s.append(revision);
    s.append("</revision>\n  <data type=\"primary\">\n    <checksum type=\"sha256\">");
    s.append(hex.as_str());
    s.append("</checksum>\n    <location href=\"repodata/primary.xml\"/>\n    <size>");
    s.append(size.as_str());
    s.append("</size>\n  </data>\n</repomd>\n");
    s
}

/// The storage key of the RPM `primary.xml`.
pub open spec fn primary_key() -> Seq<char> {
    index_key_spec(PackageType::Rpm, "primary.xml"@)
}

/// The storage key of the RPM `repomd.xml`.
pub open spec fn repomd_key() -> Seq<char> {
    index_key_spec(PackageType::Rpm, "repomd.xml"@)
}

/// `after` is `before` with the RPM metadata published for `records` at
/// `revision`: `primary.xml` lists them by name and version, and
/// `repomd.xml` names the digest and size of exactly those bytes.
pub open spec fn rpm_published(
    before: Map<Seq<char>, Seq<u8>>,
    after: Map<Seq<char>, Seq<u8>>,
    records: Seq<PackageRecord>,
    revision: Seq<char>,
) -> bool {
    exists|rs: Seq<PackageRecord>|
        #![trigger entries_text(PackageType::Rpm, rs)]
        sorted(rs) && rs.to_multiset() == records.to_multiset() && after == before.insert(
            primary_key(),
            encode_utf8(
                primary_head(records.len()) + entries_text(PackageType::Rpm, rs) + "</metadata>\n"@,
            ),
        ).insert(
            repomd_key(),
            encode_utf8(
                repomd_text(
                    revision,
                    encode_utf8(
                        primary_head(records.len()) + entries_text(PackageType::Rpm, rs)
                            + "</metadata>\n"@,
                    ),
                ),
            ),
        )
}

/// Rebuilds the RPM metadata from `records` and stores `primary.xml` and
/// then `repomd.xml` under the index keys.
pub fn publish_rpm(store: &mut MemoryStorage, records: Vec<PackageRecord>, revision: &str) -> (r: Result<(), StorageError>)
    requires
        old(store).wf(),
    ensures
        final(store).wf(),
        r is Ok,
        rpm_published(old(store)@, final(store)@, records@, revision@),
{
    let ghost before = store@;
    let ghost recs = records@;
    let text = primary_xml(records);
    let ghost rs = choose|rs: Seq<PackageRecord>|
        sorted(rs) && rs.to_multiset() == recs.to_multiset() && text@ == primary_head(recs.len())
            + entries_text(PackageType::Rpm, rs) + "</metadata>\n"@;
    let bytes = text.as_str().as_bytes();
    let manifest = repomd_file(revision, bytes);
    let pk = index_key(PackageType::Rpm, "primary.xml");
    let rk = index_key(PackageType::Rpm, "repomd.xml");
    let _ = store.write(pk.as_str(), bytes);
    let _ = store.write(rk.as_str(), manifest.as_str().as_bytes());
    Ok(())
}

/// `after` is `before` with the artifact `artifact` of type `t` holding the
/// index entries of `records`, listed by name and then version.
pub open spec fn entries_published(
    t: PackageType,
    before: Map<Seq<char>, Seq<u8>>,
    after: Map<Seq<char>, Seq<u8>>,
    records: Seq<PackageRecord>,
    artifact: Seq<char>,
) -> bool {
    exists|rs: Seq<PackageRecord>|
        #![trigger entries_text(t, rs)]
        sorted(rs) && rs.to_multiset() == records.to_multiset() && after == before.insert(
            index_key_spec(t, artifact),
            encode_utf8(entries_text(t, rs)),
        )
}

/// Stores the index entries of `records` for type `t`, by name and then
/// version, as the artifact `artifact`.
pub fn publish_entries(
    store: &mut MemoryStorage,
    t: PackageType,
    records: Vec<PackageRecord>,
    artifact: &str,
) -> (r: Result<(), StorageError>)
    requires
        old(store).wf(),
    ensures
        final(store).wf(),
        r is Ok,
        entries_published(t, old(store)@, final(store)@, records@, artifact@),
{
    let ghost recs = records@;
    let text = index_text(t, records);
    let ghost rs = choose|rs: Seq<PackageRecord>|
        sorted(rs) && rs.to_multiset() == recs.to_multiset() && text@ == entries_text(t, rs);
    let key = index_key(t, artifact);
    let _ = store.write(key.as_str(), text.as_str().as_bytes());
    Ok(())
}

/// `after` is `before` with the index of type `t` published for `records`
/// at `stamp`: `Packages` and `Release` for Debian, `primary.xml` and
/// `repomd.xml` for RPM, `APKINDEX` for Alpine and `desc` for Arch.
pub open spec fn index_published(
    t: PackageType,
    before: Map<Seq<char>, Seq<u8>>,
    after: Map<Seq<char>, Seq<u8>>,
    records: Seq<PackageRecord>,
    stamp: Seq<char>,
) -> bool {
    match t {
        PackageType::Deb => deb_published(before, after, records, stamp),
        PackageType::Rpm => rpm_published(before, after, records, stamp),
        PackageType::Alpine => entries_published(t, before, after, records, "APKINDEX"@),
        PackageType::Arch => entries_published(t, before, after, records, "desc"@),
    }
}

/// Publishes the index of type `t` for `records` at `stamp`.
pub fn publish_index(
    store: &mut MemoryStorage,
    t: PackageType,
    records: Vec<PackageRecord>,
    stamp: &str,
) -> (r: Result<(), StorageError>)
    requires
        old(store).wf(),
    ensures
        final(store).wf(),
        r is Ok,
        index_published(t, old(store)@, final(store)@, records@, stamp@),
{
    match t {
        PackageType::Deb => publish_deb(store, records, stamp),
        PackageType::Rpm => publish_rpm(store, records, stamp),
        PackageType::Alpine => publish_entries(store, t, records, "APKINDEX"),
        PackageType::Arch => publish_entries(store, t, records, "desc"),
    }
}

} // verus!
