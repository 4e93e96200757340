//! Metadata extraction for every package type: each blob is opened as its
//! container format demands, and the record carries the blob's own SHA-256
//! digest and size.

use vstd::prelude::*;
use vstd::slice::slice_subrange;
use vstd::utf8::{decode_utf8, valid_utf8};
use crate::ar::{ar_member, control_prefix, deb_control_member};
use crate::index::PackageRecord;
use crate::metadata::{control_metadata, parse_control, parse_pkginfo, pkginfo_metadata, MetadataModel, PackageMetadata};
use crate::processor::{PackageType, RepoError};
use crate::release::{hex_of, sha256, sha256_of, to_hex};
use crate::rpm::{parse_rpm, rpm_metadata, utf8_text};
use crate::tar::{find_entry, find_tar_entry};

verus! {

/// What decompressing `data` as gzip gives: every member's bytes, one after
/// another, or nothing where the decoder reports an error.
pub uninterp spec fn gunzip_of(data: Seq<u8>) -> Option<Seq<u8>>;

/// Relies on `flate2::read::MultiGzDecoder` read to the end: the bytes of
/// every gzip member of the input in turn, or an error; the outcome depends
/// on the input alone.
#[verifier::external_body]
fn gunzip(data: &[u8]) -> (r: Option<Vec<u8>>)
    ensures
        match r {
            Some(v) => gunzip_of(data@) == Some(v@),
            None => gunzip_of(data@) is None,
        },
{
    let mut out = Vec::new();
    match std::io::Read::read_to_end(&mut flate2::read::MultiGzDecoder::new(data), &mut out) {
        Ok(_) => Some(out),
        Err(_) => None,
    }
}

/// The name `.PKGINFO`.
pub open spec fn pkginfo_name() -> Seq<u8> {
    seq![0x2eu8, 0x50, 0x4b, 0x47, 0x49, 0x4e, 0x46, 0x4f]
}

/// The name `./control`.
pub open spec fn dot_control_name() -> Seq<u8> {
    seq![0x2eu8, 0x2f, 0x63, 0x6f, 0x6e, 0x74, 0x72, 0x6f, 0x6c]
}

/// The name `control`.
pub open spec fn control_name() -> Seq<u8> {
    seq![0x63u8, 0x6f, 0x6e, 0x74, 0x72, 0x6f, 0x6c]
}

/// The text of the entry of tar archive `t` named `target`.
pub open spec fn tar_text(t: Seq<u8>, target: Seq<u8>) -> Result<Seq<char>, RepoError> {
    match find_entry(t, 0, target) {
        Err(e) => Err(e),
        Ok((s, l)) => {
            let d = t.subrange(s as int, (s + l) as int);
            if valid_utf8(d) {
                Ok(decode_utf8(d))
            } else {
                Err(RepoError::CorruptPackage)
            }
        },
    }
}

/// The metadata of a gzip-compressed tar holding a `.PKGINFO`, as Alpine
/// packages and gzip-compressed Arch packages are.
pub open spec fn pkginfo_archive_metadata(b: Seq<u8>) -> Result<MetadataModel, RepoError> {
    match gunzip_of(b) {
        None => Err(RepoError::CorruptPackage),
        Some(t) => match tar_text(t, pkginfo_name()) {
            Err(e) => Err(e),
            Ok(text) => match pkginfo_metadata(text) {
                None => Err(RepoError::MissingMetadata),
                Some(m) => Ok(m),
            },
        },
    }
}

/// The `control` file of a decompressed control archive: `./control`, or
/// else `control`.
pub open spec fn control_text(t: Seq<u8>) -> Result<Seq<char>, RepoError> {
    match tar_text(t, dot_control_name()) {
        Err(RepoError::MissingMetadata) => tar_text(t, control_name()),
        other => other,
    }
}

/// The metadata of a Debian package whose control member is
/// gzip-compressed.
pub open spec fn deb_metadata(b: Seq<u8>) -> Result<MetadataModel, RepoError> {
    match ar_member(b, control_prefix()) {
        Err(e) => Err(e),
        Ok((s, l)) => match gunzip_of(b.subrange(s as int, (s + l) as int)) {
            None => Err(RepoError::CorruptPackage),
            Some(t) => match control_text(t) {
                Err(e) => Err(e),
                Ok(text) => match control_metadata(text) {
                    None => Err(RepoError::MissingMetadata),
                    Some(m) => Ok(m),
                },
            },
        },
    }
}

/// The metadata of a blob of type `t`.
pub open spec fn metadata_of(t: PackageType, b: Seq<u8>) -> Result<MetadataModel, RepoError> {
    match t {
        PackageType::Deb => deb_metadata(b),
        PackageType::Rpm => rpm_metadata(b),
        PackageType::Arch => pkginfo_archive_metadata(b),
        PackageType::Alpine => pkginfo_archive_metadata(b),
    }
}

/// The text of the entry of tar archive `t` named `target`.
fn tar_text_exec(t: &[u8], target: &[u8]) -> (r: Result<String, RepoError>)
    ensures
        match r {
            Ok(s) => tar_text(t@, target@) == Ok::<Seq<char>, RepoError>(s@),
            Err(e) => tar_text(t@, target@) == Err::<Seq<char>, RepoError>(e),
        },
{
    match find_tar_entry(t, target) {
        Err(e) => Err(e),
        Ok((s, l)) => {
            let n = t.len();
            assert(s + l <= n);
            match utf8_text(slice_subrange(t, s, s + l)) {
                Some(text) => Ok(text),
                None => Err(RepoError::CorruptPackage),
            }
        },
    }
}

/// Reads the `.PKGINFO` of a gzip-compressed tar.
pub fn extract_pkginfo_archive(blob: &[u8]) -> (r: Result<PackageMetadata, RepoError>)
    ensures
        match r {
            Ok(m) => pkginfo_archive_metadata(blob@) == Ok::<MetadataModel, RepoError>(m@),
            Err(e) => pkginfo_archive_metadata(blob@) == Err::<MetadataModel, RepoError>(e),
        },
{
    let t = match gunzip(blob) {
        Some(t) => t,
        None => {
            return Err(RepoError::CorruptPackage);
        },
    };
    let name: [u8; 8] = [0x2eu8, 0x50, 0x4b, 0x47, 0x49, 0x4e, 0x46, 0x4f];
    assert(name@ =~= pkginfo_name());
    let text = match tar_text_exec(t.as_slice(), name.as_slice()) {
        Ok(text) => text,
        Err(e) => {
            return Err(e);
        },
    };
    parse_pkginfo(text.as_str())
}

/// Reads the `control` file of a Debian package.
pub fn extract_deb(blob: &[u8]) -> (r: Result<PackageMetadata, RepoError>)
    ensures
        match r {
            Ok(m) => deb_metadata(blob@) == Ok::<MetadataModel, RepoError>(m@),
            Err(e) => deb_metadata(blob@) == Err::<MetadataModel, RepoError>(e),
        },
{
    let (s, l) = match deb_control_member(blob) {
        Ok(m) => m,
        Err(e) => {
            return Err(e);
        },
    };
    let n = blob.len();
    assert(s + l <= n);
    let t = match gunzip(slice_subrange(blob, s, s + l)) {
        Some(t) => t,
        None => {
            return Err(RepoError::CorruptPackage);
        },
    };
    let dot: [u8; 9] = [0x2eu8, 0x2f, 0x63, 0x6f, 0x6e, 0x74, 0x72, 0x6f, 0x6c];
    let bare: [u8; 7] = [0x63u8, 0x6f, 0x6e, 0x74, 0x72, 0x6f, 0x6c];
    assert(dot@ =~= dot_control_name());
    assert(bare@ =~= control_name());
    let text = match tar_text_exec(t.as_slice(), dot.as_slice()) {
        Ok(text) => text,
        Err(RepoError::MissingMetadata) => match tar_text_exec(t.as_slice(), bare.as_slice()) {
            Ok(text) => text,
            Err(e) => {
                return Err(e);
            },
        },
        Err(e) => {
            return Err(e);
        },
    };
    parse_control(text.as_str())
}

/// Reads the metadata of a blob of type `t`.
pub fn extract_metadata(t: PackageType, blob: &[u8]) -> (r: Result<PackageMetadata, RepoError>)
    ensures
        match r {
            Ok(m) => metadata_of(t, blob@) == Ok::<MetadataModel, RepoError>(m@),
            Err(e) => metadata_of(t, blob@) == Err::<MetadataModel, RepoError>(e),
        },
{
    match t {
        PackageType::Deb => extract_deb(blob),
        PackageType::Rpm => parse_rpm(blob),
        PackageType::Arch => extract_pkginfo_archive(blob),
        PackageType::Alpine => extract_pkginfo_archive(blob),
    }
}

/// `rec` is the record of the blob `b` of type `t` stored at `key`: its
/// metadata, and the SHA-256 digest (lowercase hex) and length of the blob.
pub open spec fn is_record_of(t: PackageType, b: Seq<u8>, key: Seq<char>, rec: PackageRecord) -> bool {
    &&& metadata_of(t, b) matches Ok(m)
    &&& rec.pkg_type == t
    &&& rec.name@ == m.0
    &&& rec.version@ == m.1
    &&& rec.architecture@ == m.2
    &&& crate::fields::views(rec.depends@) == m.3
    &&& crate::metadata::opt_view(rec.description) == m.4
    &&& rec.checksum@ == hex_of(sha256_of(b))
    &&& rec.size as nat == b.len()
    &&& rec.key@ == key
}

/// Builds the record of a blob of type `t` stored at `key`: its metadata,
/// and the SHA-256 digest (lowercase hex) and length of the whole blob.
pub fn extract_record(t: PackageType, blob: &[u8], key: &str) -> (r: Result<PackageRecord, RepoError>)
    ensures
        match r {
            Ok(rec) => is_record_of(t, blob@, key@, rec),
            Err(e) => metadata_of(t, blob@) == Err::<MetadataModel, RepoError>(e),
        },
{
    let m = match extract_metadata(t, blob) {
        Ok(m) => m,
        Err(e) => {
            return Err(e);
        },
    };
    let digest = sha256(blob);
    let checksum = to_hex(digest.as_slice());
    Ok(
        PackageRecord {
            pkg_type: t,
            name: m.name,
            version: m.version,
            architecture: m.architecture,
            checksum,
            size: blob.len() as u64,
            depends: m.depends,
            description: m.description,
            key: String::from_str(key),
        },
    )
}

} // verus!
