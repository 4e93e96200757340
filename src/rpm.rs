//! The metadata of an RPM package, read from its header.
//!
//! A package opens with a 96-byte lead (magic `ed ab ee db`), then a
//! signature header, padded to a multiple of 8 bytes, then the main header.
//! A header opens with the magic `8e ad e8 01`, four reserved bytes, the
//! number of index entries and the size of the data store (big-endian
//! 32-bit), then the entries (tag, type, offset, count; 16 bytes each), then
//! the data store. A string value lies at its entry's offset in the store
//! and ends at a NUL byte.

use vstd::prelude::*;
use vstd::slice::slice_subrange;
use vstd::utf8::{decode_utf8, valid_utf8};
use crate::metadata::{MetadataModel, PackageMetadata};
use crate::processor::RepoError;

verus! {

/// The tag of the package name.
pub const TAG_NAME: u32 = 1000;

/// The tag of the version.
pub const TAG_VERSION: u32 = 1001;

/// The tag of the release.
pub const TAG_RELEASE: u32 = 1002;

/// The tag of the one-line summary.
pub const TAG_SUMMARY: u32 = 1004;

/// The tag of the architecture.
pub const TAG_ARCH: u32 = 1022;

/// The tag of the names of the required capabilities.
pub const TAG_REQUIRES: u32 = 1049;

/// The big-endian 32-bit number at `i`.
pub open spec fn be32(b: Seq<u8>, i: int) -> int {
    b[i] as int * 16777216 + b[i + 1] as int * 65536 + b[i + 2] as int * 256 + b[i + 3] as int
}

/// The lead is present and has the RPM magic.
pub open spec fn lead_ok(b: Seq<u8>) -> bool {
    b.len() >= 96 && b[0] == 0xed && b[1] == 0xab && b[2] == 0xee && b[3] == 0xdb
}

/// The number of index entries of the header at `h`.
pub open spec fn entry_count(b: Seq<u8>, h: int) -> int {
    be32(b, h + 8)
}

/// The size of the data store of the header at `h`.
pub open spec fn store_size(b: Seq<u8>, h: int) -> int {
    be32(b, h + 12)
}

/// Where the data store of the header at `h` begins.
pub open spec fn store_start(b: Seq<u8>, h: int) -> int {
    h + 16 + 16 * entry_count(b, h)
}

/// The header at `h` has its magic and lies wholly inside `b`.
pub open spec fn header_ok(b: Seq<u8>, h: int) -> bool {
    &&& 0 <= h
    &&& h + 16 <= b.len()
    &&& b[h] == 0x8e && b[h + 1] == 0xad && b[h + 2] == 0xe8 && b[h + 3] == 0x01
    &&& store_start(b, h) + store_size(b, h) <= b.len()
}

/// `x` rounded up to a multiple of 8.
pub open spec fn align8(x: int) -> int {
    x + (8 - x % 8) % 8
}

/// Where the main header begins: after the signature header, padded.
pub open spec fn main_start(b: Seq<u8>) -> int {
    align8(store_start(b, 96) + store_size(b, 96))
}

/// The first entry at or after `k` of the header at `h` that has `tag`.
pub open spec fn find_tag(b: Seq<u8>, h: int, tag: int, k: int) -> Option<int>
    decreases entry_count(b, h) - k,
{
    if k < 0 || k >= entry_count(b, h) {
        None
    } else if be32(b, h + 16 + 16 * k) == tag {
        Some(k)
    } else {
        find_tag(b, h, tag, k + 1)
    }
}

/// The first NUL byte at or after `p` and before `end`.
pub open spec fn nul_at(b: Seq<u8>, p: int, end: int) -> Option<int>
    decreases end - p,
{
    if p < 0 || p >= end {
        None
    } else if b[p] == 0 {
        Some(p)
    } else {
        nul_at(b, p + 1, end)
    }
}

/// The text of the string entry `tag` of the header at `h`:
/// `MissingMetadata` where no entry has the tag, `CorruptPackage` where its
/// string lies outside the store, has no NUL, or is not UTF-8.
pub open spec fn tag_text(b: Seq<u8>, h: int, tag: int) -> Result<Seq<char>, RepoError> {
    match find_tag(b, h, tag, 0) {
        None => Err(RepoError::MissingMetadata),
        Some(k) => {
            let off = be32(b, h + 16 + 16 * k + 8);
            let start = store_start(b, h);
            if off >= store_size(b, h) {
                Err(RepoError::CorruptPackage)
            } else {
                match nul_at(b, start + off, start + store_size(b, h)) {
                    None => Err(RepoError::CorruptPackage),
                    Some(e) => {
                        let s = b.subrange(start + off, e);
                        if valid_utf8(s) {
                            Ok(decode_utf8(s))
                        } else {
                            Err(RepoError::CorruptPackage)
                        }
                    },
                }
            }
        },
    }
}

/// The big-endian 32-bit number at `i`.
fn read_be32(b: &[u8], i: usize) -> (r: u32)
    requires
        i + 4 <= b@.len(),
    ensures
        r as int == be32(b@, i as int),
{
    (b[i] as u32) * 16777216 + (b[i + 1] as u32) * 65536 + (b[i + 2] as u32) * 256 + (b[i + 3] as u32)
}

/// Checks the header at `h`, and gives its entry count, where its store
/// begins, and the store's size.
fn check_header(b: &[u8], h: usize) -> (r: Option<(usize, usize, usize)>)
    ensures
        r is Some <==> header_ok(b@, h as int),
        r matches Some((count, start, size)) ==> count == entry_count(b@, h as int) && start
            == store_start(b@, h as int) && size == store_size(b@, h as int),
{
    let n = b.len();
    if h > n || n - h < 16 {
        return None;
    }
    if b[h] != 0x8e || b[h + 1] != 0xad || b[h + 2] != 0xe8 || b[h + 3] != 0x01 {
        return None;
    }
    let count = read_be32(b, h + 8) as u64;
    let size = read_be32(b, h + 12) as u64;
    let room = (n - h) as u64;
    let need: u64 = 16 + 16 * count + size;
    if need > room {
        return None;
    }
    Some((count as usize, h + 16 + 16 * (count as usize), size as usize))
}

/// The first entry of the header at `h` that has `tag`.
fn find_tag_exec(b: &[u8], h: usize, count: usize, tag: u32) -> (r: Option<usize>)
    requires
        header_ok(b@, h as int),
        count == entry_count(b@, h as int),
    ensures
        match r {
            Some(k) => k < count && find_tag(b@, h as int, tag as int, 0) == Some(k as int),
            None => find_tag(b@, h as int, tag as int, 0) is None,
        },
{
    let n = b.len();
    let mut k: usize = 0;
    while k < count
        invariant
            n == b@.len(),
            header_ok(b@, h as int),
            count == entry_count(b@, h as int),
            k <= count,
            find_tag(b@, h as int, tag as int, 0) == find_tag(b@, h as int, tag as int, k as int),
        decreases count - k,
    {
        if read_be32(b, h + 16 + 16 * k) == tag {
            return Some(k);
        }
        k = k + 1;
    }
    None
}

/// The first NUL byte at or after `p` and before `end`.
fn nul_at_exec(b: &[u8], p: usize, end: usize) -> (r: Option<usize>)
    requires
        end <= b@.len(),
    ensures
        match r {
            Some(e) => p <= e < end && nul_at(b@, p as int, end as int) == Some(e as int),
            None => nul_at(b@, p as int, end as int) is None,
        },
{
    let mut i: usize = p;
    while i < end
        invariant
            end <= b@.len(),
            p <= i,
            nul_at(b@, p as int, end as int) == nul_at(b@, i as int, end as int),
        decreases end - i,
    {
        if b[i] == 0 {
            return Some(i);
        }
        i = i + 1;
    }
    None
}

/// Relies on `std::str::from_utf8`: it succeeds exactly on valid UTF-8,
/// and the text is what those bytes encode.
#[verifier::external_body]
pub(crate) fn utf8_text(b: &[u8]) -> (r: Option<String>)
    ensures
        r is Some <==> valid_utf8(b@),
        r matches Some(s) ==> s@ == decode_utf8(b@),
{
    std::str::from_utf8(b).ok().map(|s| s.to_string())
}

/// The text of the string entry `tag` of the header at `h`.
fn tag_text_exec(b: &[u8], h: usize, count: usize, start: usize, size: usize, tag: u32) -> (r: Result<String, RepoError>)
    requires
        header_ok(b@, h as int),
        count == entry_count(b@, h as int),
        start == store_start(b@, h as int),
        size == store_size(b@, h as int),
    ensures
        match r {
            Ok(s) => tag_text(b@, h as int, tag as int) == Ok::<Seq<char>, RepoError>(s@),
            Err(e) => tag_text(b@, h as int, tag as int) == Err::<Seq<char>, RepoError>(e),
        },
{
    match find_tag_exec(b, h, count, tag) {
        None => Err(RepoError::MissingMetadata),
        Some(k) => {
            let n = b.len();
            assert(h + 16 + 16 * k + 16 <= n);
            let off = read_be32(b, h + 16 + 16 * k + 8) as usize;
            if off >= size {
                return Err(RepoError::CorruptPackage);
            }
            match nul_at_exec(b, start + off, start + size) {
                None => Err(RepoError::CorruptPackage),
                Some(e) => {
                    let bytes = slice_subrange(b, start + off, e);
                    match utf8_text(bytes) {
                        Some(t) => Ok(t),
                        None => Err(RepoError::CorruptPackage),
                    }
                },
            }
        },
    }
}

/// The `c` strings that follow one another from `p`, each ended by a NUL
/// before `end`, as text; `CorruptPackage` where one has no NUL or is not
/// UTF-8.
pub open spec fn texts_at(b: Seq<u8>, p: int, end: int, c: int) -> Result<Seq<Seq<char>>, RepoError>
    decreases c,
{
    if c <= 0 {
        Ok(Seq::empty())
    } else {
        match nul_at(b, p, end) {
            None => Err(RepoError::CorruptPackage),
            Some(e) => {
                if !valid_utf8(b.subrange(p, e)) {
                    Err(RepoError::CorruptPackage)
                } else {
                    match texts_at(b, e + 1, end, c - 1) {
                        Err(x) => Err(x),
                        Ok(rest) => Ok(seq![decode_utf8(b.subrange(p, e))] + rest),
                    }
                }
            },
        }
    }
}

/// The string-array entry `tag` of the header at `h`, as text: empty where
/// no entry has the tag, `CorruptPackage` where its strings lie outside the
/// store or are unreadable.
pub open spec fn tag_texts(b: Seq<u8>, h: int, tag: int) -> Result<Seq<Seq<char>>, RepoError> {
    match find_tag(b, h, tag, 0) {
        None => Ok(Seq::empty()),
        Some(k) => {
            let off = be32(b, h + 16 + 16 * k + 8);
            let c = be32(b, h + 16 + 16 * k + 12);
            let start = store_start(b, h);
            if off >= store_size(b, h) {
                Err(RepoError::CorruptPackage)
            } else {
                texts_at(b, start + off, start + store_size(b, h), c)
            }
        },
    }
}

/// Reads `c` consecutive NUL-ended strings from `p`.
fn texts_at_exec(b: &[u8], p: usize, end: usize, c: u32) -> (r: Result<Vec<String>, RepoError>)
    requires
        p <= end <= b@.len(),
    ensures
        match r {
            Ok(v) => texts_at(b@, p as int, end as int, c as int) == Ok::<Seq<Seq<char>>, RepoError>(
                crate::fields::views(v@),
            ),
            Err(e) => texts_at(b@, p as int, end as int, c as int) == Err::<Seq<Seq<char>>, RepoError>(e),
        },
{
    let mut out: Vec<String> = Vec::new();
    let mut q: usize = p;
    let mut i: u32 = 0;
    assert(crate::fields::views(out@) =~= Seq::<Seq<char>>::empty());
    while i < c
        invariant
            end <= b@.len(),
            i <= c,
            texts_at(b@, p as int, end as int, c as int) == match texts_at(
                b@,
                q as int,
                end as int,
                c - i,
            ) {
                Ok(rest) => Ok::<Seq<Seq<char>>, RepoError>(crate::fields::views(out@) + rest),
                Err(x) => Err(x),
            },
        decreases c - i,
    {
        let e = match nul_at_exec(b, q, end) {
            Some(e) => e,
            None => {
                return Err(RepoError::CorruptPackage);
            },
        };
        let t = match utf8_text(slice_subrange(b, q, e)) {
            Some(t) => t,
            None => {
                return Err(RepoError::CorruptPackage);
            },
        };
        let ghost before = out@;
        out.push(t);
        proof {
            assert(crate::fields::views(out@) =~= crate::fields::views(before).push(t@));
            match texts_at(b@, e + 1, end as int, c - i - 1) {
                Ok(rest) => {
                    assert(crate::fields::views(before) + (seq![t@] + rest) =~= crate::fields::views(
                        out@,
                    ) + rest);
                },
                Err(x) => {},
            }
        }
        q = e + 1;
        i = i + 1;
    }
    assert(crate::fields::views(out@) + Seq::<Seq<char>>::empty() =~= crate::fields::views(out@));
    Ok(out)
}

/// The text of the string-array entry `tag` of the header at `h`.
fn tag_texts_exec(b: &[u8], h: usize, count: usize, start: usize, size: usize, tag: u32) -> (r: Result<Vec<String>, RepoError>)
    requires
        header_ok(b@, h as int),
        count == entry_count(b@, h as int),
        start == store_start(b@, h as int),
        size == store_size(b@, h as int),
    ensures
        match r {
            Ok(v) => tag_texts(b@, h as int, tag as int) == Ok::<Seq<Seq<char>>, RepoError>(
                crate::fields::views(v@),
            ),
            Err(e) => tag_texts(b@, h as int, tag as int) == Err::<Seq<Seq<char>>, RepoError>(e),
        },
{
    match find_tag_exec(b, h, count, tag) {
        None => {
            let v: Vec<String> = Vec::new();
            assert(crate::fields::views(v@) =~= Seq::<Seq<char>>::empty());
            Ok(v)
        },
        Some(k) => {
            let n = b.len();
            assert(h + 16 + 16 * k + 16 <= n);
            let off = read_be32(b, h + 16 + 16 * k + 8) as usize;
            let c = read_be32(b, h + 16 + 16 * k + 12);
            if off >= size {
                return Err(RepoError::CorruptPackage);
            }
            texts_at_exec(b, start + off, start + size, c)
        },
    }
}

/// The metadata that an RPM package's main header gives: name, version and
/// release joined by `-`, architecture (all required, `MissingMetadata`
/// where absent), the names of the required capabilities, and the summary
/// where present. `CorruptPackage` where the
/// lead or a header is malformed or a string is unreadable.
pub open spec fn rpm_metadata(b: Seq<u8>) -> Result<MetadataModel, RepoError> {
    if !lead_ok(b) || !header_ok(b, 96) || !header_ok(b, main_start(b)) {
        Err(RepoError::CorruptPackage)
    } else {
        let m = main_start(b);
        match tag_text(b, m, TAG_NAME as int) {
            Err(e) => Err(e),
            Ok(name) => match tag_text(b, m, TAG_VERSION as int) {
                Err(e) => Err(e),
                Ok(version) => match tag_text(b, m, TAG_RELEASE as int) {
                    Err(e) => Err(e),
                    Ok(release) => match tag_text(b, m, TAG_ARCH as int) {
                        Err(e) => Err(e),
                        Ok(arch) => {
                            let full = version + "-"@ + release;
                            match tag_texts(b, m, TAG_REQUIRES as int) {
                                Err(e) => Err(e),
                                Ok(deps) => match tag_text(b, m, TAG_SUMMARY as int) {
                                    Ok(summary) => Ok((name, full, arch, deps, Some(summary))),
                                    Err(RepoError::MissingMetadata) => Ok(
                                        (name, full, arch, deps, None),
                                    ),
                                    Err(e) => Err(e),
                                },
                            }
                        },
                    },
                },
            },
        }
    }
}

/// Reads the metadata of an RPM package from its lead and headers.
pub fn parse_rpm(blob: &[u8]) -> (r: Result<PackageMetadata, RepoError>)
    ensures
        match r {
            Ok(p) => rpm_metadata(blob@) == Ok::<MetadataModel, RepoError>(p@),
            Err(e) => rpm_metadata(blob@) == Err::<MetadataModel, RepoError>(e),
        },
{
    let n = blob.len();
    if n < 96 || blob[0] != 0xed || blob[1] != 0xab || blob[2] != 0xee || blob[3] != 0xdb {
        return Err(RepoError::CorruptPackage);
    }
    let (_, sig_start, sig_size) = match check_header(blob, 96) {
        Some(h) => h,
        None => {
            return Err(RepoError::CorruptPackage);
        },
    };
    let end = sig_start + sig_size;
    let pad = (8 - end % 8) % 8;
    if pad > n - end {
        return Err(RepoError::CorruptPackage);
    }
    let m = end + pad;
    let (count, start, size) = match check_header(blob, m) {
        Some(h) => h,
        None => {
            return Err(RepoError::CorruptPackage);
        },
    };
    let name = match tag_text_exec(blob, m, count, start, size, TAG_NAME) {
        Ok(t) => t,
        Err(e) => {
            return Err(e);
        },
    };
    let version = match tag_text_exec(blob, m, count, start, size, TAG_VERSION) {
        Ok(t) => t,
        Err(e) => {
            return Err(e);
        },
    };
    let release = match tag_text_exec(blob, m, count, start, size, TAG_RELEASE) {
        Ok(t) => t,
        Err(e) => {
            return Err(e);
        },
    };
    let architecture = match tag_text_exec(blob, m, count, start, size, TAG_ARCH) {
        Ok(t) => t,
        Err(e) => {
            return Err(e);
        },
    };
    let depends = match tag_texts_exec(blob, m, count, start, size, TAG_REQUIRES) {
        Ok(v) => v,
        Err(e) => {
            return Err(e);
        },
    };
    let description = match tag_text_exec(blob, m, count, start, size, TAG_SUMMARY) {
        Ok(t) => Some(t),
        Err(RepoError::MissingMetadata) => None,
        Err(e) => {
            return Err(e);
        },
    };
    let mut full = version;
    full.append("-");
    full.append(release.as_str());
    Ok(PackageMetadata { name, version: full, architecture, depends, description })
}

} // verus!
