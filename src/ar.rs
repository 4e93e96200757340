//! Members of an `ar` archive, the container of a Debian package.
//!
//! An archive opens with `!<arch>\n`. Each member then has a 60-byte header
//! (name in bytes 0..16, size in decimal in bytes 48..58, and the bytes
//! "`\n" at 58..60), its data, and one padding byte where the size is odd.

use vstd::prelude::*;
use crate::processor::RepoError;

verus! {

/// The magic bytes that open an `ar` archive: `!<arch>\n`.
pub open spec fn ar_magic() -> Seq<u8> {
    seq![0x21u8, 0x3c, 0x61, 0x72, 0x63, 0x68, 0x3e, 0x0a]
}

/// The number of leading ASCII digits of `f`.
pub open spec fn lead_digits(f: Seq<u8>) -> nat
    decreases f.len(),
{
    if f.len() > 0 && 0x30 <= f[0] <= 0x39 {
        1 + lead_digits(f.drop_first())
    } else {
        0
    }
}

/// The number written in the ASCII digits `s`.
pub open spec fn dec_value(s: Seq<u8>) -> nat
    decreases s.len(),
{
    if s.len() == 0 {
        0
    } else {
        dec_value(s.drop_last()) * 10 + (s.last() - 0x30) as nat
    }
}

/// The size written in a header's size field: one or more digits, then
/// spaces only.
pub open spec fn field_size(f: Seq<u8>) -> Option<nat> {
    let k = lead_digits(f);
    if k == 0 || k > f.len() || exists|i: int| k <= i < f.len() && f[i] != 0x20 {
        None
    } else {
        Some(dec_value(f.take(k as int)))
    }
}

/// The first member at or after header position `p` whose name begins with
/// `prefix`, as the position and length of its data.
pub open spec fn find_member(b: Seq<u8>, p: int, prefix: Seq<u8>) -> Result<(nat, nat), RepoError>
    decreases b.len() + 1 - p,
{
    if p < 0 || p >= b.len() {
        Err(RepoError::MissingMetadata)
    } else if p + 60 > b.len() {
        Err(RepoError::CorruptPackage)
    } else if b[p + 58] != 0x60 || b[p + 59] != 0x0a {
        Err(RepoError::CorruptPackage)
    } else {
        match field_size(b.subrange(p + 48, p + 58)) {
            None => Err(RepoError::CorruptPackage),
            Some(size) => {
                if p + 60 + size > b.len() {
                    Err(RepoError::CorruptPackage)
                } else if prefix.len() <= 16 && b.subrange(p, p + prefix.len()) == prefix {
                    Ok(((p + 60) as nat, size))
                } else {
                    find_member(b, p + 60 + size + size % 2, prefix)
                }
            },
        }
    }
}

/// The member of archive `b` whose name begins with `prefix`: the position
/// and length of its data; `CorruptPackage` where `b` is not an archive,
/// `MissingMetadata` where no member has such a name.
pub open spec fn ar_member(b: Seq<u8>, prefix: Seq<u8>) -> Result<(nat, nat), RepoError> {
    if b.len() < 8 || b.take(8) != ar_magic() {
        Err(RepoError::CorruptPackage)
    } else {
        find_member(b, 8, prefix)
    }
}

/// Reads a header's size field.
fn read_size(b: &[u8], start: usize) -> (r: Option<u64>)
    requires
        start + 10 <= b@.len(),
    ensures
        match r {
            Some(v) => field_size(b@.subrange(start as int, start + 10)) == Some(v as nat),
            None => field_size(b@.subrange(start as int, start + 10)) is None,
        },
{
    let ghost f = b@.subrange(start as int, start + 10);
    let n = b.len();
    proof {
        lemma_pow10_grows(0, 10);
    }
    let mut i: usize = 0;
    let mut v: u64 = 0;
    assert(f.take(0) =~= Seq::<u8>::empty());
    assert(f.skip(0) =~= f);
    while i < 10 && 0x30 <= b[start + i] && b[start + i] <= 0x39
        invariant
            n == b@.len(),
            start + 10 <= b@.len(),
            f == b@.subrange(start as int, start + 10),
            i <= 10,
            v == dec_value(f.take(i as int)),
            v < pow10(i as nat),
            pow10(i as nat) <= pow10(10),
            lead_digits(f) == i + lead_digits(f.skip(i as int)),
        decreases 10 - i,
    {
        let d = (b[start + i] - 0x30) as u64;
        assert(f.take(i + 1).drop_last() =~= f.take(i as int));
        assert(f.skip(i as int).drop_first() =~= f.skip(i + 1));
        proof {
            lemma_pow10_grows(i as nat + 1, 10);
            assert(v * 10 + d < pow10(i as nat) * 10) by (nonlinear_arith)
                requires
                    v < pow10(i as nat),
                    d < 10,
            ;
        }
        v = v * 10 + d;
        i = i + 1;
    }
    assert(lead_digits(f) == i) by {
        if i < 10 {
            assert(f.skip(i as int)[0] == f[i as int]);
        } else {
            assert(f.skip(10).len() == 0);
        }
    }
    if i == 0 {
        return None;
    }
    let mut j: usize = i;
    while j < 10
        invariant
            n == b@.len(),
            start + 10 <= b@.len(),
            f == b@.subrange(start as int, start + 10),
            lead_digits(f) == i,
            i <= j <= 10,
            forall|k: int| i <= k < j ==> f[k] == 0x20,
        decreases 10 - j,
    {
        if b[start + j] != 0x20 {
            assert(f[j as int] != 0x20);
            assert(exists|x: int| lead_digits(f) <= x < f.len() && f[x] != 0x20);
            return None;
        }
        j = j + 1;
    }
    assert(f.take(i as int) == f.take(lead_digits(f) as int));
    Some(v)
}

/// Ten to the power `n`.
pub open spec fn pow10(n: nat) -> nat
    decreases n,
{
    if n == 0 {
        1
    } else {
        10 * pow10((n - 1) as nat)
    }
}

/// Powers of ten grow with the exponent, and ten to the tenth fits in a `u64`.
proof fn lemma_pow10_grows(m: nat, n: nat)
    requires
        m <= n,
    ensures
        pow10(m) <= pow10(n),
        pow10(10) == 10_000_000_000,
    decreases n - m,
{
    reveal_with_fuel(pow10, 11);
    if m < n {
        lemma_pow10_grows(m, (n - 1) as nat);
    }
}

/// Whether the bytes of `b` at `p` begin with `prefix`.
fn bytes_at(b: &[u8], p: usize, prefix: &[u8]) -> (r: bool)
    requires
        p + prefix@.len() <= b@.len(),
    ensures
        r == (b@.subrange(p as int, p + prefix@.len()) == prefix@),
{
    let m = prefix.len();
    let n = b.len();
    let mut k: usize = 0;
    while k < m
        invariant
            n == b@.len(),
            m == prefix@.len(),
            p + m <= b@.len(),
            k <= m,
            forall|x: int| 0 <= x < k ==> b@[p + x] == prefix@[x],
        decreases m - k,
    {
        if b[p + k] != prefix[k] {
            assert(b@.subrange(p as int, p + m)[k as int] != prefix@[k as int]);
            return false;
        }
        k = k + 1;
    }
    assert(b@.subrange(p as int, p + m) =~= prefix@);
    true
}

/// Finds the member of archive `blob` whose name begins with `prefix`, and
/// gives the position and length of its data.
pub fn find_ar_member(blob: &[u8], prefix: &[u8]) -> (r: Result<(usize, usize), RepoError>)
    ensures
        match r {
            Ok((start, len)) => start + len <= blob@.len() && ar_member(blob@, prefix@) == Ok::<
                (nat, nat),
                RepoError,
            >((start as nat, len as nat)),
            Err(e) => ar_member(blob@, prefix@) == Err::<(nat, nat), RepoError>(e),
        },
{
    let n = blob.len();
    let magic: [u8; 8] = [0x21u8, 0x3c, 0x61, 0x72, 0x63, 0x68, 0x3e, 0x0a];
    if n < 8 {
        return Err(RepoError::CorruptPackage);
    }
    if !bytes_at(blob, 0, magic.as_slice()) {
        assert(blob@.subrange(0, 8) =~= blob@.take(8));
        assert(magic@ =~= ar_magic());
        return Err(RepoError::CorruptPackage);
    }
    assert(blob@.subrange(0, 8) =~= blob@.take(8));
    assert(magic@ =~= ar_magic());
    let mut p: usize = 8;
    loop
        invariant
            n == blob@.len(),
            8 <= p,
            ar_member(blob@, prefix@) == find_member(blob@, p as int, prefix@),
        decreases n + 1 - p,
    {
        if p >= n {
            return Err(RepoError::MissingMetadata);
        }
        if n - p < 60 {
            return Err(RepoError::CorruptPackage);
        }
        if blob[p + 58] != 0x60 || blob[p + 59] != 0x0a {
            return Err(RepoError::CorruptPackage);
        }
        let size = match read_size(blob, p + 48) {
            Some(v) => v,
            None => {
                return Err(RepoError::CorruptPackage);
            },
        };
        assert(blob@.subrange(p + 48, p + 48 + 10) == blob@.subrange(p + 48, p + 58));
        let room = n - p - 60;
        if size > room as u64 {
            return Err(RepoError::CorruptPackage);
        }
        let len = size as usize;
        if prefix.len() <= 16 && bytes_at(blob, p, prefix) {
            return Ok((p + 60, len));
        }
        let end = p + 60 + len;
        let ghost next = p + 60 + len + len % 2;
        assert(find_member(blob@, p as int, prefix@) == find_member(blob@, next, prefix@));
        if len % 2 == 1 {
            if end == n {
                assert(find_member(blob@, next, prefix@) == Err::<(nat, nat), RepoError>(
                    RepoError::MissingMetadata,
                ));
                return Err(RepoError::MissingMetadata);
            }
            p = end + 1;
        } else {
            p = end;
        }
    }
}

/// The name that the control member of a Debian package begins with:
/// `control.tar`, whatever compression follows.
pub open spec fn control_prefix() -> Seq<u8> {
    seq![0x63u8, 0x6f, 0x6e, 0x74, 0x72, 0x6f, 0x6c, 0x2e, 0x74, 0x61, 0x72]
}

/// Finds the `control.tar*` member of a Debian package: `CorruptPackage`
/// where the blob is not a well-formed `ar` archive, `MissingMetadata`
/// where it has no control member.
pub fn deb_control_member(blob: &[u8]) -> (r: Result<(usize, usize), RepoError>)
    ensures
        match r {
            Ok((start, len)) => start + len <= blob@.len() && ar_member(blob@, control_prefix())
                == Ok::<(nat, nat), RepoError>((start as nat, len as nat)),
            Err(e) => ar_member(blob@, control_prefix()) == Err::<(nat, nat), RepoError>(e),
        },
{
    let name: [u8; 11] = [0x63u8, 0x6f, 0x6e, 0x74, 0x72, 0x6f, 0x6c, 0x2e, 0x74, 0x61, 0x72];
    assert(name@ =~= control_prefix());
    find_ar_member(blob, name.as_slice())
}

} // verus!
