//! Entries of a tar archive, found by name.
//!
//! A tar archive is a run of 512-byte blocks. Each entry has a header block
//! (name in bytes 0..100, ended by a NUL where shorter; size in octal in
//! bytes 124..136) and then its data, padded to whole blocks. A header whose
//! name begins with a NUL ends the archive.

use vstd::prelude::*;
use crate::processor::RepoError;

verus! {

/// The number of leading octal digits of `f`.
pub open spec fn lead_octal(f: Seq<u8>) -> nat
    decreases f.len(),
{
    if f.len() > 0 && 0x30 <= f[0] <= 0x37 {
        1 + lead_octal(f.drop_first())
    } else {
        0
    }
}

/// The number written in the octal digits `s`.
pub open spec fn oct_value(s: Seq<u8>) -> nat
    decreases s.len(),
{
    if s.len() == 0 {
        0
    } else {
        oct_value(s.drop_last()) * 8 + (s.last() - 0x30) as nat
    }
}

/// The size in a header's size field: one or more octal digits, then NUL
/// bytes or spaces only.
pub open spec fn octal_size(f: Seq<u8>) -> Option<nat> {
    let k = lead_octal(f);
    if k == 0 || exists|i: int| k <= i < f.len() && f[i] != 0 && f[i] != 0x20 {
        None
    } else {
        Some(oct_value(f.take(k as int)))
    }
}

/// `x` rounded up to whole blocks.
pub open spec fn block_round(x: int) -> int {
    x + (512 - x % 512) % 512
}

/// The header at `p` names `target`.
pub open spec fn names(b: Seq<u8>, p: int, target: Seq<u8>) -> bool {
    target.len() < 100 && b.subrange(p, p + target.len()) == target && b[p + target.len()] == 0
}

/// The entry named `target` at or after header position `p`, as the
/// position and length of its data.
pub open spec fn find_entry(b: Seq<u8>, p: int, target: Seq<u8>) -> Result<(nat, nat), RepoError>
    decreases b.len() + 512 - p,
{
    if p < 0 || p + 512 > b.len() {
        Err(RepoError::CorruptPackage)
    } else if b[p] == 0 {
        Err(RepoError::MissingMetadata)
    } else {
        match octal_size(b.subrange(p + 124, p + 136)) {
            None => Err(RepoError::CorruptPackage),
            Some(size) => {
                if p + 512 + size > b.len() {
                    Err(RepoError::CorruptPackage)
                } else if names(b, p, target) {
                    Ok(((p + 512) as nat, size))
                } else {
                    find_entry(b, p + 512 + block_round(size as int), target)
                }
            },
        }
    }
}

/// Eight to the power `n`.
pub open spec fn pow8(n: nat) -> nat
    decreases n,
{
    if n == 0 {
        1
    } else {
        8 * pow8((n - 1) as nat)
    }
}

/// Powers of eight grow with the exponent, and eight to the twelfth fits
/// in a `u64`.
proof fn lemma_pow8_grows(m: nat, n: nat)
    requires
        m <= n,
    ensures
        pow8(m) <= pow8(n),
        pow8(12) == 68_719_476_736,
    decreases n - m,
{
    reveal_with_fuel(pow8, 13);
    if m < n {
        lemma_pow8_grows(m, (n - 1) as nat);
    }
}

/// Reads a header's size field.
fn read_octal(b: &[u8], start: usize) -> (r: Option<u64>)
    requires
        start + 12 <= b@.len(),
    ensures
        match r {
            Some(v) => octal_size(b@.subrange(start as int, start + 12)) == Some(v as nat),
            None => octal_size(b@.subrange(start as int, start + 12)) is None,
        },
{
    let ghost f = b@.subrange(start as int, start + 12);
    let n = b.len();
    proof {
        lemma_pow8_grows(0, 12);
    }
    let mut i: usize = 0;
    let mut v: u64 = 0;
    assert(f.take(0) =~= Seq::<u8>::empty());
    assert(f.skip(0) =~= f);
    while i < 12 && 0x30 <= b[start + i] && b[start + i] <= 0x37
        invariant
            n == b@.len(),
            start + 12 <= b@.len(),
            f == b@.subrange(start as int, start + 12),
            i <= 12,
            v == oct_value(f.take(i as int)),
            v < pow8(i as nat),
            pow8(i as nat) <= pow8(12),
            lead_octal(f) == i + lead_octal(f.skip(i as int)),
        decreases 12 - i,
    {
        let d = (b[start + i] - 0x30) as u64;
        assert(f.take(i + 1).drop_last() =~= f.take(i as int));
        assert(f.skip(i as int).drop_first() =~= f.skip(i + 1));
        proof {
            lemma_pow8_grows(i as nat + 1, 12);
            assert(v * 8 + d < pow8(i as nat) * 8) by (nonlinear_arith)
                requires
                    v < pow8(i as nat),
                    d < 8,
            ;
        }
        v = v * 8 + d;
        i = i + 1;
    }
    assert(lead_octal(f) == i) by {
        if i < 12 {
            assert(f.skip(i as int)[0] == f[i as int]);
        } else {
            assert(f.skip(12).len() == 0);
        }
    }
    if i == 0 {
        return None;
    }
    let mut j: usize = i;
    while j < 12
        invariant
            n == b@.len(),
            start + 12 <= b@.len(),
            f == b@.subrange(start as int, start + 12),
            lead_octal(f) == i,
            i <= j <= 12,
            forall|k: int| i <= k < j ==> f[k] == 0 || f[k] == 0x20,
        decreases 12 - j,
    {
        if b[start + j] != 0 && b[start + j] != 0x20 {
            assert(f[j as int] != 0 && f[j as int] != 0x20);
            assert(exists|x: int| lead_octal(f) <= x < f.len() && f[x] != 0 && f[x] != 0x20);
            return None;
        }
        j = j + 1;
    }
    assert(f.take(i as int) == f.take(lead_octal(f) as int));
    Some(v)
}

/// Whether the header at `p` names `target`.
fn names_exec(b: &[u8], p: usize, target: &[u8]) -> (r: bool)
    requires
        p + 512 <= b@.len(),
    ensures
        r == names(b@, p as int, target@),
{
    let m = target.len();
    let n = b.len();
    if m >= 100 {
        return false;
    }
    let mut k: usize = 0;
    while k < m
        invariant
            n == b@.len(),
            m == target@.len(),
            m < 100,
            p + 512 <= b@.len(),
            k <= m,
            forall|x: int| 0 <= x < k ==> b@[p + x] == target@[x],
        decreases m - k,
    {
        if b[p + k] != target[k] {
            assert(b@.subrange(p as int, p + m)[k as int] != target@[k as int]);
            return false;
        }
        k = k + 1;
    }
    assert(b@.subrange(p as int, p + m) =~= target@);
    b[p + m] == 0
}

/// Finds the entry of archive `b` named `target`, and gives the position
/// and length of its data: `MissingMetadata` where the archive ends without
/// one, `CorruptPackage` where a header is cut short or malformed.
pub fn find_tar_entry(b: &[u8], target: &[u8]) -> (r: Result<(usize, usize), RepoError>)
    ensures
        match r {
            Ok((start, len)) => start + len <= b@.len() && find_entry(b@, 0, target@) == Ok::<
                (nat, nat),
                RepoError,
            >((start as nat, len as nat)),
            Err(e) => find_entry(b@, 0, target@) == Err::<(nat, nat), RepoError>(e),
        },
{
    let n = b.len();
    let mut p: usize = 0;
    loop
        invariant
            n == b@.len(),
            find_entry(b@, 0, target@) == find_entry(b@, p as int, target@),
        decreases n + 512 - p,
    {
        if p > n || n - p < 512 {
            return Err(RepoError::CorruptPackage);
        }
        if b[p] == 0 {
            return Err(RepoError::MissingMetadata);
        }
        let size = match read_octal(b, p + 124) {
            Some(v) => v,
            None => {
                return Err(RepoError::CorruptPackage);
            },
        };
        assert(b@.subrange(p + 124, p + 124 + 12) == b@.subrange(p + 124, p + 136));
        let room = n - p - 512;
        if size > room as u64 {
            return Err(RepoError::CorruptPackage);
        }
        let len = size as usize;
        if names_exec(b, p, target) {
            return Ok((p + 512, len));
        }
        let pad = (512 - len % 512) % 512;
        let ghost next = p + 512 + block_round(len as int);
        assert(find_entry(b@, p as int, target@) == find_entry(b@, next, target@));
        if pad > n - p - 512 - len {
            assert(next + 512 > n);
            return Err(RepoError::CorruptPackage);
        }
        p = p + 512 + len + pad;
    }
}

} // verus!
