//! The order in which an index lists its packages: by name, then by
//! version, each compared character by character.

use vstd::prelude::*;
use vstd::multiset::Multiset;
use crate::index::PackageRecord;

verus! {

/// `a` comes before or equals `b`, comparing code points from the left; a
/// proper prefix comes first.
pub open spec fn text_le(a: Seq<char>, b: Seq<char>) -> bool
    decreases a.len(),
{
    if a.len() == 0 {
        true
    } else if b.len() == 0 {
        false
    } else if a[0] != b[0] {
        (a[0] as int) < (b[0] as int)
    } else {
        text_le(a.drop_first(), b.drop_first())
    }
}

/// Of any two texts, one comes before or equals the other.
proof fn lemma_text_le_total(a: Seq<char>, b: Seq<char>)
    ensures
        text_le(a, b) || text_le(b, a),
    decreases a.len(),
{
    if a.len() > 0 && b.len() > 0 {
        if a[0] == b[0] {
            lemma_text_le_total(a.drop_first(), b.drop_first());
        } else {
            assert((a[0] as int) != (b[0] as int));
        }
    }
}

/// `x` is listed no later than `y`: by name, then by version.
pub open spec fn record_le(x: PackageRecord, y: PackageRecord) -> bool {
    if x.name@ != y.name@ {
        text_le(x.name@, y.name@)
    } else {
        text_le(x.version@, y.version@)
    }
}

/// Each record is listed no later than the next.
pub open spec fn sorted(rs: Seq<PackageRecord>) -> bool {
    forall|i: int| 0 <= i < rs.len() - 1 ==> record_le(#[trigger] rs[i], rs[i + 1])
}

/// Whether `a` comes before or equals `b`.
pub fn text_le_exec(a: &str, b: &str) -> (r: bool)
    ensures
        r == text_le(a@, b@),
{
    let na = a.unicode_len();
    let nb = b.unicode_len();
    let mut i: usize = 0;
    assert(a@.skip(0) =~= a@ && b@.skip(0) =~= b@);
    loop
        invariant
            na == a@.len(),
            nb == b@.len(),
            i <= na,
            i <= nb,
            text_le(a@, b@) == text_le(a@.skip(i as int), b@.skip(i as int)),
        decreases na - i,
    {
        if i == na {
            return true;
        }
        if i == nb {
            return false;
        }
        let ca = a.get_char(i);
        let cb = b.get_char(i);
        if ca != cb {
            return (ca as u32) < (cb as u32);
        }
        assert(a@.skip(i as int).drop_first() =~= a@.skip(i + 1));
        assert(b@.skip(i as int).drop_first() =~= b@.skip(i + 1));
        i = i + 1;
    }
}

/// Whether `x` is listed no later than `y`.
pub fn record_le_exec(x: &PackageRecord, y: &PackageRecord) -> (r: bool)
    ensures
        r == record_le(*x, *y),
{
    if x.name == y.name {
        text_le_exec(x.version.as_str(), y.version.as_str())
    } else {
        text_le_exec(x.name.as_str(), y.name.as_str())
    }
}

/// The records in index order, by name and then version.
pub fn sort_records(records: Vec<PackageRecord>) -> (r: Vec<PackageRecord>)
    ensures
        sorted(r@),
        r@.to_multiset() == records@.to_multiset(),
{
    broadcast use vstd::seq_lib::group_to_multiset_ensures;

    let mut input = records;
    let mut out: Vec<PackageRecord> = Vec::new();
    assert(out@.to_multiset() =~= Multiset::<PackageRecord>::empty());
    while input.len() > 0
        invariant
            sorted(out@),
            out@.to_multiset().add(input@.to_multiset()) == records@.to_multiset(),
        decreases input@.len(),
    {
        let ghost before_in = input@;
        let x = input.pop().unwrap();
        proof {
            assert(before_in =~= input@.push(x));
            vstd::seq_lib::to_multiset_build(input@, x);
        }
        let mut pos: usize = 0;
        while pos < out.len() && record_le_exec(&out[pos], &x)
            invariant
                pos <= out@.len(),
                forall|k: int| 0 <= k < pos ==> record_le(#[trigger] out@[k], x),
            decreases out@.len() - pos,
        {
            pos = pos + 1;
        }
        proof {
            if pos < out@.len() {
                let y = out@[pos as int];
                if x.name@ != y.name@ {
                    lemma_text_le_total(x.name@, y.name@);
                } else {
                    lemma_text_le_total(x.version@, y.version@);
                }
            }
        }
        let ghost before_out = out@;
        out.insert(pos, x);
        proof {
            vstd::seq_lib::to_multiset_insert(before_out, pos as int, x);
            assert forall|i: int| 0 <= i < out@.len() - 1 implies record_le(
                #[trigger] out@[i],
                out@[i + 1],
            ) by {
                if i + 1 < pos {
                    assert(out@[i] == before_out[i] && out@[i + 1] == before_out[i + 1]);
                } else if i + 1 == pos {
                    assert(out@[i] == before_out[i]);
                } else if i == pos {
                } else {
                    assert(out@[i] == before_out[i - 1] && out@[i + 1] == before_out[i]);
                }
            }
            assert(out@.to_multiset().add(input@.to_multiset()) =~= before_out.to_multiset().add(
                before_in.to_multiset(),
            ));
        }
    }
    assert(input@ =~= Seq::<PackageRecord>::empty());
    assert(out@.to_multiset().add(input@.to_multiset()) =~= out@.to_multiset());
    out
}

/// Two texts that each come before or equal the other are the same.
proof fn lemma_text_le_antisymmetric(a: Seq<char>, b: Seq<char>)
    requires
        text_le(a, b),
        text_le(b, a),
    ensures
        a == b,
    decreases a.len(),
{
    if a.len() > 0 && b.len() > 0 {
        lemma_text_le_antisymmetric(a.drop_first(), b.drop_first());
        assert(a =~= seq![a[0]] + a.drop_first());
        assert(b =~= seq![b[0]] + b.drop_first());
    } else {
        assert(a =~= b);
    }
}

/// The order of texts is transitive.
proof fn lemma_text_le_transitive(a: Seq<char>, b: Seq<char>, c: Seq<char>)
    requires
        text_le(a, b),
        text_le(b, c),
    ensures
        text_le(a, c),
    decreases a.len(),
{
    if a.len() > 0 && b.len() > 0 && c.len() > 0 && a[0] == b[0] && b[0] == c[0] {
        lemma_text_le_transitive(a.drop_first(), b.drop_first(), c.drop_first());
    }
}

/// The listing order of records is transitive.
proof fn lemma_record_le_transitive(x: PackageRecord, y: PackageRecord, z: PackageRecord)
    requires
        record_le(x, y),
        record_le(y, z),
    ensures
        record_le(x, z),
{
    if x.name@ != y.name@ && y.name@ != z.name@ {
        lemma_text_le_transitive(x.name@, y.name@, z.name@);
        if x.name@ == z.name@ {
            lemma_text_le_antisymmetric(x.name@, y.name@);
        }
    } else if x.name@ == y.name@ && y.name@ == z.name@ {
        lemma_text_le_transitive(x.version@, y.version@, z.version@);
    }
}

/// In a sorted sequence every record is listed no later than each one after it.
proof fn lemma_sorted_all_pairs(rs: Seq<PackageRecord>, i: int, j: int)
    requires
        sorted(rs),
        0 <= i <= j < rs.len(),
    ensures
        record_le(rs[i], rs[j]),
    decreases j - i,
{
    if i == j {
        if rs[i].name@ == rs[i].name@ {
            lemma_text_le_total(rs[i].version@, rs[i].version@);
        }
    } else {
        lemma_sorted_all_pairs(rs, i, j - 1);
        assert(record_le(rs[j - 1], rs[j]));
        lemma_record_le_transitive(rs[i], rs[j - 1], rs[j]);
    }
}

/// Records of the multiset that share name and version are the same record.
pub open spec fn one_record_per_version(m: Multiset<PackageRecord>) -> bool {
    forall|x: PackageRecord, y: PackageRecord|
        m.count(x) > 0 && m.count(y) > 0 && x.name@ == y.name@ && x.version@ == y.version@ ==> x
            == y
}

/// Two sorted listings of the same records, where records that share name
/// and version are the same, are the same sequence: the listing does not
/// depend on the order in which the records arrived.
pub proof fn sorted_listing_is_unique(a: Seq<PackageRecord>, b: Seq<PackageRecord>)
    requires
        sorted(a),
        sorted(b),
        a.to_multiset() == b.to_multiset(),
        one_record_per_version(a.to_multiset()),
    ensures
        a == b,
    decreases a.len(),
{
    broadcast use vstd::seq_lib::group_to_multiset_ensures;

    if a.len() == 0 {
        assert(b.len() == 0);
        assert(a =~= b);
    } else {
        assert(b.to_multiset().count(a[0]) > 0);
        assert(b.len() > 0);
        assert(a.to_multiset().count(b[0]) > 0);
        let j = choose|j: int| 0 <= j < b.len() && b[j] == a[0];
        let i = choose|i: int| 0 <= i < a.len() && a[i] == b[0];
        lemma_sorted_all_pairs(b, 0, j);
        lemma_sorted_all_pairs(a, 0, i);
        if a[0].name@ != b[0].name@ {
            lemma_text_le_antisymmetric(a[0].name@, b[0].name@);
        }
        lemma_text_le_antisymmetric(a[0].version@, b[0].version@);
        assert(a[0] == b[0]);
        let x = a[0];
        vstd::seq_lib::to_multiset_remove(a, 0);
        vstd::seq_lib::to_multiset_remove(b, 0);
        assert(a.remove(0) =~= a.drop_first());
        assert(b.remove(0) =~= b.drop_first());
        let a1 = a.drop_first();
        let b1 = b.drop_first();
        assert(sorted(a1)) by {
            assert forall|k: int| 0 <= k < a1.len() - 1 implies record_le(#[trigger] a1[k], a1[k + 1]) by {
                assert(record_le(a[k + 1], a[k + 2]));
            }
        }
        assert(sorted(b1)) by {
            assert forall|k: int| 0 <= k < b1.len() - 1 implies record_le(#[trigger] b1[k], b1[k + 1]) by {
                assert(record_le(b[k + 1], b[k + 2]));
            }
        }
        assert(one_record_per_version(a1.to_multiset())) by {
            assert forall|p: PackageRecord, q: PackageRecord|
                a1.to_multiset().count(p) > 0 && a1.to_multiset().count(q) > 0 && p.name@ == q.name@
                    && p.version@ == q.version@ implies p == q by {
                assert(a.to_multiset().count(p) > 0 && a.to_multiset().count(q) > 0);
            }
        }
        sorted_listing_is_unique(a1, b1);
        assert(a =~= seq![x] + a1);
        assert(b =~= seq![x] + b1);
    }
}

} // verus!
