//! The storage contract: keys mapped to bytes, with write, read, delete,
//! exists and list-by-prefix, the key layout the repository uses, and a
//! verified in-memory backend.

use vstd::prelude::*;
use vstd::slice::slice_to_vec;
use crate::processor::PackageType;
use crate::text::{has_prefix, starts_with};

verus! {

#[verifier::external_type_specification]
#[verifier::external_body]
pub struct ExIoError(std::io::Error);

/// Failures of a storage backend.
#[derive(Debug)]
pub enum StorageError {
    /// The file system refused an operation.
    Io(std::io::Error),
    /// The object store refused an operation; the text describes why.
    S3(String),
    /// A read asked for a key that holds nothing.
    NotFound(String),
}

/// The key of a stored package blob: `blobs/<type>/<name>-<version>.<ext>`.
pub open spec fn blob_key_spec(
    t: PackageType,
    name: Seq<char>,
    version: Seq<char>,
    ext: Seq<char>,
) -> Seq<char> {
    "blobs/"@ + t.name_spec() + "/"@ + name + "-"@ + version + "."@ + ext
}

/// The prefix under which all blobs of one type are stored: `blobs/<type>/`.
pub open spec fn blob_prefix_spec(t: PackageType) -> Seq<char> {
    "blobs/"@ + t.name_spec() + "/"@
}

/// The key of an index artifact: `index/<type>/<artifact>`.
pub open spec fn index_key_spec(t: PackageType, artifact: Seq<char>) -> Seq<char> {
    "index/"@ + t.name_spec() + "/"@ + artifact
}

/// The key under which a blob of type `t` is stored.
pub fn blob_key(t: PackageType, name: &str, version: &str, ext: &str) -> (r: String)
    ensures
        r@ == blob_key_spec(t, name@, version@, ext@),
{
    let mut k = String::from_str("blobs/");
    k.append(t.as_str());
    k.append("/");
    k.append(name);
    k.append("-");
    k.append(version);
    k.append(".");
    k.append(ext);
    k
}

/// The prefix under which the blobs of type `t` are stored.
pub fn blob_prefix(t: PackageType) -> (r: String)
    ensures
        r@ == blob_prefix_spec(t),
{
    let mut k = String::from_str("blobs/");
    k.append(t.as_str());
    k.append("/");
    k
}

/// The key under which the index artifact `artifact` of type `t` is stored.
pub fn index_key(t: PackageType, artifact: &str) -> (r: String)
    ensures
        r@ == index_key_spec(t, artifact@),
{
    let mut k = String::from_str("index/");
    k.append(t.as_str());
    k.append("/");
    k.append(artifact);
    k
}

/// A storage backend that keeps every object in memory.
pub struct MemoryStorage {
    entries: Vec<(String, Vec<u8>)>,
    contents: Ghost<Map<Seq<char>, Seq<u8>>>,
}

impl View for MemoryStorage {
    type V = Map<Seq<char>, Seq<u8>>;

    closed spec fn view(&self) -> Map<Seq<char>, Seq<u8>> {
        self.contents@
    }
}

/// The keys of `m` that begin with `prefix`.
pub open spec fn keys_under(m: Map<Seq<char>, Seq<u8>>, prefix: Seq<char>) -> Set<Seq<char>> {
    m.dom().filter(|k: Seq<char>| has_prefix(k, prefix))
}

/// `entries` holds each key once, and exactly the contents of `m`.
pub closed spec fn entries_match(entries: Seq<(String, Vec<u8>)>, m: Map<Seq<char>, Seq<u8>>) -> bool {
    &&& forall|i: int, j: int|
        0 <= i < entries.len() && 0 <= j < entries.len() && i != j ==> entries[i].0@ != entries[j].0@
    &&& forall|i: int|
        0 <= i < entries.len() ==> m.contains_key(#[trigger] entries[i].0@) && m[entries[i].0@]
            == entries[i].1@
    &&& forall|k: Seq<char>|
        #[trigger] m.contains_key(k) ==> exists|i: int| 0 <= i < entries.len() && entries[i].0@ == k
}

/// Taking out the entry of a key keeps the entries matched to the contents
/// without that key.
proof fn lemma_remove_entry(
    entries: Seq<(String, Vec<u8>)>,
    m: Map<Seq<char>, Seq<u8>>,
    i: int,
)
    requires
        entries_match(entries, m),
        0 <= i < entries.len(),
    ensures
        entries_match(entries.remove(i), m.remove(entries[i].0@)),
{
    let e2 = entries.remove(i);
    let key = entries[i].0@;
    let m2 = m.remove(key);
    assert forall|a: int, b: int|
        0 <= a < e2.len() && 0 <= b < e2.len() && a != b implies e2[a].0@ != e2[b].0@ by {
        let oa = if a < i { a } else { a + 1 };
        let ob = if b < i { b } else { b + 1 };
        assert(e2[a] == entries[oa] && e2[b] == entries[ob]);
    }
    assert forall|a: int| 0 <= a < e2.len() implies m2.contains_key(#[trigger] e2[a].0@) && m2[e2[a].0@]
        == e2[a].1@ by {
        let oa = if a < i { a } else { a + 1 };
        assert(e2[a] == entries[oa]);
        assert(entries[oa].0@ != key);
    }
    assert forall|k: Seq<char>| #[trigger] m2.contains_key(k) implies exists|a: int|
        0 <= a < e2.len() && e2[a].0@ == k by {
        assert(m.contains_key(k));
        let j = choose|j: int| 0 <= j < entries.len() && entries[j].0@ == k;
        assert(j != i);
        let a = if j < i { j } else { j - 1 };
        assert(e2[a] == entries[j]);
    }
}

/// Adding an entry for a key that no entry holds keeps the entries matched
/// to the contents with that key added.
proof fn lemma_push_entry(
    entries: Seq<(String, Vec<u8>)>,
    m: Map<Seq<char>, Seq<u8>>,
    e: (String, Vec<u8>),
)
    requires
        entries_match(entries, m),
        !m.contains_key(e.0@),
    ensures
        entries_match(entries.push(e), m.insert(e.0@, e.1@)),
{
    let e2 = entries.push(e);
    let m2 = m.insert(e.0@, e.1@);
    let n = entries.len() as int;
    assert(e2[n] == e);
    assert forall|a: int, b: int|
        0 <= a < e2.len() && 0 <= b < e2.len() && a != b implies e2[a].0@ != e2[b].0@ by {
        if a < n {
            assert(e2[a] == entries[a]);
        }
        if b < n {
            assert(e2[b] == entries[b]);
        }
    }
    assert forall|a: int| 0 <= a < e2.len() implies m2.contains_key(#[trigger] e2[a].0@) && m2[e2[a].0@]
        == e2[a].1@ by {
        if a < n {
            assert(e2[a] == entries[a]);
        }
    }
    assert forall|k: Seq<char>| #[trigger] m2.contains_key(k) implies exists|a: int|
        0 <= a < e2.len() && e2[a].0@ == k by {
        if k != e.0@ {
            let j = choose|j: int| 0 <= j < entries.len() && entries[j].0@ == k;
            assert(e2[j] == entries[j]);
        }
    }
}

/// `keys` names each member of `s` exactly once, and nothing else.
pub open spec fn lists_exactly(keys: Seq<String>, s: Set<Seq<char>>) -> bool {
    &&& forall|i: int, j: int|
        0 <= i < keys.len() && 0 <= j < keys.len() && i != j ==> keys[i]@ != keys[j]@
    &&& forall|k: Seq<char>| s.contains(k) <==> exists|i: int| 0 <= i < keys.len() && keys[i]@ == k
}

impl MemoryStorage {
    /// Each key is held once, and the entries are exactly the contents.
    pub closed spec fn wf(&self) -> bool {
        entries_match(self.entries@, self.contents@)
    }

    /// An empty store.
    pub fn new() -> (r: Self)
        ensures
            r.wf(),
            r@ == Map::<Seq<char>, Seq<u8>>::empty(),
    {
        MemoryStorage { entries: Vec::new(), contents: Ghost(Map::empty()) }
    }

    /// The position of `key` among the entries, if it is stored.
    fn find(&self, key: &String) -> (r: Option<usize>)
        requires
            self.wf(),
        ensures
            match r {
                Some(i) => i < self.entries@.len() && self.entries@[i as int].0@ == key@,
                None => !self@.contains_key(key@),
            },
    {
        let mut i: usize = 0;
        while i < self.entries.len()
            invariant
                self.wf(),
                i <= self.entries@.len(),
                forall|j: int| 0 <= j < i ==> self.entries@[j].0@ != key@,
            decreases self.entries@.len() - i,
        {
            if self.entries[i].0 == *key {
                return Some(i);
            }
            i = i + 1;
        }
        None
    }

    /// Stores `data` at `key`, replacing what was there.
    pub fn write(&mut self, key: &str, data: &[u8]) -> (r: Result<(), StorageError>)
        requires
            old(self).wf(),
        ensures
            final(self).wf(),
            r is Ok,
            final(self)@ == old(self)@.insert(key@, data@),
    {
        let k = String::from_str(key);
        let v = slice_to_vec(data);
        self.remove_key(&k);
        proof {
            lemma_push_entry(self.entries@, self.contents@, (k, v));
        }
        self.entries.push((k, v));
        self.contents = Ghost(self.contents@.insert(key@, data@));
        assert(self.contents@ =~= old(self)@.insert(key@, data@));
        Ok(())
    }

    /// Takes out the entry of `key`, if there is one.
    fn remove_key(&mut self, key: &String)
        requires
            old(self).wf(),
        ensures
            final(self).wf(),
            final(self)@ == old(self)@.remove(key@),
    {
        match self.find(key) {
            Some(i) => {
                proof {
                    lemma_remove_entry(self.entries@, self.contents@, i as int);
                }
                self.entries.remove(i);
                self.contents = Ghost(self.contents@.remove(key@));
            },
            None => {
                assert(self.contents@.remove(key@) =~= self.contents@);
            },
        }
    }

    /// The bytes stored at `key`, or `NotFound` naming the key.
    pub fn read(&self, key: &str) -> (r: Result<Vec<u8>, StorageError>)
        requires
            self.wf(),
        ensures
            self@.contains_key(key@) <==> r is Ok,
            r matches Ok(d) ==> d@ == self@[key@],
            r matches Err(e) ==> (e matches StorageError::NotFound(k) && k@ == key@),
    {
        let k = String::from_str(key);
        match self.find(&k) {
            Some(i) => Ok(self.entries[i].1.clone()),
            None => Err(StorageError::NotFound(k)),
        }
    }

    /// Removes `key`; removing a key that holds nothing is no error.
    pub fn delete(&mut self, key: &str) -> (r: Result<(), StorageError>)
        requires
            old(self).wf(),
        ensures
            final(self).wf(),
            r is Ok,
            final(self)@ == old(self)@.remove(key@),
    {
        let k = String::from_str(key);
        self.remove_key(&k);
        Ok(())
    }

    /// Whether `key` holds an object.
    pub fn has_key(&self, key: &str) -> (r: bool)
        requires
            self.wf(),
        ensures
            r == self@.contains_key(key@),
    {
        let k = String::from_str(key);
        self.find(&k).is_some()
    }

    /// Every stored key that begins with `prefix`, each once.
    pub fn list(&self, prefix: &str) -> (r: Result<Vec<String>, StorageError>)
        requires
            self.wf(),
        ensures
            r matches Ok(keys) && lists_exactly(keys@, keys_under(self@, prefix@)),
    {
        let mut out: Vec<String> = Vec::new();
        let mut i: usize = 0;
        while i < self.entries.len()
            invariant
                self.wf(),
                i <= self.entries@.len(),
                forall|a: int, b: int|
                    0 <= a < out@.len() && 0 <= b < out@.len() && a != b ==> out@[a]@ != out@[b]@,
                forall|a: int|
                    0 <= a < out@.len() ==> exists|j: int|
                        0 <= j < i && #[trigger] out@[a]@ == self.entries@[j].0@,
                forall|a: int| 0 <= a < out@.len() ==> has_prefix(#[trigger] out@[a]@, prefix@),
                forall|j: int|
                    0 <= j < i && has_prefix(#[trigger] self.entries@[j].0@, prefix@)
                        ==> exists|a: int| 0 <= a < out@.len() && out@[a]@ == self.entries@[j].0@,
            decreases self.entries@.len() - i,
        {
            if starts_with(self.entries[i].0.as_str(), prefix) {
                let ghost before = out@;
                out.push(self.entries[i].0.clone());
                proof {
                    assert(out@[before.len() as int]@ == self.entries@[i as int].0@);
                    assert forall|a: int, b: int|
                        0 <= a < out@.len() && 0 <= b < out@.len() && a != b
                            implies out@[a]@ != out@[b]@ by {
                        if a < before.len() && b < before.len() {
                            assert(out@[a] == before[a] && out@[b] == before[b]);
                        } else if a < before.len() {
                            assert(out@[a] == before[a]);
                        } else if b < before.len() {
                            assert(out@[b] == before[b]);
                        }
                    }
                    assert forall|a: int| 0 <= a < out@.len() implies exists|j: int|
                        0 <= j < i + 1 && #[trigger] out@[a]@ == self.entries@[j].0@ by {
                        if a < before.len() {
                            assert(out@[a] == before[a]);
                        }
                    }
                    assert forall|a: int| 0 <= a < out@.len() implies has_prefix(
                        #[trigger] out@[a]@,
                        prefix@,
                    ) by {
                        if a < before.len() {
                            assert(out@[a] == before[a]);
                        }
                    }
                    assert forall|j: int|
                        0 <= j < i + 1 && has_prefix(#[trigger] self.entries@[j].0@, prefix@)
                            implies exists|a: int|
                                0 <= a < out@.len() && out@[a]@ == self.entries@[j].0@ by {
                        if j < i {
                            let a = choose|a: int|
                                0 <= a < before.len() && before[a]@ == self.entries@[j].0@;
                            assert(out@[a] == before[a]);
                        } else {
                            assert(out@[before.len() as int]@ == self.entries@[j].0@);
                        }
                    }
                }
            }
            i = i + 1;
        }
        proof {
            assert forall|k: Seq<char>|
                keys_under(self@, prefix@).contains(k) <==> exists|a: int|
                    0 <= a < out@.len() && out@[a]@ == k by {
                if keys_under(self@, prefix@).contains(k) {
                    assert(self@.contains_key(k));
                    let j = choose|j: int| 0 <= j < self.entries@.len() && self.entries@[j].0@ == k;
                    assert(has_prefix(self.entries@[j].0@, prefix@));
                }
                if exists|a: int| 0 <= a < out@.len() && out@[a]@ == k {
                    let a = choose|a: int| 0 <= a < out@.len() && out@[a]@ == k;
                    assert(has_prefix(out@[a]@, prefix@));
                    let j = choose|j: int| 0 <= j < self.entries@.len() && out@[a]@ == self.entries@[j].0@;
                    assert(self@.contains_key(self.entries@[j].0@));
                }
            }
        }
        assert(lists_exactly(out@, keys_under(self@, prefix@)));
        Ok(out)
    }
}

} // verus!
