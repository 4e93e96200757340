use pkgrepo::processor::PackageType;
use pkgrepo::storage::{blob_key, blob_prefix, index_key, MemoryStorage, StorageError};

#[test]
fn key_layout() {
    assert_eq!(blob_key(PackageType::Deb, "hello", "1.0", "deb"), "blobs/deb/hello-1.0.deb");
    assert_eq!(blob_key(PackageType::Arch, "hi", "2-1", "pkg.tar.zst"), "blobs/arch/hi-2-1.pkg.tar.zst");
    assert_eq!(blob_prefix(PackageType::Alpine), "blobs/alpine/");
    assert_eq!(index_key(PackageType::Rpm, "repomd.xml"), "index/rpm/repomd.xml");
    assert_eq!(index_key(PackageType::Deb, "Release.gpg"), "index/deb/Release.gpg");
}

#[test]
fn write_then_read() {
    let mut s = MemoryStorage::new();
    assert!(s.write("blobs/deb/a-1.deb", &[1, 2, 3]).is_ok());
    assert_eq!(s.read("blobs/deb/a-1.deb").unwrap(), vec![1, 2, 3]);
    assert!(s.has_key("blobs/deb/a-1.deb"));
}

#[test]
fn write_overwrites() {
    let mut s = MemoryStorage::new();
    s.write("k", &[1]).unwrap();
    s.write("k", &[2, 2]).unwrap();
    assert_eq!(s.read("k").unwrap(), vec![2, 2]);
    assert_eq!(s.list("").unwrap(), vec!["k".to_string()]);
}

#[test]
fn read_of_absent_key_is_not_found() {
    let s = MemoryStorage::new();
    match s.read("missing") {
        Err(StorageError::NotFound(k)) => assert_eq!(k, "missing"),
        other => panic!("unexpected {:?}", other),
    }
    assert!(!s.has_key("missing"));
}

#[test]
fn delete_of_absent_key_is_ok() {
    let mut s = MemoryStorage::new();
    s.write("a", &[0]).unwrap();
    assert!(s.delete("b").is_ok());
    assert!(s.has_key("a"));
    assert!(s.delete("a").is_ok());
    assert!(!s.has_key("a"));
    assert!(s.delete("a").is_ok());
    assert!(s.read("a").is_err());
}

#[test]
fn list_by_prefix() {
    let mut s = MemoryStorage::new();
    s.write("blobs/deb/a-1.deb", &[1]).unwrap();
    s.write("blobs/deb/b-1.deb", &[2]).unwrap();
    s.write("blobs/rpm/c-1.rpm", &[3]).unwrap();
    s.write("index/deb/Packages", &[4]).unwrap();
    let mut deb = s.list("blobs/deb/").unwrap();
    deb.sort();
    assert_eq!(deb, vec!["blobs/deb/a-1.deb".to_string(), "blobs/deb/b-1.deb".to_string()]);
    assert_eq!(s.list("blobs/alpine/").unwrap(), Vec::<String>::new());
    assert_eq!(s.list("").unwrap().len(), 4);
}

#[test]
fn distinct_writes_are_both_kept() {
    let mut s = MemoryStorage::new();
    s.write(&blob_key(PackageType::Rpm, "a", "1", "rpm"), &[1]).unwrap();
    s.write(&blob_key(PackageType::Rpm, "b", "1", "rpm"), &[2]).unwrap();
    let mut keys = s.list(&blob_prefix(PackageType::Rpm)).unwrap();
    keys.sort();
    assert_eq!(keys, vec!["blobs/rpm/a-1.rpm".to_string(), "blobs/rpm/b-1.rpm".to_string()]);
    assert_eq!(s.read("blobs/rpm/a-1.rpm").unwrap(), vec![1]);
    assert_eq!(s.read("blobs/rpm/b-1.rpm").unwrap(), vec![2]);
}

#[test]
fn delete_removes_from_listing() {
    let mut s = MemoryStorage::new();
    s.write("blobs/deb/a-1.deb", &[1]).unwrap();
    s.write("blobs/deb/b-1.deb", &[2]).unwrap();
    s.delete("blobs/deb/a-1.deb").unwrap();
    assert_eq!(s.list("blobs/deb/").unwrap(), vec!["blobs/deb/b-1.deb".to_string()]);
}
