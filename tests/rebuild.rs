use flate2::write::GzEncoder;
use flate2::Compression;
use pkgrepo::processor::{PackageType, RepoError};
use pkgrepo::rebuild::{collect_records, rebuild};
use pkgrepo::storage::{blob_key, MemoryStorage};
use std::io::Write;

fn tar_one(name: &str, data: &str) -> Vec<u8> {
    let mut h = vec![0u8; 512];
    h[..name.len()].copy_from_slice(name.as_bytes());
    h[124..136].copy_from_slice(format!("{:011o}\0", data.len()).as_bytes());
    h[156] = b'0';
    h.extend_from_slice(data.as_bytes());
    while h.len() % 512 != 0 {
        h.push(0);
    }
    h.extend(vec![0u8; 1024]);
    h
}

fn deb(name: &str, version: &str) -> Vec<u8> {
    let control = format!("Package: {}\nVersion: {}\nArchitecture: all\n", name, version);
    let mut e = GzEncoder::new(Vec::new(), Compression::default());
    e.write_all(&tar_one("./control", &control)).unwrap();
    let member = e.finish().unwrap();
    let mut b = b"!<arch>\n".to_vec();
    b.extend(format!("{:<16}{:<12}{:<6}{:<6}{:<8}{:<10}`\n", "control.tar.gz", "0", "0", "0", "100644", member.len()).into_bytes());
    b.extend_from_slice(&member);
    if member.len() % 2 == 1 {
        b.push(b'\n');
    }
    b
}

fn packages(s: &MemoryStorage) -> String {
    String::from_utf8(s.read("index/deb/Packages").unwrap()).unwrap()
}

#[test]
fn rebuild_lists_every_stored_blob() {
    let mut s = MemoryStorage::new();
    s.write(&blob_key(PackageType::Deb, "b", "1", "deb"), &deb("b", "1")).unwrap();
    s.write(&blob_key(PackageType::Deb, "a", "2", "deb"), &deb("a", "2")).unwrap();
    s.write(&blob_key(PackageType::Rpm, "c", "1", "rpm"), b"not a deb").unwrap();
    rebuild(&mut s, PackageType::Deb, "d").unwrap();
    let text = packages(&s);
    assert!(text.starts_with("Package: a\nVersion: 2\n"));
    assert!(text.contains("Package: b\nVersion: 1\nArchitecture: all\nFilename: blobs/deb/b-1.deb\n"));
    assert!(s.has_key("index/deb/Release"));
}

#[test]
fn delete_then_rebuild_removes_package() {
    let mut s = MemoryStorage::new();
    s.write("blobs/deb/a-1.deb", &deb("a", "1")).unwrap();
    s.write("blobs/deb/b-1.deb", &deb("b", "1")).unwrap();
    rebuild(&mut s, PackageType::Deb, "d").unwrap();
    assert!(s.delete("blobs/deb/a-1.deb").is_ok());
    assert!(s.delete("blobs/deb/zzz-9.deb").is_ok());
    rebuild(&mut s, PackageType::Deb, "d").unwrap();
    let text = packages(&s);
    assert!(!text.contains("Package: a\n"));
    assert!(text.contains("Package: b\n"));
}

#[test]
fn failed_rebuild_leaves_previous_index() {
    let mut s = MemoryStorage::new();
    s.write("blobs/deb/a-1.deb", &deb("a", "1")).unwrap();
    rebuild(&mut s, PackageType::Deb, "d").unwrap();
    let before = packages(&s);
    s.write("blobs/deb/bad-1.deb", b"!<arch>\ncorrupt").unwrap();
    assert_eq!(rebuild(&mut s, PackageType::Deb, "e"), Err(RepoError::CorruptPackage));
    assert_eq!(packages(&s), before);
}

#[test]
fn collect_records_reads_each_blob() {
    let mut s = MemoryStorage::new();
    let blob = deb("x", "3");
    s.write("blobs/deb/x-3.deb", &blob).unwrap();
    let recs = collect_records(&s, PackageType::Deb).unwrap();
    assert_eq!(recs.len(), 1);
    assert_eq!(recs[0].name, "x");
    assert_eq!(recs[0].size, blob.len() as u64);
    assert_eq!(recs[0].key, "blobs/deb/x-3.deb");
    assert!(collect_records(&s, PackageType::Alpine).unwrap().is_empty());
}

#[test]
fn rpm_rebuild_with_corrupt_blob_changes_nothing() {
    let mut s = MemoryStorage::new();
    s.write("blobs/rpm/x-1.rpm", b"not an rpm").unwrap();
    assert_eq!(rebuild(&mut s, PackageType::Rpm, "1"), Err(RepoError::CorruptPackage));
    assert!(!s.has_key("index/rpm/primary.xml"));
    s.delete("blobs/rpm/x-1.rpm").unwrap();
    rebuild(&mut s, PackageType::Rpm, "2").unwrap();
    let primary = String::from_utf8(s.read("index/rpm/primary.xml").unwrap()).unwrap();
    assert!(primary.contains("packages=\"0\""));
}

#[test]
fn upload_stores_blob_and_publishes_index() {
    let mut s = MemoryStorage::new();
    let blob = deb("hello", "1.0");
    let rec = pkgrepo::repository::upload(&mut s, "Hello_1.0_all.DEB", &blob, "d").unwrap();
    assert_eq!(rec.name, "hello");
    assert_eq!(rec.version, "1.0");
    assert_eq!(rec.key, "blobs/deb/hello-1.0.deb");
    assert_eq!(s.read("blobs/deb/hello-1.0.deb").unwrap(), blob);
    assert!(packages(&s).contains("Package: hello\nVersion: 1.0\n"));
}

#[test]
fn two_uploads_both_listed() {
    let mut s = MemoryStorage::new();
    pkgrepo::repository::upload(&mut s, "a.deb", &deb("a", "1"), "d").unwrap();
    pkgrepo::repository::upload(&mut s, "b.deb", &deb("b", "1"), "d").unwrap();
    let text = packages(&s);
    assert!(text.contains("Package: a\n"));
    assert!(text.contains("Package: b\n"));
}

#[test]
fn unknown_upload_changes_nothing() {
    let mut s = MemoryStorage::new();
    assert_eq!(pkgrepo::repository::upload(&mut s, "tool.txt", b"x", "d").err(), Some(RepoError::UnknownFormat));
    assert!(s.list("").unwrap().is_empty());
    assert_eq!(pkgrepo::repository::upload(&mut s, "bad.deb", b"x", "d").err(), Some(RepoError::CorruptPackage));
    assert!(s.list("").unwrap().is_empty());
}

#[test]
fn delete_package_then_index_drops_it() {
    let mut s = MemoryStorage::new();
    pkgrepo::repository::upload(&mut s, "a.deb", &deb("a", "1"), "d").unwrap();
    pkgrepo::repository::upload(&mut s, "b.deb", &deb("b", "1"), "d").unwrap();
    pkgrepo::repository::delete_package(&mut s, PackageType::Deb, "a", "1", "d").unwrap();
    assert!(!s.has_key("blobs/deb/a-1.deb"));
    let text = packages(&s);
    assert!(!text.contains("Package: a\n"));
    assert!(text.contains("Package: b\n"));
    // deleting a package that is not stored is no error
    pkgrepo::repository::delete_package(&mut s, PackageType::Deb, "zzz", "9", "d").unwrap();
}

#[test]
fn alpine_rebuild_publishes_apkindex() {
    let mut s = MemoryStorage::new();
    let info = "pkgname = musl\npkgver = 1.2-r0\narch = x86_64\n";
    let mut e = GzEncoder::new(Vec::new(), Compression::default());
    e.write_all(&tar_one(".PKGINFO", info)).unwrap();
    let blob = e.finish().unwrap();
    pkgrepo::repository::upload(&mut s, "musl-1.2-r0.apk", &blob, "d").unwrap();
    let index = String::from_utf8(s.read("index/alpine/APKINDEX").unwrap()).unwrap();
    assert!(index.contains("\nP:musl\nV:1.2-r0\nA:x86_64\n"));
}
