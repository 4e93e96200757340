use pkgrepo::index::PackageRecord;
use pkgrepo::processor::PackageType;
use pkgrepo::release::{publish_deb, release_file, to_hex};
use pkgrepo::storage::MemoryStorage;
use sha2::Digest;

fn record(name: &str, version: &str) -> PackageRecord {
    PackageRecord {
        pkg_type: PackageType::Deb,
        name: name.to_string(),
        version: version.to_string(),
        architecture: "all".to_string(),
        checksum: "00".to_string(),
        size: 3,
        depends: vec![],
        description: None,
        key: format!("blobs/deb/{}-{}.deb", name, version),
    }
}

#[test]
fn hex_digits() {
    assert_eq!(to_hex(&[]), "");
    assert_eq!(to_hex(&[0x00, 0x0f, 0xa5, 0xff]), "000fa5ff");
}

#[test]
fn release_names_digest_and_size() {
    let r = release_file("Sat, 01 Jan 2022 00:00:00 UTC", "Packages", b"abc");
    assert_eq!(
        r,
        "Origin: Package Repository\nLabel: Package Repository\nSuite: stable\nCodename: stable\nDate: Sat, 01 Jan 2022 00:00:00 UTC\nComponents: main\nSHA256:\n ba7816bf8f01cfea414140de5dae2223b00361a396177a9cb410ff61f20015ad 3 Packages\n"
    );
}

#[test]
fn published_release_matches_stored_packages() {
    let mut s = MemoryStorage::new();
    publish_deb(&mut s, vec![record("b", "1"), record("a", "1")], "today").unwrap();
    let packages = s.read("index/deb/Packages").unwrap();
    let release = String::from_utf8(s.read("index/deb/Release").unwrap()).unwrap();
    let digest: String = sha2::Sha256::digest(&packages).iter().map(|b| format!("{:02x}", b)).collect();
    assert!(release.contains(&format!(" {} {} Packages\n", digest, packages.len())));
    let text = String::from_utf8(packages).unwrap();
    assert!(text.starts_with("Package: a\n"));
    assert!(text.contains("\n\nPackage: b\n"));
}

#[test]
fn republishing_after_delete_drops_the_package() {
    let mut s = MemoryStorage::new();
    publish_deb(&mut s, vec![record("a", "1"), record("b", "1")], "d").unwrap();
    publish_deb(&mut s, vec![record("b", "1")], "d").unwrap();
    let text = String::from_utf8(s.read("index/deb/Packages").unwrap()).unwrap();
    assert!(!text.contains("Package: a\n"));
    assert!(text.contains("Package: b\n"));
}

#[test]
fn rebuild_without_changes_is_identical() {
    let mut s = MemoryStorage::new();
    publish_deb(&mut s, vec![record("x", "1"), record("y", "2")], "d").unwrap();
    let first = (s.read("index/deb/Packages").unwrap(), s.read("index/deb/Release").unwrap());
    publish_deb(&mut s, vec![record("y", "2"), record("x", "1")], "d").unwrap();
    let second = (s.read("index/deb/Packages").unwrap(), s.read("index/deb/Release").unwrap());
    assert_eq!(first, second);
}

fn rpm_record(name: &str) -> PackageRecord {
    PackageRecord { pkg_type: PackageType::Rpm, key: format!("blobs/rpm/{}-1.rpm", name), ..record(name, "1") }
}

#[test]
fn repomd_names_digest_and_size() {
    let r = pkgrepo::release::repomd_file("42", b"abc");
    assert_eq!(
        r,
        "<?xml version=\"1.0\" encoding=\"UTF-8\"?>\n<repomd xmlns=\"http://linux.duke.edu/metadata/repo\">\n  <revision>42</revision>\n  <data type=\"primary\">\n    <checksum type=\"sha256\">ba7816bf8f01cfea414140de5dae2223b00361a396177a9cb410ff61f20015ad</checksum>\n    <location href=\"repodata/primary.xml\"/>\n    <size>3</size>\n  </data>\n</repomd>\n"
    );
}

#[test]
fn published_repomd_matches_stored_primary() {
    let mut s = MemoryStorage::new();
    pkgrepo::release::publish_rpm(&mut s, vec![rpm_record("b"), rpm_record("a")], "7").unwrap();
    let primary = s.read("index/rpm/primary.xml").unwrap();
    let repomd = String::from_utf8(s.read("index/rpm/repomd.xml").unwrap()).unwrap();
    let digest: String = sha2::Sha256::digest(&primary).iter().map(|b| format!("{:02x}", b)).collect();
    assert!(repomd.contains(&format!("<checksum type=\"sha256\">{}</checksum>", digest)));
    assert!(repomd.contains(&format!("<size>{}</size>", primary.len())));
    let text = String::from_utf8(primary).unwrap();
    assert!(text.contains("packages=\"2\""));
    assert!(text.find("<name>a</name>").unwrap() < text.find("<name>b</name>").unwrap());
}
