use pkgrepo::processor::{classify_upload, PackageType, RepoError};
use pkgrepo::text::{contains, ends_with, starts_with};

#[test]
fn classifies_each_suffix() {
    assert_eq!(PackageType::from_extension("hello_1.0_amd64.deb"), Some(PackageType::Deb));
    assert_eq!(PackageType::from_extension("hello-1.0-1.x86_64.rpm"), Some(PackageType::Rpm));
    assert_eq!(PackageType::from_extension("hello-1.0-1-x86_64.pkg.tar.zst"), Some(PackageType::Arch));
    assert_eq!(PackageType::from_extension("hello-1.0-r0.apk"), Some(PackageType::Alpine));
}

#[test]
fn classification_ignores_case() {
    assert_eq!(PackageType::from_extension("HELLO.DEB"), Some(PackageType::Deb));
    assert_eq!(PackageType::from_extension("Hello.Rpm"), Some(PackageType::Rpm));
    assert_eq!(PackageType::from_extension("HELLO.PKG.TAR.XZ"), Some(PackageType::Arch));
    assert_eq!(PackageType::from_extension("hello.APK"), Some(PackageType::Alpine));
}

#[test]
fn unknown_name_is_rejected() {
    assert_eq!(PackageType::from_extension("tool.txt"), None);
    assert_eq!(PackageType::from_extension(""), None);
    assert_eq!(PackageType::from_extension("deb"), None);
    assert_eq!(PackageType::from_extension("archive.tar.gz"), None);
}

#[test]
fn classification_keeps_priority_order() {
    // a `.deb` suffix wins over an embedded `.pkg.tar`
    assert_eq!(PackageType::from_extension("x.pkg.tar.deb"), Some(PackageType::Deb));
    // an embedded `.pkg.tar` wins over an `.apk` suffix
    assert_eq!(PackageType::from_extension("x.pkg.tar.apk"), Some(PackageType::Arch));
    // `.pkg.tar` may stand without a further compression suffix
    assert_eq!(PackageType::from_extension("x.pkg.tar"), Some(PackageType::Arch));
}

#[test]
fn lowercase_name_is_taken_as_given() {
    assert_eq!(PackageType::from_lowercase_name("x.deb"), Some(PackageType::Deb));
    assert_eq!(PackageType::from_lowercase_name("X.DEB"), None);
}

#[test]
fn type_names() {
    assert_eq!(PackageType::Deb.as_str(), "deb");
    assert_eq!(PackageType::Rpm.as_str(), "rpm");
    assert_eq!(PackageType::Arch.as_str(), "arch");
    assert_eq!(PackageType::Alpine.as_str(), "alpine");
    assert_eq!(PackageType::Alpine.to_string(), "alpine".to_string());
}

#[test]
fn text_matching() {
    assert!(ends_with("abc", "bc"));
    assert!(ends_with("abc", ""));
    assert!(!ends_with("bc", "abc"));
    assert!(contains("a.pkg.tar.zst", ".pkg.tar"));
    assert!(!contains("a.pkg.ta", ".pkg.tar"));
    assert!(starts_with("blobs/deb/x", "blobs/"));
    assert!(!starts_with("index/deb/x", "blobs/"));
    assert!(contains("ünïcödé.deb", "cöd"));
}

#[test]
fn unknown_upload_fails_with_unknown_format() {
    assert_eq!(classify_upload("tool.txt"), Err(RepoError::UnknownFormat));
    assert_eq!(classify_upload("Tool.PKG.TAR.GZ"), Ok(PackageType::Arch));
}
