use pkgrepo::ar::{deb_control_member, find_ar_member};
use pkgrepo::processor::RepoError;

fn member(name: &str, data: &[u8]) -> Vec<u8> {
    let mut h = format!("{:<16}{:<12}{:<6}{:<6}{:<8}{:<10}`\n", name, "0", "0", "0", "100644", data.len()).into_bytes();
    assert_eq!(h.len(), 60);
    h.extend_from_slice(data);
    if data.len() % 2 == 1 {
        h.push(b'\n');
    }
    h
}

fn archive(members: &[(&str, &[u8])]) -> Vec<u8> {
    let mut b = b"!<arch>\n".to_vec();
    for (n, d) in members {
        b.extend(member(n, d));
    }
    b
}

#[test]
fn finds_control_member_after_others() {
    let b = archive(&[("debian-binary", b"2.0\n"), ("control.tar.gz", b"abc"), ("data.tar.xz", b"xy")]);
    let (start, len) = deb_control_member(&b).unwrap();
    assert_eq!(&b[start..start + len], b"abc");
    assert_eq!(start, 8 + 60 + 4 + 60);
}

#[test]
fn finds_member_with_gnu_name() {
    let b = archive(&[("debian-binary", b"2.0\n"), ("control.tar.zst/", b"z")]);
    let (start, len) = find_ar_member(&b, b"control.tar").unwrap();
    assert_eq!(&b[start..start + len], b"z");
}

#[test]
fn wrong_magic_is_corrupt() {
    assert_eq!(deb_control_member(b"!<arch?\n"), Err(RepoError::CorruptPackage));
    assert_eq!(deb_control_member(b""), Err(RepoError::CorruptPackage));
}

#[test]
fn absent_control_member_is_missing_metadata() {
    let b = archive(&[("debian-binary", b"2.0\n"), ("data.tar.xz", b"x")]);
    assert_eq!(deb_control_member(&b), Err(RepoError::MissingMetadata));
    assert_eq!(deb_control_member(b"!<arch>\n"), Err(RepoError::MissingMetadata));
}

#[test]
fn truncated_archive_is_corrupt() {
    let mut b = archive(&[("debian-binary", b"2.0\n"), ("control.tar.gz", b"abcd")]);
    b.truncate(b.len() - 2);
    assert_eq!(deb_control_member(&b), Err(RepoError::CorruptPackage));
    let mut h = archive(&[("debian-binary", b"2.0\n")]);
    h.extend_from_slice(b"control.tar.gz  ");
    assert_eq!(deb_control_member(&h), Err(RepoError::CorruptPackage));
}

#[test]
fn bad_size_field_is_corrupt() {
    let mut b = archive(&[("control.tar.gz", b"abcd")]);
    b[8 + 48] = b'x';
    assert_eq!(deb_control_member(&b), Err(RepoError::CorruptPackage));
}
