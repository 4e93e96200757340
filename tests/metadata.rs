use pkgrepo::fields::{split_list, split_on, trim_spaces};
use pkgrepo::metadata::{parse_control, parse_pkginfo};
use pkgrepo::processor::RepoError;

#[test]
fn pkginfo_fields() {
    let text = "# Generated by makepkg\npkgname = hello\npkgbase = hello\npkgver = 2.12-1\npkgdesc = GNU Hello\narch = x86_64\ndepend = glibc\ndepend = bash>=5\n";
    let m = parse_pkginfo(text).unwrap();
    assert_eq!(m.name, "hello");
    assert_eq!(m.version, "2.12-1");
    assert_eq!(m.architecture, "x86_64");
    assert_eq!(m.depends, vec!["glibc".to_string(), "bash>=5".to_string()]);
    assert_eq!(m.description, Some("GNU Hello".to_string()));
}

#[test]
fn pkginfo_first_line_wins_and_no_depends() {
    let m = parse_pkginfo("pkgname = a\npkgname = b\npkgver = 1\narch = any").unwrap();
    assert_eq!(m.name, "a");
    assert_eq!(m.architecture, "any");
    assert!(m.depends.is_empty());
    assert_eq!(m.description, None);
}

#[test]
fn pkginfo_missing_field() {
    assert_eq!(parse_pkginfo("pkgname = a\npkgver = 1\n").err(), Some(RepoError::MissingMetadata));
    assert_eq!(parse_pkginfo("").err(), Some(RepoError::MissingMetadata));
    // `pkgname=a` lacks the spaced separator
    assert_eq!(parse_pkginfo("pkgname=a\npkgver = 1\narch = any").err(), Some(RepoError::MissingMetadata));
}

#[test]
fn control_fields() {
    let text = "Package: hello\nVersion: 2.10-3\nArchitecture: amd64\nMaintainer: Someone <a@b.c>\nDepends: libc6 (>= 2.34),  adduser ,dpkg\nDescription: example package\n more text\n";
    let m = parse_control(text).unwrap();
    assert_eq!(m.name, "hello");
    assert_eq!(m.version, "2.10-3");
    assert_eq!(m.architecture, "amd64");
    assert_eq!(m.depends, vec!["libc6 (>= 2.34)".to_string(), "adduser".to_string(), "dpkg".to_string()]);
    assert_eq!(m.description, Some("example package".to_string()));
}

#[test]
fn control_missing_field() {
    assert_eq!(parse_control("Package: hello\nArchitecture: all\n").err(), Some(RepoError::MissingMetadata));
    let m = parse_control("Package: x\nVersion: 1\nArchitecture: all").unwrap();
    assert!(m.depends.is_empty());
}

#[test]
fn splitting_and_trimming() {
    assert_eq!(split_on("a\nb\n", '\n'), vec!["a".to_string(), "b".to_string(), "".to_string()]);
    assert_eq!(split_on("", '\n'), vec!["".to_string()]);
    assert_eq!(trim_spaces("  a b  "), "a b");
    assert_eq!(trim_spaces("   "), "");
    assert_eq!(split_list("x, y ,z"), vec!["x".to_string(), "y".to_string(), "z".to_string()]);
}
