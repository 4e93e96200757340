use pkgrepo::processor::RepoError;
use pkgrepo::rpm::parse_rpm;

fn header(entries: &[(u32, &str)]) -> Vec<u8> {
    let mut index = Vec::new();
    let mut store = Vec::new();
    for (tag, value) in entries {
        // a value with `|` stands for a string array
        let parts: Vec<&str> = value.split('|').collect();
        let kind: u32 = if parts.len() > 1 { 8 } else { 6 };
        index.extend_from_slice(&tag.to_be_bytes());
        index.extend_from_slice(&kind.to_be_bytes());
        index.extend_from_slice(&(store.len() as u32).to_be_bytes());
        index.extend_from_slice(&(parts.len() as u32).to_be_bytes());
        for part in parts {
            store.extend_from_slice(part.as_bytes());
            store.push(0);
        }
    }
    let mut h = vec![0x8e, 0xad, 0xe8, 0x01, 0, 0, 0, 0];
    h.extend_from_slice(&(entries.len() as u32).to_be_bytes());
    h.extend_from_slice(&(store.len() as u32).to_be_bytes());
    h.extend(index);
    h.extend(store);
    h
}

fn package(main: &[(u32, &str)]) -> Vec<u8> {
    let mut b = vec![0u8; 96];
    b[..4].copy_from_slice(&[0xed, 0xab, 0xee, 0xdb]);
    b.extend(header(&[(268, "sig")]));
    while b.len() % 8 != 0 {
        b.push(0);
    }
    b.extend(header(main));
    b
}

#[test]
fn reads_name_version_release_arch() {
    let b = package(&[(1000, "hello"), (1001, "2.12"), (1002, "1.fc39"), (1004, "Prints a greeting"), (1022, "x86_64")]);
    let m = parse_rpm(&b).unwrap();
    assert_eq!(m.name, "hello");
    assert_eq!(m.version, "2.12-1.fc39");
    assert_eq!(m.architecture, "x86_64");
    assert_eq!(m.description, Some("Prints a greeting".to_string()));
    assert!(m.depends.is_empty());
}

#[test]
fn summary_is_optional() {
    let b = package(&[(1022, "noarch"), (1000, "x"), (1001, "1"), (1002, "0")]);
    let m = parse_rpm(&b).unwrap();
    assert_eq!(m.architecture, "noarch");
    assert_eq!(m.description, None);
}

#[test]
fn missing_tag_is_missing_metadata() {
    let b = package(&[(1000, "x"), (1001, "1"), (1022, "noarch")]);
    assert_eq!(parse_rpm(&b).err(), Some(RepoError::MissingMetadata));
}

#[test]
fn bad_lead_or_truncation_is_corrupt() {
    let mut b = package(&[(1000, "x"), (1001, "1"), (1002, "0"), (1022, "noarch")]);
    let good = b.clone();
    b[0] = 0;
    assert_eq!(parse_rpm(&b).err(), Some(RepoError::CorruptPackage));
    assert_eq!(parse_rpm(&good[..good.len() - 3]).err(), Some(RepoError::CorruptPackage));
    assert_eq!(parse_rpm(&good[..50]).err(), Some(RepoError::CorruptPackage));
}

#[test]
fn invalid_utf8_is_corrupt() {
    let mut b = package(&[(1000, "x"), (1001, "1"), (1002, "0"), (1022, "noarch")]);
    let pos = b.len() - 2 - "noarch".len() + 1;
    b[pos] = 0xff;
    assert_eq!(parse_rpm(&b).err(), Some(RepoError::CorruptPackage));
}

#[test]
fn reads_required_capabilities() {
    let b = package(&[(1000, "x"), (1001, "1"), (1002, "0"), (1022, "noarch"), (1049, "bash|libc.so.6()(64bit)")]);
    let m = parse_rpm(&b).unwrap();
    assert_eq!(m.depends, vec!["bash".to_string(), "libc.so.6()(64bit)".to_string()]);
}

#[test]
fn string_array_past_the_store_is_corrupt() {
    let mut b = package(&[(1000, "x"), (1001, "1"), (1002, "0"), (1022, "noarch"), (1049, "bash|sh")]);
    // the last byte of the store is the NUL after `sh`; make it text
    let last = b.len() - 1;
    b[last] = b'h';
    assert_eq!(parse_rpm(&b).err(), Some(RepoError::CorruptPackage));
}
