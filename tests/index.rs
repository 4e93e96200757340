use pkgrepo::index::{
    apk_entry, arch_entry, deb_entry, escape_xml, index_entries, index_text, join_with,
    primary_xml, rpm_entry, to_decimal, PackageRecord,
};
use pkgrepo::order::{record_le_exec, sort_records, text_le_exec};
use pkgrepo::processor::PackageType;

fn record(t: PackageType, name: &str, version: &str, depends: &[&str], description: Option<&str>) -> PackageRecord {
    PackageRecord {
        pkg_type: t,
        name: name.to_string(),
        version: version.to_string(),
        architecture: "amd64".to_string(),
        checksum: "ab12".to_string(),
        size: 1234,
        depends: depends.iter().map(|d| d.to_string()).collect(),
        description: description.map(|d| d.to_string()),
        key: format!("blobs/{}/{}-{}", t.as_str(), name, version),
    }
}

#[test]
fn decimal_digits() {
    assert_eq!(to_decimal(0), "0");
    assert_eq!(to_decimal(7), "7");
    assert_eq!(to_decimal(10), "10");
    assert_eq!(to_decimal(1234), "1234");
    assert_eq!(to_decimal(u64::MAX), "18446744073709551615");
}

#[test]
fn joining() {
    assert_eq!(join_with(&vec![], ", "), "");
    assert_eq!(join_with(&vec!["a".to_string()], ", "), "a");
    assert_eq!(join_with(&vec!["a".to_string(), "b".to_string(), "c".to_string()], ", "), "a, b, c");
}

#[test]
fn deb_stanza_text() {
    let r = record(PackageType::Deb, "hello", "1.0", &["libc6", "bash"], Some("greets"));
    assert_eq!(
        deb_entry(&r),
        "Package: hello\nVersion: 1.0\nArchitecture: amd64\nDepends: libc6, bash\nFilename: blobs/deb/hello-1.0\nSize: 1234\nSHA256: ab12\nDescription: greets\n\n"
    );
    let bare = record(PackageType::Deb, "x", "2", &[], None);
    assert_eq!(
        deb_entry(&bare),
        "Package: x\nVersion: 2\nArchitecture: amd64\nFilename: blobs/deb/x-2\nSize: 1234\nSHA256: ab12\n\n"
    );
}

#[test]
fn apk_block_text() {
    let r = record(PackageType::Alpine, "musl", "1.2-r0", &["so:libc"], Some("C library"));
    assert_eq!(
        apk_entry(&r),
        "C:ab12\nP:musl\nV:1.2-r0\nA:amd64\nS:1234\nD:so:libc\nT:C library\n\n"
    );
}

#[test]
fn arch_desc_text() {
    let r = record(PackageType::Arch, "zsh", "5.9-1", &["pcre", "gdbm"], None);
    assert_eq!(
        arch_entry(&r),
        "%FILENAME%\nblobs/arch/zsh-5.9-1\n\n%NAME%\nzsh\n\n%VERSION%\n5.9-1\n\n%ARCH%\namd64\n\n%CSIZE%\n1234\n\n%SHA256SUM%\nab12\n\n%DEPENDS%\npcre\ngdbm\n\n"
    );
}

#[test]
fn rpm_package_text() {
    let r = record(PackageType::Rpm, "a&b", "1", &["c<d"], Some("x \"y\""));
    assert_eq!(
        rpm_entry(&r),
        "<package type=\"rpm\">\n  <name>a&amp;b</name>\n  <arch>amd64</arch>\n  <version ver=\"1\"/>\n  <checksum type=\"sha256\" pkgid=\"YES\">ab12</checksum>\n  <summary>x &quot;y&quot;</summary>\n  <size package=\"1234\"/>\n  <location href=\"blobs/rpm/a&amp;b-1\"/>\n  <format>\n    <rpm:requires>\n      <rpm:entry name=\"c&lt;d\"/>\n    </rpm:requires>\n  </format>\n</package>\n"
    );
    assert_eq!(escape_xml("<a>&\"b\""), "&lt;a&gt;&amp;&quot;b&quot;");
}

#[test]
fn ordering() {
    assert!(text_le_exec("", "a"));
    assert!(text_le_exec("ab", "abc"));
    assert!(!text_le_exec("b", "abc"));
    assert!(text_le_exec("same", "same"));
    let a = record(PackageType::Deb, "a", "2", &[], None);
    let b = record(PackageType::Deb, "a", "10", &[], None);
    assert!(record_le_exec(&b, &a));
    assert!(!record_le_exec(&a, &b));
}

#[test]
fn sorting_by_name_then_version() {
    let rs = vec![
        record(PackageType::Deb, "zeta", "1", &[], None),
        record(PackageType::Deb, "alpha", "2", &[], None),
        record(PackageType::Deb, "alpha", "1", &[], None),
        record(PackageType::Deb, "mid", "0", &[], None),
    ];
    let sorted = sort_records(rs);
    let keys: Vec<(String, String)> = sorted.iter().map(|r| (r.name.clone(), r.version.clone())).collect();
    assert_eq!(
        keys,
        vec![
            ("alpha".to_string(), "1".to_string()),
            ("alpha".to_string(), "2".to_string()),
            ("mid".to_string(), "0".to_string()),
            ("zeta".to_string(), "1".to_string()),
        ]
    );
    assert!(sort_records(vec![]).is_empty());
}

#[test]
fn index_lists_every_record_whatever_the_order() {
    let a = record(PackageType::Alpine, "a", "1", &[], None);
    let b = record(PackageType::Alpine, "b", "1", &[], None);
    let one = index_text(PackageType::Alpine, vec![a.clone(), b.clone()]);
    let two = index_text(PackageType::Alpine, vec![b, a]);
    assert_eq!(one, two);
    assert_eq!(one, "C:ab12\nP:a\nV:1\nA:amd64\nS:1234\n\nC:ab12\nP:b\nV:1\nA:amd64\nS:1234\n\n");
}

#[test]
fn entries_keep_given_order() {
    let a = record(PackageType::Deb, "b", "1", &[], None);
    let b = record(PackageType::Deb, "a", "1", &[], None);
    let s = index_entries(PackageType::Deb, &vec![a, b]);
    assert!(s.find("Package: b").unwrap() < s.find("Package: a").unwrap());
}

#[test]
fn primary_xml_document() {
    let x = primary_xml(vec![record(PackageType::Rpm, "p", "1", &[], None)]);
    assert!(x.starts_with("<?xml version=\"1.0\" encoding=\"UTF-8\"?>\n<metadata xmlns=\"http://linux.duke.edu/metadata/common\" xmlns:rpm=\"http://linux.duke.edu/metadata/rpm\" packages=\"1\">\n<package type=\"rpm\">\n  <name>p</name>"));
    assert!(x.ends_with("</package>\n</metadata>\n"));
    let empty = primary_xml(vec![]);
    assert!(empty.ends_with("packages=\"0\">\n</metadata>\n"));
}
