//! The text of the per-ecosystem index entries: Debian `Packages` stanzas,
//! Alpine `APKINDEX` blocks and Arch `desc` records, built from package
//! records.

use vstd::prelude::*;
use crate::fields::views;
use crate::order::{sort_records, sorted};
use crate::processor::PackageType;

verus! {

/// A package held by the repository, as its index lists it.
#[derive(Clone, Debug)]
pub struct PackageRecord {
    pub pkg_type: PackageType,
    pub name: String,
    pub version: String,
    pub architecture: String,
    /// The sha256 of the whole blob, in lowercase hex.
    pub checksum: String,
    /// The length of the whole blob in bytes.
    pub size: u64,
    pub depends: Vec<String>,
    pub description: Option<String>,
    /// The storage key of the blob.
    pub key: String,
}

/// The decimal digit for `d`.
pub open spec fn digit_char(d: nat) -> char {
    if d < 10 {
        (d + 48) as char
    } else {
        '?'
    }
}

/// The decimal digits of `n`, without leading zeros (`0` for zero).
pub open spec fn decimal(n: nat) -> Seq<char>
    decreases n,
{
    if n < 10 {
        seq![digit_char(n)]
    } else {
        decimal(n / 10).push(digit_char(n % 10))
    }
}

/// The decimal digits of `n`.
pub fn to_decimal(n: u64) -> (r: String)
    ensures
        r@ == decimal(n as nat),
{
    // digits are gathered lowest first
    let mut digits: Vec<u64> = Vec::new();
    let mut m: u64 = n;
    let ghost low: Seq<char> = Seq::empty();
    assert(decimal(n as nat) =~= decimal(m as nat) + low.reverse());
    loop
        invariant_except_break
            m > 0 || (n == 0 && low.len() == 0),
            decimal(n as nat) == decimal(m as nat) + low.reverse(),
        invariant
            m <= n,
            digits@.len() == low.len(),
            forall|k: int| 0 <= k < digits@.len() ==> digits@[k] < 10 && low[k] == digit_char(
                #[trigger] digits@[k] as nat,
            ),
        ensures
            decimal(n as nat) == low.reverse(),
        decreases m,
    {
        let d: u64 = m % 10;
        let ghost c = digit_char(d as nat);
        let ghost before = low;
        digits.push(d);
        proof {
            low = low.push(c);
            assert(low.reverse() =~= seq![c] + before.reverse());
            if m >= 10 {
                assert(decimal(m as nat) == decimal((m / 10) as nat).push(c));
                assert(decimal((m / 10) as nat) + low.reverse() =~= decimal((m / 10) as nat).push(c)
                    + before.reverse());
            } else {
                assert(decimal(m as nat) == seq![c]);
                assert(low.reverse() =~= seq![c] + before.reverse());
            }
        }
        m = m / 10;
        if m == 0 {
            break;
        }
    }
    let mut s = String::new();
    let mut i: usize = digits.len();
    while i > 0
        invariant
            i <= digits@.len(),
            digits@.len() == low.len(),
            forall|k: int| 0 <= k < digits@.len() ==> digits@[k] < 10 && low[k] == digit_char(
                #[trigger] digits@[k] as nat,
            ),
            s@ == low.reverse().take(low.len() - i),
        decreases i,
    {
        i = i - 1;
        s.append(digit_str(digits[i]));
        assert(s@ =~= low.reverse().take(low.len() - i));
    }
    assert(s@ =~= low.reverse());
    s
}

/// The one-character string of a decimal digit.
fn digit_str(d: u64) -> (r: &'static str)
    requires
        d < 10,
    ensures
        r@ == seq![digit_char(d as nat)],
{
    proof {
        reveal_strlit("0");
        reveal_strlit("1");
        reveal_strlit("2");
        reveal_strlit("3");
        reveal_strlit("4");
        reveal_strlit("5");
        reveal_strlit("6");
        reveal_strlit("7");
        reveal_strlit("8");
        reveal_strlit("9");
    }
    let r = match d {
        0 => "0",
        1 => "1",
        2 => "2",
        3 => "3",
        4 => "4",
        5 => "5",
        6 => "6",
        7 => "7",
        8 => "8",
        _ => "9",
    };
    assert(r@ =~= seq![digit_char(d as nat)]);
    r
}

/// The items joined with `sep` between each two.
pub open spec fn join(items: Seq<Seq<char>>, sep: Seq<char>) -> Seq<char>
    decreases items.len(),
{
    if items.len() == 0 {
        Seq::empty()
    } else if items.len() == 1 {
        items[0]
    } else {
        join(items.drop_last(), sep) + sep + items.last()
    }
}

/// Joins the items with `sep` between each two.
pub fn join_with(items: &Vec<String>, sep: &str) -> (r: String)
    ensures
        r@ == join(views(items@), sep@),
{
    let ghost v = views(items@);
    let mut out = String::new();
    let mut i: usize = 0;
    assert(v.take(0) =~= Seq::<Seq<char>>::empty());
    while i < items.len()
        invariant
            v == views(items@),
            i <= items@.len(),
            out@ == join(v.take(i as int), sep@),
        decreases items@.len() - i,
    {
        assert(v.take(i + 1).drop_last() =~= v.take(i as int));
        assert(v.take(i + 1).last() == items@[i as int]@);
        if i > 0 {
            out.append(sep);
        } else {
            assert(v.take(1) =~= seq![items@[0]@]);
        }
        out.append(items[i].as_str());
        i = i + 1;
    }
    assert(v.take(i as int) =~= v);
    out
}

/// A line `<label><items joined by sep><end>`, or nothing where there are no
/// items.
pub open spec fn list_line(label: Seq<char>, items: Seq<Seq<char>>, sep: Seq<char>, end: Seq<char>) -> Seq<char> {
    if items.len() > 0 {
        label + join(items, sep) + end
    } else {
        Seq::empty()
    }
}

/// A line `<label><value><end>`, or nothing where there is no value.
pub open spec fn opt_line(label: Seq<char>, value: Option<Seq<char>>, end: Seq<char>) -> Seq<char> {
    match value {
        Some(v) => label + v + end,
        None => Seq::empty(),
    }
}

/// Appends `<label><items joined by sep><end>` where there are items.
fn append_list_line(out: &mut String, label: &str, items: &Vec<String>, sep: &str, end: &str)
    ensures
        final(out)@ == old(out)@ + list_line(label@, views(items@), sep@, end@),
{
    if items.len() > 0 {
        let joined = join_with(items, sep);
        out.append(label);
        out.append(joined.as_str());
        out.append(end);
    } else {
        assert(old(out)@ + Seq::<char>::empty() =~= old(out)@);
    }
}

/// Appends `<label><value><end>` where there is a value.
fn append_opt_line(out: &mut String, label: &str, value: &Option<String>, end: &str)
    ensures
        final(out)@ == old(out)@ + opt_line(label@, crate::metadata::opt_view(*value), end@),
{
    match value {
        Some(v) => {
            out.append(label);
            out.append(v.as_str());
            out.append(end);
        },
        None => {
            assert(old(out)@ + Seq::<char>::empty() =~= old(out)@);
        },
    }
}

/// The `Packages` stanza of a Debian package, ended by an empty line.
pub open spec fn deb_stanza(r: PackageRecord) -> Seq<char> {
    "Package: "@ + r.name@ + "\nVersion: "@ + r.version@ + "\nArchitecture: "@ + r.architecture@
        + "\n"@ + list_line("Depends: "@, views(r.depends@), ", "@, "\n"@) + "Filename: "@
        + r.key@ + "\nSize: "@ + decimal(r.size as nat) + "\nSHA256: "@ + r.checksum@ + "\n"@
        + opt_line("Description: "@, crate::metadata::opt_view(r.description), "\n"@) + "\n"@
}

/// The `APKINDEX` block of an Alpine package, ended by an empty line.
pub open spec fn apk_block(r: PackageRecord) -> Seq<char> {
    "C:"@ + r.checksum@ + "\nP:"@ + r.name@ + "\nV:"@ + r.version@ + "\nA:"@ + r.architecture@
        + "\nS:"@ + decimal(r.size as nat) + "\n"@ + list_line("D:"@, views(r.depends@), " "@, "\n"@)
        + opt_line("T:"@, crate::metadata::opt_view(r.description), "\n"@) + "\n"@
}

/// The `desc` record of an Arch package: `%FIELD%` headers, each followed by
/// its value lines and an empty line.
pub open spec fn arch_desc(r: PackageRecord) -> Seq<char> {
    "%FILENAME%\n"@ + r.key@ + "\n\n%NAME%\n"@ + r.name@ + "\n\n%VERSION%\n"@ + r.version@
        + "\n\n%ARCH%\n"@ + r.architecture@ + "\n\n%CSIZE%\n"@ + decimal(r.size as nat)
        + "\n\n%SHA256SUM%\n"@ + r.checksum@ + "\n\n"@ + list_line(
        "%DEPENDS%\n"@,
        views(r.depends@),
        "\n"@,
        "\n\n"@,
    ) + opt_line("%DESC%\n"@, crate::metadata::opt_view(r.description), "\n\n"@)
}

/// The `Packages` stanza of a Debian package.
pub fn deb_entry(r: &PackageRecord) -> (s: String)
    ensures
        s@ == deb_stanza(*r),
{
    let mut s = String::from_str("Package: ");
    s.append(r.name.as_str());
    s.append("\nVersion: ");
    s.append(r.version.as_str());
    s.append("\nArchitecture: ");
    s.append(r.architecture.as_str());
    s.append("\n");
    append_list_line(&mut s, "Depends: ", &r.depends, ", ", "\n");
    s.append("Filename: ");
    s.append(r.key.as_str());
    s.append("\nSize: ");
    let size = to_decimal(r.size);
    s.append(size.as_str());
    s.append("\nSHA256: ");
    s.append(r.checksum.as_str());
    s.append("\n");
    append_opt_line(&mut s, "Description: ", &r.description, "\n");
    s.append("\n");
    s
}

/// The `APKINDEX` block of an Alpine package.
pub fn apk_entry(r: &PackageRecord) -> (s: String)
    ensures
        s@ == apk_block(*r),
{
    let mut s = String::from_str("C:");
    s.append(r.checksum.as_str());
    s.append("\nP:");
    s.append(r.name.as_str());
    s.append("\nV:");
    s.append(r.version.as_str());
    s.append("\nA:");
    s.append(r.architecture.as_str());
    s.append("\nS:");
    let size = to_decimal(r.size);
    s.append(size.as_str());
    s.append("\n");
    append_list_line(&mut s, "D:", &r.depends, " ", "\n");
    append_opt_line(&mut s, "T:", &r.description, "\n");
    s.append("\n");
    s
}

/// The `desc` record of an Arch package.
pub fn arch_entry(r: &PackageRecord) -> (s: String)
    ensures
        s@ == arch_desc(*r),
{
    let mut s = String::from_str("%FILENAME%\n");
    s.append(r.key.as_str());
    s.append("\n\n%NAME%\n");
    s.append(r.name.as_str());
    s.append("\n\n%VERSION%\n");
    s.append(r.version.as_str());
    s.append("\n\n%ARCH%\n");
    s.append(r.architecture.as_str());
    s.append("\n\n%CSIZE%\n");
    let size = to_decimal(r.size);
    s.append(size.as_str());
    s.append("\n\n%SHA256SUM%\n");
    s.append(r.checksum.as_str());
    s.append("\n\n");
    append_list_line(&mut s, "%DEPENDS%\n", &r.depends, "\n", "\n\n");
    append_opt_line(&mut s, "%DESC%\n", &r.description, "\n\n");
    s
}

/// `c` as XML character data or attribute text.
pub open spec fn escape_char(c: char) -> Seq<char> {
    if c == '&' {
        "&amp;"@
    } else if c == '<' {
        "&lt;"@
    } else if c == '>' {
        "&gt;"@
    } else if c == '"' {
        "&quot;"@
    } else {
        seq![c]
    }
}

/// `s` with each character escaped for XML.
pub open spec fn xml_escape(s: Seq<char>) -> Seq<char>
    decreases s.len(),
{
    if s.len() == 0 {
        Seq::empty()
    } else {
        xml_escape(s.drop_last()) + escape_char(s.last())
    }
}

/// Escapes `s` for XML character data and attribute values.
pub fn escape_xml(s: &str) -> (r: String)
    ensures
        r@ == xml_escape(s@),
{
    let n = s.unicode_len();
    let mut out = String::new();
    let mut i: usize = 0;
    assert(s@.take(0) =~= Seq::<char>::empty());
    while i < n
        invariant
            n == s@.len(),
            i <= n,
            out@ == xml_escape(s@.take(i as int)),
        decreases n - i,
    {
        let c = s.get_char(i);
        assert(s@.take(i + 1).drop_last() =~= s@.take(i as int));
        if c == '&' {
            out.append("&amp;");
        } else if c == '<' {
            out.append("&lt;");
        } else if c == '>' {
            out.append("&gt;");
        } else if c == '"' {
            out.append("&quot;");
        } else {
            let one = s.substring_char(i, i + 1);
            assert(one@ =~= seq![c]);
            out.append(one);
        }
        i = i + 1;
    }
    assert(s@.take(n as int) =~= s@);
    out
}

/// The `rpm:entry` lines naming each dependency.
pub open spec fn rpm_requires(deps: Seq<Seq<char>>) -> Seq<char>
    decreases deps.len(),
{
    if deps.len() == 0 {
        Seq::empty()
    } else {
        rpm_requires(deps.drop_last()) + "      <rpm:entry name=\""@ + xml_escape(deps.last())
            + "\"/>\n"@
    }
}

/// The `<format>` block of a package with dependencies, or nothing.
pub open spec fn rpm_format(deps: Seq<Seq<char>>) -> Seq<char> {
    if deps.len() > 0 {
        "  <format>\n    <rpm:requires>\n"@ + rpm_requires(deps) + "    </rpm:requires>\n  </format>\n"@
    } else {
        Seq::empty()
    }
}

/// The `<package>` element of an RPM package in `primary.xml`.
pub open spec fn rpm_package(r: PackageRecord) -> Seq<char> {
    "<package type=\"rpm\">\n  <name>"@ + xml_escape(r.name@) + "</name>\n  <arch>"@ + xml_escape(
        r.architecture@,
    ) + "</arch>\n  <version ver=\""@ + xml_escape(r.version@)
        + "\"/>\n  <checksum type=\"sha256\" pkgid=\"YES\">"@ + xml_escape(r.checksum@)
        + "</checksum>\n"@ + opt_line(
        "  <summary>"@,
        match r.description {
            Some(d) => Some(xml_escape(d@)),
            None => None,
        },
        "</summary>\n"@,
    ) + "  <size package=\""@ + decimal(r.size as nat) + "\"/>\n  <location href=\""@
        + xml_escape(r.key@) + "\"/>\n"@ + rpm_format(views(r.depends@)) + "</package>\n"@
}

/// The `<package>` element of an RPM package.
pub fn rpm_entry(r: &PackageRecord) -> (s: String)
    ensures
        s@ == rpm_package(*r),
{
    let mut s = String::from_str("<package type=\"rpm\">\n  <name>");
    let t = escape_xml(r.name.as_str());
    s.append(t.as_str());
    s.append("</name>\n  <arch>");
    let t = escape_xml(r.architecture.as_str());
    s.append(t.as_str());
    s.append("</arch>\n  <version ver=\"");
    let t = escape_xml(r.version.as_str());
    s.append(t.as_str());
    s.append("\"/>\n  <checksum type=\"sha256\" pkgid=\"YES\">");
    let t = escape_xml(r.checksum.as_str());
    s.append(t.as_str());
    s.append("</checksum>\n");
    let summary = match &r.description {
        Some(d) => Some(escape_xml(d.as_str())),
        None => None,
    };
    append_opt_line(&mut s, "  <summary>", &summary, "</summary>\n");
    s.append("  <size package=\"");
    let t = to_decimal(r.size);
    s.append(t.as_str());
    s.append("\"/>\n  <location href=\"");
    let t = escape_xml(r.key.as_str());
    s.append(t.as_str());
    s.append("\"/>\n");
    if r.depends.len() > 0 {
        s.append("  <format>\n    <rpm:requires>\n");
        let ghost deps = views(r.depends@);
        let ghost start = s@;
        let mut i: usize = 0;
        assert(deps.take(0) =~= Seq::<Seq<char>>::empty());
        while i < r.depends.len()
            invariant
                deps == views(r.depends@),
                i <= r.depends@.len(),
                s@ == start + rpm_requires(deps.take(i as int)),
            decreases r.depends@.len() - i,
        {
            assert(deps.take(i + 1).drop_last() =~= deps.take(i as int));
            assert(deps.take(i + 1).last() == r.depends@[i as int]@);
            s.append("      <rpm:entry name=\"");
            let t = escape_xml(r.depends[i].as_str());
            s.append(t.as_str());
            s.append("\"/>\n");
            i = i + 1;
        }
        assert(deps.take(i as int) =~= deps);
        s.append("    </rpm:requires>\n  </format>\n");
    }
    s.append("</package>\n");
    s
}

/// The index entry of `r` in the index format of `t`.
pub open spec fn entry_text(t: PackageType, r: PackageRecord) -> Seq<char> {
    match t {
        PackageType::Deb => deb_stanza(r),
        PackageType::Rpm => rpm_package(r),
        PackageType::Arch => arch_desc(r),
        PackageType::Alpine => apk_block(r),
    }
}

/// The index entries of `rs`, one after another in their order.
pub open spec fn entries_text(t: PackageType, rs: Seq<PackageRecord>) -> Seq<char>
    decreases rs.len(),
{
    if rs.len() == 0 {
        Seq::empty()
    } else {
        entries_text(t, rs.drop_last()) + entry_text(t, rs.last())
    }
}

/// The index entry of `r` in the index format of `t`.
pub fn index_entry(t: PackageType, r: &PackageRecord) -> (s: String)
    ensures
        s@ == entry_text(t, *r),
{
    match t {
        PackageType::Deb => deb_entry(r),
        PackageType::Rpm => rpm_entry(r),
        PackageType::Arch => arch_entry(r),
        PackageType::Alpine => apk_entry(r),
    }
}

/// The index entries of `records`, in their order, in the format of `t`.
pub fn index_entries(t: PackageType, records: &Vec<PackageRecord>) -> (s: String)
    ensures
        s@ == entries_text(t, records@),
{
    let mut s = String::new();
    let mut i: usize = 0;
    assert(records@.take(0) =~= Seq::<PackageRecord>::empty());
    while i < records.len()
        invariant
            i <= records@.len(),
            s@ == entries_text(t, records@.take(i as int)),
        decreases records@.len() - i,
    {
        assert(records@.take(i + 1).drop_last() =~= records@.take(i as int));
        let e = index_entry(t, &records[i]);
        s.append(e.as_str());
        i = i + 1;
    }
    assert(records@.take(i as int) =~= records@);
    s
}

/// The index entries of `records` for type `t`, listed by name and then
/// version.
pub fn index_text(t: PackageType, records: Vec<PackageRecord>) -> (s: String)
    ensures
        exists|rs: Seq<PackageRecord>|
            sorted(rs) && rs.to_multiset() == records@.to_multiset() && s@ == entries_text(t, rs),
{
    let ordered = sort_records(records);
    let s = index_entries(t, &ordered);
    assert(sorted(ordered@) && s@ == entries_text(t, ordered@));
    s
}

/// The opening of `primary.xml` for `n` packages.
pub open spec fn primary_head(n: nat) -> Seq<char> {
    "<?xml version=\"1.0\" encoding=\"UTF-8\"?>\n<metadata xmlns=\"http://linux.duke.edu/metadata/common\" xmlns:rpm=\"http://linux.duke.edu/metadata/rpm\" packages=\""@
        + decimal(n) + "\">\n"@
}

/// `primary.xml` of an RPM repository: one `<package>` element per record,
/// listed by name and then version, inside `<metadata>`.
pub fn primary_xml(records: Vec<PackageRecord>) -> (s: String)
    ensures
        exists|rs: Seq<PackageRecord>|
            sorted(rs) && rs.to_multiset() == records@.to_multiset() && s@ == primary_head(
                records@.len(),
            ) + entries_text(PackageType::Rpm, rs) + "</metadata>\n"@,
{
    let n = to_decimal(records.len() as u64);
    let mut s = String::from_str(
        "<?xml version=\"1.0\" encoding=\"UTF-8\"?>\n<metadata xmlns=\"http://linux.duke.edu/metadata/common\" xmlns:rpm=\"http://linux.duke.edu/metadata/rpm\" packages=\"",
    );
    s.append(n.as_str());
    s.append("\">\n");
    let ordered = sort_records(records);
    let body = index_entries(PackageType::Rpm, &ordered);
    s.append(body.as_str());
    s.append("</metadata>\n");
    assert(sorted(ordered@) && ordered@.to_multiset() == records@.to_multiset());
    s
}

} // verus!
