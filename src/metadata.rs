//! Package metadata read from the text files inside a package: the
//! `.PKGINFO` of Arch and Alpine packages and the `control` stanza of Debian
//! packages.

use vstd::prelude::*;
use crate::fields::{
    all_values, all_values_in, first_value, first_value_in, list_items, pieces, split_list,
    split_on, views,
};
use crate::processor::RepoError;

verus! {

/// The fields of a package that the repository indexes.
#[derive(Clone, Debug)]
pub struct PackageMetadata {
    pub name: String,
    pub version: String,
    pub architecture: String,
    pub depends: Vec<String>,
    pub description: Option<String>,
}

/// Name, version, architecture, dependencies and description.
pub type MetadataModel = (Seq<char>, Seq<char>, Seq<char>, Seq<Seq<char>>, Option<Seq<char>>);

/// The view of an optional string.
pub open spec fn opt_view(o: Option<String>) -> Option<Seq<char>> {
    match o {
        Some(s) => Some(s@),
        None => None,
    }
}

impl View for PackageMetadata {
    type V = MetadataModel;

    open spec fn view(&self) -> MetadataModel {
        (
            self.name@,
            self.version@,
            self.architecture@,
            views(self.depends@),
            opt_view(self.description),
        )
    }
}

/// The metadata a `.PKGINFO` file gives: the first `pkgname`, `pkgver` and
/// `arch` lines (all three required), every `depend` line in order, and the
/// first `pkgdesc` line, each written `key = value`.
pub open spec fn pkginfo_metadata(text: Seq<char>) -> Option<MetadataModel> {
    let ls = pieces(text, '\n');
    let sep = " = "@;
    match (
        first_value(ls, "pkgname"@, sep),
        first_value(ls, "pkgver"@, sep),
        first_value(ls, "arch"@, sep),
    ) {
        (Some(n), Some(v), Some(a)) => Some(
            (n, v, a, all_values(ls, "depend"@, sep), first_value(ls, "pkgdesc"@, sep)),
        ),
        _ => None,
    }
}

/// The metadata a Debian `control` stanza gives: the first `Package`,
/// `Version` and `Architecture` fields (all three required), the items of the
/// comma-separated `Depends` field, and the first line of `Description`, each
/// written `Key: value`.
pub open spec fn control_metadata(text: Seq<char>) -> Option<MetadataModel> {
    let ls = pieces(text, '\n');
    let sep = ": "@;
    match (
        first_value(ls, "Package"@, sep),
        first_value(ls, "Version"@, sep),
        first_value(ls, "Architecture"@, sep),
    ) {
        (Some(n), Some(v), Some(a)) => Some(
            (
                n,
                v,
                a,
                match first_value(ls, "Depends"@, sep) {
                    Some(d) => list_items(d),
                    None => Seq::empty(),
                },
                first_value(ls, "Description"@, sep),
            ),
        ),
        _ => None,
    }
}

/// Reads the metadata of an Arch or Alpine package from its `.PKGINFO`;
/// fails with `MissingMetadata` where the name, version or architecture is
/// absent.
pub fn parse_pkginfo(text: &str) -> (r: Result<PackageMetadata, RepoError>)
    ensures
        match pkginfo_metadata(text@) {
            Some(m) => r matches Ok(p) && p@ == m,
            None => r matches Err(e) && e == RepoError::MissingMetadata,
        },
{
    let lines = split_on(text, '\n');
    let name = first_value_in(&lines, "pkgname", " = ");
    let version = first_value_in(&lines, "pkgver", " = ");
    let architecture = first_value_in(&lines, "arch", " = ");
    match (name, version, architecture) {
        (Some(name), Some(version), Some(architecture)) => {
            let depends = all_values_in(&lines, "depend", " = ");
            let description = first_value_in(&lines, "pkgdesc", " = ");
            Ok(PackageMetadata { name, version, architecture, depends, description })
        },
        _ => Err(RepoError::MissingMetadata),
    }
}

/// Reads the metadata of a Debian package from its `control` stanza; fails
/// with `MissingMetadata` where the package name, version or architecture is
/// absent.
pub fn parse_control(text: &str) -> (r: Result<PackageMetadata, RepoError>)
    ensures
        match control_metadata(text@) {
            Some(m) => r matches Ok(p) && p@ == m,
            None => r matches Err(e) && e == RepoError::MissingMetadata,
        },
{
    let lines = split_on(text, '\n');
    let name = first_value_in(&lines, "Package", ": ");
    let version = first_value_in(&lines, "Version", ": ");
    let architecture = first_value_in(&lines, "Architecture", ": ");
    match (name, version, architecture) {
        (Some(name), Some(version), Some(architecture)) => {
            let depends = match first_value_in(&lines, "Depends", ": ") {
                Some(d) => split_list(d.as_str()),
                None => {
                    let empty: Vec<String> = Vec::new();
                    assert(views(empty@) =~= Seq::<Seq<char>>::empty());
                    empty
                },
            };
            let description = first_value_in(&lines, "Description", ": ");
            Ok(PackageMetadata { name, version, architecture, depends, description })
        },
        _ => Err(RepoError::MissingMetadata),
    }
}

} // verus!
