//! Classification of uploaded package files by file name.

use vstd::prelude::*;
use crate::text::{contains, ends_with, has_infix, has_suffix};

verus! {

/// The package ecosystems the repository can host.
#[derive(Debug, Clone, Copy, PartialEq, Eq, Structural)]
pub enum PackageType {
    Deb,
    Rpm,
    Arch,
    Alpine,
}

/// What `str::to_lowercase` returns for a string: the full Unicode
/// lowercase mapping, a function of the characters alone.
pub uninterp spec fn lower_of(s: Seq<char>) -> Seq<char>;

/// Relies on `str::to_lowercase`: the result is a function of the input's
/// characters alone, and the empty string stays empty.
#[verifier::external_body]
fn lowercase(s: &str) -> (r: String)
    ensures
        r@ == lower_of(s@),
        s@.len() == 0 ==> r@.len() == 0,
{
    s.to_lowercase()
}

/// The classification rule on an already lowercased name, in priority order:
/// `.deb` suffix, `.rpm` suffix, `.pkg.tar` anywhere, `.apk` suffix.
pub open spec fn classify(s: Seq<char>) -> Option<PackageType> {
    if has_suffix(s, ".deb"@) {
        Some(PackageType::Deb)
    } else if has_suffix(s, ".rpm"@) {
        Some(PackageType::Rpm)
    } else if has_infix(s, ".pkg.tar"@) {
        Some(PackageType::Arch)
    } else if has_suffix(s, ".apk"@) {
        Some(PackageType::Alpine)
    } else {
        None
    }
}

/// Why the repository refused an upload or a rebuild.
#[derive(Debug, Clone, Copy, PartialEq, Eq, Structural)]
pub enum RepoError {
    /// The file name matches no supported package type.
    UnknownFormat,
    /// The package blob is not a well-formed container of its type.
    CorruptPackage,
    /// The package's metadata lacks a required field.
    MissingMetadata,
    /// The storage backend failed.
    StorageFailure,
    /// No signing key is loaded.
    SigningUnavailable,
    /// The named package or key does not exist.
    NotFound,
}

/// Classifies an uploaded file by name, ignoring case; a name that matches
/// no type is refused with `UnknownFormat`.
pub fn classify_upload(filename: &str) -> (r: Result<PackageType, RepoError>)
    ensures
        r is Ok <==> classify(lower_of(filename@)) is Some,
        r matches Ok(t) ==> classify(lower_of(filename@)) == Some(t),
        r matches Err(e) ==> e == RepoError::UnknownFormat,
{
    match PackageType::from_extension(filename) {
        Some(t) => Ok(t),
        None => Err(RepoError::UnknownFormat),
    }
}

impl PackageType {
    /// The short lowercase name of the type, as used in storage keys and URLs.
    pub open spec fn name_spec(self) -> Seq<char> {
        match self {
            PackageType::Deb => "deb"@,
            PackageType::Rpm => "rpm"@,
            PackageType::Arch => "arch"@,
            PackageType::Alpine => "alpine"@,
        }
    }

    /// Classifies a file name, ignoring case.
    pub fn from_extension(filename: &str) -> (r: Option<Self>)
        ensures
            r == classify(lower_of(filename@)),
    {
        let lower = lowercase(filename);
        Self::from_lowercase_name(lower.as_str())
    }

    /// Classifies a file name that is already in lowercase.
    pub fn from_lowercase_name(lower: &str) -> (r: Option<Self>)
        ensures
            r == classify(lower@),
    {
        if ends_with(lower, ".deb") {
            Some(PackageType::Deb)
        } else if ends_with(lower, ".rpm") {
            Some(PackageType::Rpm)
        } else if contains(lower, ".pkg.tar") {
            Some(PackageType::Arch)
        } else if ends_with(lower, ".apk") {
            Some(PackageType::Alpine)
        } else {
            None
        }
    }

    /// The short lowercase name of the type.
    pub fn as_str(&self) -> (r: &'static str)
        ensures
            r@ == self.name_spec(),
    {
        match self {
            PackageType::Deb => "deb",
            PackageType::Rpm => "rpm",
            PackageType::Arch => "arch",
            PackageType::Alpine => "alpine",
        }
    }

    /// The short lowercase name of the type, as an owned string.
    pub fn to_string(&self) -> (r: String)
        ensures
            r@ == self.name_spec(),
    {
        String::from_str(self.as_str())
    }
}

} // verus!
