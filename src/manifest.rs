use crate::version::{version_text_of, Version, VersionModel, parsed_model, semver_parse};
use vstd::prelude::*;

verus! {

/// The identity of a package: its name and exact version.
#[derive(Clone, Debug)]
pub struct PackageId {
    pub name: String,
    pub version: Version,
}

pub struct PackageIdModel {
    pub name: Seq<char>,
    pub version: VersionModel,
}

impl View for PackageId {
    type V = PackageIdModel;

    open spec fn view(&self) -> PackageIdModel {
        PackageIdModel { name: self.name@, version: self.version@ }
    }
}

/// The name of the vendor directory that holds a package: `{name}-{version}`.
pub open spec fn vendor_dir_of(id: PackageIdModel) -> Seq<char> {
    id.name + seq!['-'] + version_text_of(id.version)
}

impl PackageId {
    pub fn new(name: String, version: Version) -> (r: PackageId)
        ensures
            r.name == name,
            r.version == version,
    {
        PackageId { name, version }
    }

    /// A copy of the identity.
    pub fn copy(&self) -> (r: PackageId)
        ensures
            r@ == self@,
    {
        PackageId { name: self.name.clone(), version: self.version.copy() }
    }

    /// Whether two identities name the same package at the same version.
    pub fn same_as(&self, other: &PackageId) -> (r: bool)
        ensures
            r == (self@ == other@),
    {
        self.name == other.name && self.version.same_as(&other.version)
    }

    /// The name of the vendor directory that holds this package.
    pub fn vendor_dir(&self) -> (r: String)
        ensures
            r@ == vendor_dir_of(self@),
    {
        proof {
            reveal_strlit("-");
        }
        let mut r = self.name.clone();
        r.append("-");
        let v = self.version.text();
        r.append(v.as_str());
        r
    }
}

/// What a manifest text holds as the string value of `key` in its
/// `[package]` table, as the `toml` crate parses it; `None` where the text
/// is not a TOML table, has no `package` table, or no string under `key`.
pub uninterp spec fn toml_package_str(text: Seq<char>, key: Seq<char>) -> Option<Seq<char>>;

/// Relies on `toml::Table`'s `FromStr` and on its `get`, `as_table` and
/// `as_str` lookups: a string read at `package.<key>`.
#[verifier::external_body]
fn package_str(text: &str, key: &str) -> (r: Option<String>)
    ensures
        match toml_package_str(text@, key@) {
            Some(s) => r.is_some() && r.unwrap()@ == s,
            None => r.is_none(),
        },
{
    let table = text.parse::<toml::Table>().ok()?;
    let package = table.get("package")?.as_table()?;
    package.get(key)?.as_str().map(|s| s.to_string())
}

/// The identity that a manifest text declares, read best-effort: the
/// `package.name` string and the `package.version` string parsed as a
/// semantic version.
pub open spec fn manifest_identity(text: Seq<char>) -> Option<PackageIdModel> {
    match (toml_package_str(text, "name"@), toml_package_str(text, "version"@)) {
        (Some(n), Some(v)) => match semver_parse(v) {
            Some(p) => Some(PackageIdModel { name: n, version: parsed_model(p) }),
            None => None,
        },
        _ => None,
    }
}

/// Reads the package name and version out of a manifest text; `None`
/// where either is missing or the version does not parse.
pub fn package_id_from_manifest(text: &str) -> (r: Option<PackageId>)
    ensures
        match manifest_identity(text@) {
            Some(m) => r.is_some() && r.unwrap()@ == m,
            None => r.is_none(),
        },
{
    let name = package_str(text, "name");
    let version = package_str(text, "version");
    proof {
        reveal_strlit("name");
        reveal_strlit("version");
    }
    match (name, version) {
        (Some(n), Some(v)) => match Version::parse(v.as_str()) {
            Some(ver) => Some(PackageId { name: n, version: ver }),
            None => None,
        },
        _ => None,
    }
}

} // verus!
