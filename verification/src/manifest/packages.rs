//! Package requests.
use vstd::prelude::*;

use super::accounts::views;
use crate::text::{chars_of, ends_with, has_suffix, owned, push_str, string_of};

verus! {

#[derive(Debug, PartialEq, Eq)]
pub struct Package {
    pub package: String,
    pub version: Option<String>,
    pub use_flags: Vec<String>,
    pub keywords: Vec<String>,
    pub accept_licenses: Vec<String>,
    pub binary: bool,
    pub from_source: bool,
}

/// A copy of a list of strings.
pub fn copy_strings(v: &Vec<String>) -> (r: Vec<String>)
    ensures
        r@ == v@,
{
    let mut out: Vec<String> = Vec::new();
    let mut i: usize = 0;
    while i < v.len()
        invariant
            i <= v.len(),
            out@ == v@.subrange(0, i as int),
        decreases v.len() - i,
    {
        out.push(v[i].clone());
        i = i + 1;
        assert(out@ =~= v@.subrange(0, i as int));
    }
    assert(v@.subrange(0, v.len() as int) =~= v@);
    out
}

/// A copy of an optional string.
pub fn copy_opt_string(v: &Option<String>) -> (r: Option<String>)
    ensures
        r == *v,
{
    match v {
        Some(s) => Some(s.clone()),
        None => None,
    }
}

/// A vector of owned strings from an array of string slices.
pub fn strings_of<const N: usize>(items: [&str; N]) -> (r: Vec<String>)
    ensures
        views(r@) == items@.map_values(|g: &str| g@),
{
    let mut out: Vec<String> = Vec::new();
    let mut i: usize = 0;
    while i < N
        invariant
            i <= N,
            N == items@.len(),
            out@.len() == i,
            forall|k: int| 0 <= k < i ==> #[trigger] out@[k]@ == items@[k]@,
        decreases N - i,
    {
        out.push(owned(items[i]));
        i = i + 1;
    }
    assert(views(out@) =~= items@.map_values(|g: &str| g@));
    out
}

/// Two package requests with the same contents.
pub open spec fn same_package(a: Package, b: Package) -> bool {
    &&& a.package == b.package
    &&& a.version == b.version
    &&& a.use_flags@ == b.use_flags@
    &&& a.keywords@ == b.keywords@
    &&& a.accept_licenses@ == b.accept_licenses@
    &&& a.binary == b.binary
    &&& a.from_source == b.from_source
}

impl Clone for Package {
    fn clone(&self) -> (r: Self)
        ensures
            same_package(r, *self),
    {
        Package {
            package: self.package.clone(),
            version: copy_opt_string(&self.version),
            use_flags: copy_strings(&self.use_flags),
            keywords: copy_strings(&self.keywords),
            accept_licenses: copy_strings(&self.accept_licenses),
            binary: self.binary,
            from_source: self.from_source,
        }
    }
}

impl Package {
    /// A request for `atom` with no version, flags, keywords or licenses.
    pub fn new(atom: &str) -> (r: Self)
        ensures
            r.package@ == atom@,
            r.version is None,
            r.use_flags@.len() == 0,
            r.keywords@.len() == 0,
            r.accept_licenses@.len() == 0,
            !r.binary,
            !r.from_source,
    {
        Package {
            package: owned(atom),
            version: None,
            use_flags: Vec::new(),
            keywords: Vec::new(),
            accept_licenses: Vec::new(),
            binary: false,
            from_source: false,
        }
    }

    /// Requests (or stops requesting) a binary package.
    pub fn binary(self, binary: bool) -> (r: Self)
        ensures
            r == (Package { binary, ..self }),
    {
        Package { binary, ..self }
    }

    /// Forces a build from source, required to apply custom USE flags.
    pub fn from_source(self) -> (r: Self)
        ensures
            r == (Package { from_source: true, ..self }),
    {
        Package { from_source: true, ..self }
    }

    /// Pins the version.
    pub fn version(self, version: &str) -> (r: Self)
        ensures
            r.version matches Some(v) && v@ == version@,
            r.package == self.package,
            r.use_flags == self.use_flags,
            r.keywords == self.keywords,
            r.accept_licenses == self.accept_licenses,
            r.binary == self.binary,
            r.from_source == self.from_source,
    {
        Package { version: Some(owned(version)), ..self }
    }

    /// Replaces the USE flags.
    pub fn use_flags<const N: usize>(self, flags: [&str; N]) -> (r: Self)
        ensures
            views(r.use_flags@) == flags@.map_values(|g: &str| g@),
            r.package == self.package,
            r.version == self.version,
            r.keywords == self.keywords,
            r.accept_licenses == self.accept_licenses,
            r.binary == self.binary,
            r.from_source == self.from_source,
    {
        Package { use_flags: strings_of(flags), ..self }
    }

    /// Replaces the accepted keywords.
    pub fn keywords<const N: usize>(self, keywords: [&str; N]) -> (r: Self)
        ensures
            views(r.keywords@) == keywords@.map_values(|g: &str| g@),
            r.package == self.package,
            r.version == self.version,
            r.use_flags == self.use_flags,
            r.accept_licenses == self.accept_licenses,
            r.binary == self.binary,
            r.from_source == self.from_source,
    {
        Package { keywords: strings_of(keywords), ..self }
    }

    /// Replaces the accepted licenses.
    pub fn accept_licenses<const N: usize>(self, licenses: [&str; N]) -> (r: Self)
        ensures
            views(r.accept_licenses@) == licenses@.map_values(|g: &str| g@),
            r.package == self.package,
            r.version == self.version,
            r.use_flags == self.use_flags,
            r.keywords == self.keywords,
            r.binary == self.binary,
            r.from_source == self.from_source,
    {
        Package { accept_licenses: strings_of(licenses), ..self }
    }
}

/// Exact package request handed to Portage planning.
#[derive(Debug, Clone, PartialEq, Eq)]
pub struct ManifestPackage {
    pub package: String,
    pub version: Option<String>,
    pub use_flags: Vec<String>,
    pub keywords: Vec<String>,
    pub accept_licenses: Vec<String>,
    pub binary: bool,
    pub from_source: bool,
}

/// `=<package>-<version>`.
pub open spec fn versioned_atom_text(package: Seq<char>, version: Seq<char>) -> Seq<char> {
    "="@ + package + "-"@ + version
}

impl ManifestPackage {
    pub fn versioned_atom(&self, version: &str) -> (r: String)
        ensures
            r@ == versioned_atom_text(self.package@, version@),
    {
        let mut v: Vec<char> = Vec::new();
        push_str(&mut v, "=");
        push_str(&mut v, self.package.as_str());
        push_str(&mut v, "-");
        push_str(&mut v, version);
        string_of(&v)
    }
}

/// A package whose name ends in `-bin` is a prebuilt binary package (the
/// suffix holds no `/`, so it is the suffix of the name after the category).
pub open spec fn planned_package(p: Package) -> ManifestPackage {
    ManifestPackage {
        package: p.package,
        version: p.version,
        use_flags: p.use_flags,
        keywords: p.keywords,
        accept_licenses: p.accept_licenses,
        binary: p.binary || ends_with(p.package@, "-bin"@),
        from_source: p.from_source,
    }
}

impl From<Package> for ManifestPackage {
    fn from(value: Package) -> (r: Self)
        ensures
            r == planned_package(value),
    {
        let name = chars_of(value.package.as_str());
        let auto_binary = has_suffix(&name, "-bin");
        let binary = value.binary || auto_binary;
        ManifestPackage {
            package: value.package,
            version: value.version,
            use_flags: value.use_flags,
            keywords: value.keywords,
            accept_licenses: value.accept_licenses,
            binary,
            from_source: value.from_source,
        }
    }
}

impl vstd::std_specs::convert::FromSpecImpl<Package> for ManifestPackage {
    open spec fn obeys_from_spec() -> bool {
        true
    }

    open spec fn from_spec(v: Package) -> Self {
        planned_package(v)
    }
}

} // verus!
