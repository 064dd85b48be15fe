//! Package specifications as the user writes them, and the registry's
//! manifest model.
use vstd::prelude::*;
use vstd::string::*;
use crate::text::{
    ends_with, has_prefix, has_suffix, join2, join3, last_index_of, rfind_char, starts_with,
    substring,
};

verus! {

/// A package requested for installation: a name (or git URL), an optional
/// range, and whether it is a development dependency.
#[derive(Debug)]
pub struct InstallPackage {
    pub name: String,
    pub version: Option<String>,
    pub is_dev: bool,
}

/// An optional string, viewed.
pub open spec fn opt_view(o: Option<String>) -> Option<Seq<char>> {
    match o {
        Some(s) => Some(s@),
        None => None,
    }
}

/// The name part of a literal `name[@range]`: everything before the last
/// `@`, unless that `@` opens the literal (a scope).
pub open spec fn literal_name(s: Seq<char>) -> Seq<char> {
    let k = last_index_of(s, '@');
    if k <= 0 {
        s
    } else {
        s.subrange(0, k)
    }
}

/// The range part of a literal: everything after the last `@`, unless that
/// `@` opens the literal.
pub open spec fn literal_version(s: Seq<char>) -> Option<Seq<char>> {
    let k = last_index_of(s, '@');
    if k <= 0 {
        None
    } else {
        Some(s.subrange(k + 1, s.len() as int))
    }
}

/// Whether a name denotes a git source.
pub open spec fn is_git_name(n: Seq<char>) -> bool {
    has_prefix(n, "git:"@) || has_prefix(n, "git+ssh:"@) || has_prefix(n, "git+http:"@)
        || has_prefix(n, "git+https:"@) || has_prefix(n, "ssh:"@) || has_suffix(n, ".git"@)
}

/// The singleflight key `{name}@{range-or-empty}`.
pub open spec fn cache_key_of(name: Seq<char>, version: Option<Seq<char>>) -> Seq<char> {
    name + "@"@ + match version {
        Some(v) => v,
        None => Seq::<char>::empty(),
    }
}

impl InstallPackage {
    pub fn new(name: String, version: Option<String>, is_dev: bool) -> (r: Self)
        ensures
            r.name == name,
            r.version == version,
            r.is_dev == is_dev,
    {
        InstallPackage { name, version, is_dev }
    }

    /// Splits `name@range` on its last `@`; a leading `@` marks a scope.
    pub fn from_literal(package: &str, is_dev: bool) -> (r: Self)
        ensures
            r.name@ == literal_name(package@),
            opt_view(r.version) == literal_version(package@),
            r.is_dev == is_dev,
    {
        match rfind_char(package, '@') {
            Some(last_at) => {
                if last_at == 0 {
                    InstallPackage { name: String::from_str(package), version: None, is_dev }
                } else {
                    let n = package.unicode_len();
                    let name = substring(package, 0, last_at);
                    let version = substring(package, last_at + 1, n);
                    InstallPackage { name, version: Some(version), is_dev }
                }
            },
            None => InstallPackage { name: String::from_str(package), version: None, is_dev },
        }
    }

    pub fn is_git(&self) -> (r: bool)
        ensures
            r == is_git_name(self.name@),
    {
        let n = self.name.as_str();
        starts_with(n, "git:") || starts_with(n, "git+ssh:") || starts_with(n, "git+http:")
            || starts_with(n, "git+https:") || starts_with(n, "ssh:") || ends_with(n, ".git")
    }

    /// The key under which concurrent requests for this spec are merged.
    pub fn to_cache_key(&self) -> (r: String)
        ensures
            r@ == cache_key_of(self.name@, opt_view(self.version)),
    {
        match &self.version {
            Some(v) => join3(self.name.as_str(), "@", v.as_str()),
            None => {
                let r = join2(self.name.as_str(), "@");
                assert(r@ =~= cache_key_of(self.name@, opt_view(self.version)));
                r
            },
        }
    }

    /// A copy of this spec.
    pub fn duplicate(&self) -> (r: Self)
        ensures
            r == *self,
    {
        let version = match &self.version {
            Some(v) => Some(v.clone()),
            None => None,
        };
        InstallPackage { name: self.name.clone(), version, is_dev: self.is_dev }
    }
}

/// The executables that a package exposes.
#[derive(Debug)]
pub enum PackageBin {
    /// One script, exposed under the package's own name.
    String(String),
    /// Executable names mapped to script paths.
    Named(Vec<(String, String)>),
}

/// Where the tarball of one version lives.
#[derive(Debug)]
pub struct PackageDist {
    pub tarball: String,
    pub integrity: Option<String>,
}

/// The fields of a manifest (`package.json`) that the core reads.
#[derive(Debug)]
pub struct PackageJson {
    pub name: Option<String>,
    pub version: Option<String>,
    pub description: Option<String>,
    pub scripts: Option<Vec<(String, String)>>,
    pub keywords: Option<Vec<String>>,
    pub dependencies: Option<Vec<(String, String)>>,
    pub dev_dependencies: Option<Vec<(String, String)>>,
    pub dist: Option<PackageDist>,
    pub bin: Option<PackageBin>,
}

/// A packument: the registry document listing every version of a package.
#[derive(Debug)]
pub struct NpmPackage {
    pub name: String,
    pub dist_tags: Vec<(String, String)>,
    pub versions: Vec<(String, PackageJson)>,
}

/// A copy of an optional string.
pub fn copy_opt(o: &Option<String>) -> (r: Option<String>)
    ensures
        r == *o,
{
    match o {
        Some(s) => Some(s.clone()),
        None => None,
    }
}

/// A copy of a list of strings.
pub fn copy_strings(v: &Vec<String>) -> (r: Vec<String>)
    ensures
        r@ == v@,
{
    let mut r: Vec<String> = Vec::new();
    let mut i: usize = 0;
    while i < v.len()
        invariant
            i <= v@.len(),
            r@ == v@.subrange(0, i as int),
        decreases v.len() - i,
    {
        r.push(v[i].clone());
        i += 1;
        assert(r@ =~= v@.subrange(0, i as int));
    }
    assert(v@.subrange(0, i as int) =~= v@);
    r
}

/// A copy of a list of string pairs.
pub fn copy_pairs(v: &Vec<(String, String)>) -> (r: Vec<(String, String)>)
    ensures
        r@ == v@,
{
    let mut r: Vec<(String, String)> = Vec::new();
    let mut i: usize = 0;
    while i < v.len()
        invariant
            i <= v@.len(),
            r@ == v@.subrange(0, i as int),
        decreases v.len() - i,
    {
        r.push((v[i].0.clone(), v[i].1.clone()));
        i += 1;
        assert(r@ =~= v@.subrange(0, i as int));
    }
    assert(v@.subrange(0, i as int) =~= v@);
    r
}

/// A copy of an optional list of string pairs.
pub fn copy_opt_pairs(o: &Option<Vec<(String, String)>>) -> (r: Option<Vec<(String, String)>>)
    ensures
        r is Some == o is Some,
        r is Some ==> r.unwrap()@ == o.unwrap()@,
{
    match o {
        Some(v) => Some(copy_pairs(v)),
        None => None,
    }
}

impl PackageJson {
    /// A manifest with no fields set.
    pub fn empty() -> (r: Self)
        ensures
            r.name is None && r.version is None && r.description is None && r.scripts is None
                && r.keywords is None && r.dependencies is None && r.dev_dependencies is None
                && r.dist is None && r.bin is None,
    {
        PackageJson {
            name: None,
            version: None,
            description: None,
            scripts: None,
            keywords: None,
            dependencies: None,
            dev_dependencies: None,
            dist: None,
            bin: None,
        }
    }
}

} // verus!
