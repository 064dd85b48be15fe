//! The normalised resolver input: an `npm:real@range` alias resolved to the
//! real package name and range.
use vstd::prelude::*;
use vstd::string::*;
use crate::package::{opt_view, InstallPackage};
use crate::text::{find_char, first_index_of, has_prefix, starts_with, substring};

verus! {

/// The package to look up in the registry and the range to select by.
#[derive(Debug)]
pub struct DependencySpec {
    pub package_name: String,
    pub version: Option<String>,
}

/// The (name, range) that `npm:rest` denotes: `rest` split on its first `@`.
pub open spec fn alias_target(rest: Seq<char>) -> (Seq<char>, Option<Seq<char>>) {
    let k = first_index_of(rest, '@');
    if k < 0 {
        (rest, None)
    } else {
        (rest.subrange(0, k), Some(rest.subrange(k + 1, rest.len() as int)))
    }
}

/// The (name, range) that a dependency entry `name: version` resolves to.
pub open spec fn dependency_target(name: Seq<char>, version: Option<Seq<char>>) -> (
    Seq<char>,
    Option<Seq<char>>,
) {
    match version {
        Some(v) => if has_prefix(v, "npm:"@) {
            alias_target(v.subrange(4, v.len() as int))
        } else {
            (name, Some(v))
        },
        None => (name, None),
    }
}

/// An optional `&str`, viewed.
pub open spec fn opt_str_view(o: Option<&str>) -> Option<Seq<char>> {
    match o {
        Some(s) => Some(s@),
        None => None,
    }
}

impl DependencySpec {
    /// Normalises `name: version`, following an `npm:` alias when present.
    pub fn parse(package_name: &str, version: Option<&str>) -> (r: Self)
        ensures
            (r.package_name@, opt_view(r.version)) == dependency_target(
                package_name@,
                opt_str_view(version),
            ),
    {
        match version {
            Some(version_str) => {
                match Self::parse_npm_alias(version_str) {
                    Some(spec) => spec,
                    None => DependencySpec {
                        package_name: String::from_str(package_name),
                        version: Some(String::from_str(version_str)),
                    },
                }
            },
            None => DependencySpec { package_name: String::from_str(package_name), version: None },
        }
    }

    /// Reads `npm:name[@range]`; `None` when the prefix is absent.
    fn parse_npm_alias(version_str: &str) -> (r: Option<Self>)
        ensures
            has_prefix(version_str@, "npm:"@) <==> r is Some,
            r matches Some(spec) ==> (spec.package_name@, opt_view(spec.version)) == alias_target(
                version_str@.subrange(4, version_str@.len() as int),
            ),
    {
        if !starts_with(version_str, "npm:") {
            return None;
        }
        proof {
            reveal_strlit("npm:");
        }
        let n = version_str.unicode_len();
        let without_prefix = version_str.substring_char(4, n);
        match find_char(without_prefix, '@') {
            Some(at_pos) => {
                let m = without_prefix.unicode_len();
                Some(
                    DependencySpec {
                        package_name: substring(without_prefix, 0, at_pos),
                        version: Some(substring(without_prefix, at_pos + 1, m)),
                    },
                )
            },
            None => Some(
                DependencySpec { package_name: String::from_str(without_prefix), version: None },
            ),
        }
    }
}

impl DependencySpec {
    /// The normalised form of a requested package.
    pub fn from_package(package: &InstallPackage) -> (r: Self)
        ensures
            (r.package_name@, opt_view(r.version)) == dependency_target(
                package.name@,
                opt_view(package.version),
            ),
    {
        match &package.version {
            Some(v) => Self::parse(package.name.as_str(), Some(v.as_str())),
            None => Self::parse(package.name.as_str(), None),
        }
    }
}

impl<'a> From<&'a InstallPackage> for DependencySpec {
    fn from(package: &'a InstallPackage) -> (r: Self) {
        Self::from_package(package)
    }
}

impl<'a> vstd::std_specs::convert::FromSpecImpl<&'a InstallPackage> for DependencySpec {
    open spec fn obeys_from_spec() -> bool {
        false
    }

    open spec fn from_spec(package: &'a InstallPackage) -> Self {
        arbitrary()
    }
}

} // verus!
