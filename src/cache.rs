//! The on-disk layout of the shared package cache.
use vstd::prelude::*;
use vstd::string::*;
use crate::text::{join2, join3};

verus! {

/// `{name}-{version}`: the cache entry of one resolved version.
pub open spec fn entry_name(name: Seq<char>, version: Seq<char>) -> Seq<char> {
    name + "-"@ + version
}

/// `<root>/{name}-{version}.tgz`
pub open spec fn tarball_path(root: Seq<char>, name: Seq<char>, version: Seq<char>) -> Seq<char> {
    root + "/"@ + entry_name(name, version) + ".tgz"@
}

/// `<root>/{name}-{version}`: where the tarball is unpacked.
pub open spec fn unpack_dir(root: Seq<char>, name: Seq<char>, version: Seq<char>) -> Seq<char> {
    root + "/"@ + entry_name(name, version)
}

/// `<root>/{name}-{version}/package`: the package's own files.
pub open spec fn package_dir(root: Seq<char>, name: Seq<char>, version: Seq<char>) -> Seq<char> {
    unpack_dir(root, name, version) + "/package"@
}

/// `{name}-{version}`
pub fn entry_name_of(name: &str, version: &str) -> (r: String)
    ensures
        r@ == entry_name(name@, version@),
{
    join3(name, "-", version)
}

/// `<root>/{name}-{version}`
pub fn unpack_dir_of(root: &str, name: &str, version: &str) -> (r: String)
    ensures
        r@ == unpack_dir(root@, name@, version@),
{
    let e = entry_name_of(name, version);
    let r = join3(root, "/", e.as_str());
    assert(r@ =~= unpack_dir(root@, name@, version@));
    r
}

/// `<root>/{name}-{version}.tgz`
pub fn tarball_path_of(root: &str, name: &str, version: &str) -> (r: String)
    ensures
        r@ == tarball_path(root@, name@, version@),
{
    let d = unpack_dir_of(root, name, version);
    let r = join2(d.as_str(), ".tgz");
    assert(r@ =~= tarball_path(root@, name@, version@));
    r
}

/// `<root>/{name}-{version}/package`
pub fn package_dir_of(root: &str, name: &str, version: &str) -> (r: String)
    ensures
        r@ == package_dir(root@, name@, version@),
{
    let d = unpack_dir_of(root, name, version);
    join2(d.as_str(), "/package")
}

} // verus!
