//! The resolver's output: one concrete version of one package.
use vstd::prelude::*;
use vstd::string::*;
use crate::cache::{entry_name, entry_name_of};
use crate::package::PackageJson;
use crate::text::join3;

verus! {

/// A resolved `(name, version)` with where to fetch it and its manifest.
#[derive(Debug)]
pub struct ResolvedArtifact {
    pub name: String,
    pub version: String,
    pub download_url: String,
    pub integrity: Option<String>,
    pub package: Option<PackageJson>,
}

/// `{name}@{version}`: the key of a resolved version in the lockfile and
/// among unpack claims.
pub open spec fn version_key(name: Seq<char>, version: Seq<char>) -> Seq<char> {
    name + "@"@ + version
}

impl ResolvedArtifact {
    /// `{name}-{version}`: the artifact's cache entry.
    pub fn to_cache_key(&self) -> (r: String)
        ensures
            r@ == entry_name(self.name@, self.version@),
    {
        entry_name_of(self.name.as_str(), self.version.as_str())
    }

    /// `{name}@{version}`
    pub fn version_key(&self) -> (r: String)
        ensures
            r@ == version_key(self.name@, self.version@),
    {
        join3(self.name.as_str(), "@", self.version.as_str())
    }
}

/// A tarball that is on disk: its cache key and its path.
#[derive(Debug)]
pub struct DownloadArtifact {
    pub key: String,
    pub path: String,
}

} // verus!
