//! The resolver front: git or registry resolution, and the per-file
//! download coordinator.
use vstd::prelude::*;
use vstd::string::*;
use crate::cache::{entry_name, tarball_path, tarball_path_of};
use crate::claims::ClaimSet;
use crate::errors::PipelineError;
use crate::git::{git_download_url, git_name, GitResolver};
use crate::npm::{resolvable, resolves_to, NpmResolver};
use crate::package::{is_git_name, InstallPackage, NpmPackage};
use crate::resolved::{DownloadArtifact, ResolvedArtifact};
use crate::text::{join2, same_text};

verus! {

/// What the coordinator decided for one tarball.
#[derive(Debug)]
pub struct DownloadStep {
    /// The tarball's key and path; it is on disk once `fetch` is done.
    pub artifact: DownloadArtifact,
    /// The URL to fetch into the path, when this caller must fetch it.
    pub fetch: Option<String>,
}

/// `{name}-{version}.tgz`
pub open spec fn tarball_file(name: Seq<char>, version: Seq<char>) -> Seq<char> {
    entry_name(name, version) + ".tgz"@
}

/// Whether a tarball must be fetched: nobody claimed it in this run and it
/// is not on disk.
pub open spec fn fetch_needed(claimed_before: bool, file_exists: bool) -> bool {
    !claimed_before && !file_exists
}

/// Resolves specifications and coordinates downloads so that each tarball
/// is fetched at most once.
pub struct Resolver {
    npm_resolver: NpmResolver,
    git_resolver: GitResolver,
    download_locks: ClaimSet,
}

impl Resolver {
    pub fn new() -> (r: Self)
        ensures
            r.claimed_files() == Set::<Seq<char>>::empty(),
    {
        Resolver {
            npm_resolver: NpmResolver::new(),
            git_resolver: GitResolver::new(),
            download_locks: ClaimSet::new(),
        }
    }

    /// The tarball file names claimed for download so far.
    pub closed spec fn claimed_files(&self) -> Set<Seq<char>> {
        self.download_locks@
    }

    /// Resolves a git spec from its URL and a registry spec from the
    /// packument fetched for it (`None`: the fetch failed).
    pub fn resolve(&self, package: &InstallPackage, packument: Option<NpmPackage>) -> (r: Result<
        ResolvedArtifact,
        PipelineError,
    >)
        ensures
            is_git_name(package.name@) ==> (r matches Ok(a) && a.name@ == git_name(package.name@)
                && a.version@ == "git"@ && a.download_url@ == git_download_url(package.name@)
                && a.integrity is None && a.package is None),
            !is_git_name(package.name@) && packument is None ==> (r matches Err(e)
                && e is NetworkError),
            !is_git_name(package.name@) && packument is Some ==> (r is Ok <==> resolvable(
                *package,
                packument.unwrap(),
            )) && (r matches Ok(a) ==> resolves_to(*package, packument.unwrap(), a)) && (r matches Err(
                e,
            ) ==> e is NotFound),
    {
        if package.is_git() {
            self.git_resolver.resolve(package)
        } else {
            match packument {
                Some(p) => self.npm_resolver.resolve(package, p),
                None => Err(
                    PipelineError::NetworkError {
                        message: join2("Failed to fetch npm package ", package.name.as_str()),
                    },
                ),
            }
        }
    }

    /// Decides the download of an artifact's tarball into
    /// `<cache_root>/{name}-{version}.tgz`. The first caller for a file that
    /// is not on disk fetches it; every other caller reuses it. Git
    /// artifacts have no tarball: `NotFound`.
    pub fn download(&mut self, artifact: &ResolvedArtifact, cache_root: &str, file_exists: bool) -> (r:
        Result<DownloadStep, PipelineError>)
        ensures
            artifact.version@ == "git"@ ==> (r matches Err(e) && e is NotFound
                && final(self).claimed_files() == old(self).claimed_files()),
            artifact.version@ != "git"@ ==> (r matches Ok(step) && step.artifact.key@ == entry_name(
                artifact.name@,
                artifact.version@,
            ) && step.artifact.path@ == tarball_path(
                cache_root@,
                artifact.name@,
                artifact.version@,
            ) && (step.fetch is Some <==> fetch_needed(
                old(self).claimed_files().contains(tarball_file(artifact.name@, artifact.version@)),
                file_exists,
            )) && (step.fetch matches Some(u) ==> u@ == artifact.download_url@)
                && final(self).claimed_files() == old(self).claimed_files().insert(
                tarball_file(artifact.name@, artifact.version@),
            )),
    {
        if same_text(artifact.version.as_str(), "git") {
            return Err(
                PipelineError::NotFound {
                    message: join2("Git sources cannot be downloaded: ", artifact.name.as_str()),
                },
            );
        }
        let key = artifact.to_cache_key();
        let filename = join2(key.as_str(), ".tgz");
        let path = tarball_path_of(cache_root, artifact.name.as_str(), artifact.version.as_str());
        let first = self.download_locks.claim(filename.as_str());
        let fetch = if first && !file_exists {
            Some(artifact.download_url.clone())
        } else {
            None
        };
        Ok(DownloadStep { artifact: DownloadArtifact { key, path }, fetch })
    }
}

impl Default for Resolver {
    fn default() -> (r: Self)
        ensures
            r.claimed_files() == Set::<Seq<char>>::empty(),
    {
        Resolver::new()
    }
}

} // verus!
