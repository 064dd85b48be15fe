//! Git sources: a synthetic artifact read off the URL.
use vstd::prelude::*;
use vstd::string::*;
use crate::errors::PipelineError;
use crate::package::InstallPackage;
use crate::resolved::ResolvedArtifact;
use crate::text::{
    ends_with, has_prefix, has_suffix, join2, last_index_of, rfind_char, starts_with, substring,
};

verus! {

/// `s` with every leading repetition of `p` removed.
pub open spec fn trim_prefix_all(s: Seq<char>, p: Seq<char>) -> Seq<char>
    decreases s.len(),
{
    if p.len() > 0 && has_prefix(s, p) {
        trim_prefix_all(s.subrange(p.len() as int, s.len() as int), p)
    } else {
        s
    }
}

/// `s` with every trailing repetition of `p` removed.
pub open spec fn trim_suffix_all(s: Seq<char>, p: Seq<char>) -> Seq<char>
    decreases s.len(),
{
    if p.len() > 0 && has_suffix(s, p) {
        trim_suffix_all(s.subrange(0, s.len() - p.len()), p)
    } else {
        s
    }
}

/// The URL with the known git scheme prefixes stripped, in order.
pub open spec fn git_path(url: Seq<char>) -> Seq<char> {
    trim_prefix_all(
        trim_prefix_all(
            trim_prefix_all(
                trim_prefix_all(trim_prefix_all(url, "git:"@), "git+ssh:"@),
                "git+http:"@,
            ),
            "git+https:"@,
        ),
        "ssh:"@,
    )
}

/// The last `/`-separated segment of `s`.
pub open spec fn last_segment(s: Seq<char>) -> Seq<char> {
    s.subrange(last_index_of(s, '/') + 1, s.len() as int)
}

/// The package name of a git URL: its last segment without `.git`.
pub open spec fn git_name(url: Seq<char>) -> Seq<char> {
    trim_suffix_all(last_segment(git_path(url)), ".git"@)
}

/// The canonical download URL: as given when it names a scheme, else the
/// HTTPS form when it ends in `.git`.
pub open spec fn git_download_url(url: Seq<char>) -> Seq<char> {
    if has_prefix(url, "git:"@) || has_prefix(url, "git+"@) || has_prefix(url, "ssh:"@) {
        url
    } else if has_suffix(url, ".git"@) {
        "git+https://"@ + git_path(url)
    } else {
        url
    }
}

/// Removes every leading repetition of `p`.
fn trim_start_matches(s: &str, p: &str) -> (r: String)
    ensures
        r@ == trim_prefix_all(s@, p@),
{
    let mut rest = String::from_str(s);
    if p.unicode_len() == 0 {
        return rest;
    }
    while starts_with(rest.as_str(), p)
        invariant
            p@.len() > 0,
            trim_prefix_all(rest@, p@) == trim_prefix_all(s@, p@),
        decreases rest@.len(),
    {
        let n = rest.unicode_len();
        let m = p.unicode_len();
        rest = substring(rest.as_str(), m, n);
    }
    rest
}

/// Removes every trailing repetition of `p`.
fn trim_end_matches(s: &str, p: &str) -> (r: String)
    ensures
        r@ == trim_suffix_all(s@, p@),
{
    let mut rest = String::from_str(s);
    if p.unicode_len() == 0 {
        return rest;
    }
    while ends_with(rest.as_str(), p)
        invariant
            p@.len() > 0,
            trim_suffix_all(rest@, p@) == trim_suffix_all(s@, p@),
        decreases rest@.len(),
    {
        let n = rest.unicode_len();
        let m = p.unicode_len();
        rest = substring(rest.as_str(), 0, n - m);
    }
    rest
}

/// Resolves git specifications without touching the network.
pub struct GitResolver;

impl GitResolver {
    pub fn new() -> (r: Self) {
        GitResolver
    }

    /// The artifact of a git spec: the name read off the URL, the version
    /// `git`, and the canonical URL. It has no manifest.
    pub fn resolve(&self, package: &InstallPackage) -> (r: Result<ResolvedArtifact, PipelineError>)
        ensures
            r matches Ok(a) && a.name@ == git_name(package.name@) && a.version@ == "git"@
                && a.download_url@ == git_download_url(package.name@) && a.integrity is None
                && a.package is None,
    {
        let (name, version, download_url) = self.parse_git_url(package.name.as_str());
        Ok(ResolvedArtifact { name, version, download_url, integrity: None, package: None })
    }

    /// (name, `git`, download URL) of a git URL.
    pub fn parse_git_url(&self, git_url: &str) -> (r: (String, String, String))
        ensures
            r.0@ == git_name(git_url@),
            r.1@ == "git"@,
            r.2@ == git_download_url(git_url@),
    {
        let u1 = trim_start_matches(git_url, "git:");
        let u2 = trim_start_matches(u1.as_str(), "git+ssh:");
        let u3 = trim_start_matches(u2.as_str(), "git+http:");
        let u4 = trim_start_matches(u3.as_str(), "git+https:");
        let url = trim_start_matches(u4.as_str(), "ssh:");
        let n = url.unicode_len();
        let segment = match rfind_char(url.as_str(), '/') {
            Some(i) => substring(url.as_str(), i + 1, n),
            None => String::from_str(url.as_str()),
        };
        proof {
            if last_index_of(url@, '/') == -1 {
                assert(url@.subrange(0, url@.len() as int) =~= url@);
            }
        }
        let name = trim_end_matches(segment.as_str(), ".git");
        let version = String::from_str("git");
        let download_url = if starts_with(git_url, "git:") || starts_with(git_url, "git+")
            || starts_with(git_url, "ssh:") {
            String::from_str(git_url)
        } else if ends_with(git_url, ".git") {
            join2("git+https://", url.as_str())
        } else {
            String::from_str(git_url)
        };
        (name, version, download_url)
    }
}

impl Default for GitResolver {
    fn default() -> (r: Self) {
        GitResolver::new()
    }
}

} // verus!
