//! Registry resolution: from a packument to one artifact.
use vstd::prelude::*;
use vstd::string::*;
use crate::assoc::{assoc_get, entries_view, lemma_key_position_bounds, position_of};
use crate::dependency::{dependency_target, DependencySpec};
use crate::errors::PipelineError;
use crate::package::{copy_opt, opt_view, InstallPackage, NpmPackage, PackageDist, PackageJson};
use crate::resolved::ResolvedArtifact;
use crate::semver::{max_candidate, select_max_satisfying, texts_view};
use crate::text::join2;

verus! {

/// The registry document of a package lives at this URL.
pub open spec fn registry_url_of(name: Seq<char>) -> Seq<char> {
    "https://registry.npmjs.org/"@ + name
}

/// The version keys of a packument, in order.
pub open spec fn version_keys(p: NpmPackage) -> Seq<Seq<char>> {
    p.versions@.map_values(|e: (String, PackageJson)| e.0@)
}

/// `n` times true.
pub open spec fn all_true(n: nat) -> Seq<bool> {
    Seq::new(n, |i: int| true)
}

/// The version that a range picks from a packument: the highest key that the
/// range admits; with no range, or an empty one, the `latest` dist-tag.
pub open spec fn chosen_version(range: Option<Seq<char>>, p: NpmPackage) -> Option<Seq<char>> {
    if range is Some && range.unwrap().len() > 0 {
        match max_candidate(range, version_keys(p), all_true(p.versions@.len())) {
            Some(i) => Some(version_keys(p)[i]),
            None => None,
        }
    } else {
        match assoc_get(entries_view(p.dist_tags@), "latest"@) {
            Some(v) => Some(v@),
            None => None,
        }
    }
}

/// The manifest published for a version.
pub open spec fn manifest_of(p: NpmPackage, version: Seq<char>) -> Option<PackageJson> {
    assoc_get(entries_view(p.versions@), version)
}

/// `o`'s text, or `d` when it is absent.
pub open spec fn text_or(o: Option<String>, d: Seq<char>) -> Seq<char> {
    match o {
        Some(s) => s@,
        None => d,
    }
}

/// The artifact that `package` resolves to against packument `p`, if any.
pub open spec fn resolves_to(package: InstallPackage, p: NpmPackage, a: ResolvedArtifact) -> bool {
    let target = dependency_target(package.name@, opt_view(package.version));
    match chosen_version(target.1, p) {
        Some(v) => match manifest_of(p, v) {
            Some(m) => match m.dist {
                Some(d) => {
                    &&& a.name@ == text_or(m.name, target.0)
                    &&& a.version@ == text_or(m.version, v)
                    &&& a.download_url@ == d.tarball@
                    &&& a.integrity == d.integrity
                    &&& a.package == Some(m)
                },
                None => false,
            },
            None => false,
        },
        None => false,
    }
}

/// Whether `package` resolves at all against `p`.
pub open spec fn resolvable(package: InstallPackage, p: NpmPackage) -> bool {
    let target = dependency_target(package.name@, opt_view(package.version));
    match chosen_version(target.1, p) {
        Some(v) => match manifest_of(p, v) {
            Some(m) => m.dist is Some,
            None => false,
        },
        None => false,
    }
}

/// With a non-empty range, a resolved artifact comes from the highest
/// version key that the range admits (the last of equal precedence), and
/// its version is that key's manifest version, or the key itself.
pub proof fn lemma_range_picks_max(package: InstallPackage, p: NpmPackage, a: ResolvedArtifact)
    requires
        resolves_to(package, p, a),
        dependency_target(package.name@, opt_view(package.version)).1 matches Some(r) && r.len() > 0,
    ensures
        ({
            let range = dependency_target(package.name@, opt_view(package.version)).1;
            exists|i: int|
                crate::semver::is_max_candidate(
                    range,
                    version_keys(p),
                    all_true(p.versions@.len()),
                    i,
                ) && (#[trigger] manifest_of(p, version_keys(p)[i]) matches Some(m) && a.version@
                    == text_or(m.version, version_keys(p)[i]))
        }),
{
    let range = dependency_target(package.name@, opt_view(package.version)).1;
    let ks = version_keys(p);
    let el = all_true(p.versions@.len());
    assert(exists|i: int| crate::semver::is_max_candidate(range, ks, el, i));
    let i = choose|i: int| crate::semver::is_max_candidate(range, ks, el, i);
    assert(manifest_of(p, ks[i]) is Some);
}

/// Resolves registry packages against the packuments fetched for them.
pub struct NpmResolver;

impl NpmResolver {
    pub fn new() -> (r: Self) {
        NpmResolver
    }

    /// `https://registry.npmjs.org/{package_name}`
    pub fn registry_url(spec: &DependencySpec) -> (r: String)
        ensures
            r@ == registry_url_of(spec.package_name@),
    {
        join2("https://registry.npmjs.org/", spec.package_name.as_str())
    }

    /// The version that the range picks (see `chosen_version`).
    pub fn select_version(range: Option<&str>, packument: &NpmPackage) -> (r: Option<String>)
        ensures
            opt_view(r) == chosen_version(
                match range {
                    Some(t) => Some(t@),
                    None => None,
                },
                *packument,
            ),
    {
        let n = packument.versions.len();
        let mut keys: Vec<String> = Vec::new();
        let mut eligible: Vec<bool> = Vec::new();
        let mut i: usize = 0;
        while i < n
            invariant
                n == packument.versions@.len(),
                i <= n,
                keys@.len() == i,
                eligible@ == all_true(i as nat),
                forall|j: int| 0 <= j < i ==> keys@[j]@ == packument.versions@[j].0@,
            decreases n - i,
        {
            keys.push(packument.versions[i].0.clone());
            eligible.push(true);
            i += 1;
            assert(eligible@ =~= all_true(i as nat));
        }
        assert(texts_view(keys@) =~= version_keys(*packument));
        let nonempty = match range {
            Some(t) => t.unicode_len() > 0,
            None => false,
        };
        if nonempty {
            match select_max_satisfying(&keys, &eligible, range) {
                Some(k) => Some(keys[k].clone()),
                None => None,
            }
        } else {
            proof {
                lemma_key_position_bounds(entries_view(packument.dist_tags@), "latest"@);
            }
            match position_of(&packument.dist_tags, "latest") {
                Some(k) => Some(packument.dist_tags[k].1.clone()),
                None => None,
            }
        }
    }

    /// Resolves a registry spec against its packument: follows an `npm:`
    /// alias, picks the version, and builds the artifact from its manifest.
    /// Fails with `NotFound` when no version is picked, the version has no
    /// manifest, or the manifest has no tarball.
    pub fn resolve(&self, package: &InstallPackage, packument: NpmPackage) -> (r: Result<
        ResolvedArtifact,
        PipelineError,
    >)
        ensures
            r is Ok <==> resolvable(*package, packument),
            r matches Ok(a) ==> resolves_to(*package, packument, a),
            r matches Err(e) ==> e is NotFound,
    {
        let ghost p0 = packument;
        let dep_spec = DependencySpec::from_package(package);
        let range = match &dep_spec.version {
            Some(v) => Some(v.as_str()),
            None => None,
        };
        let version = match Self::select_version(range, &packument) {
            Some(v) => v,
            None => {
                return Err(
                    PipelineError::NotFound {
                        message: join2("Version not found for package ", dep_spec.package_name.as_str()),
                    },
                );
            },
        };
        proof {
            lemma_key_position_bounds(entries_view(packument.versions@), version@);
        }
        let pos = match position_of(&packument.versions, version.as_str()) {
            Some(k) => k,
            None => {
                return Err(
                    PipelineError::NotFound {
                        message: join2("Package JSON not found for version ", version.as_str()),
                    },
                );
            },
        };
        let mut packument = packument;
        let (_, manifest) = packument.versions.remove(pos);
        assert(manifest == p0.versions@[pos as int].1);
        let (download_url, integrity) = match &manifest.dist {
            Some(d) => (d.tarball.clone(), copy_opt(&d.integrity)),
            None => {
                return Err(PipelineError::NotFound { message: String::from_str("Dist info not found") });
            },
        };
        let name = match &manifest.name {
            Some(n) => n.clone(),
            None => dep_spec.package_name,
        };
        let resolved_version = match &manifest.version {
            Some(v) => v.clone(),
            None => version,
        };
        Ok(
            ResolvedArtifact {
                name,
                version: resolved_version,
                download_url,
                integrity,
                package: Some(manifest),
            },
        )
    }
}

impl Default for NpmResolver {
    fn default() -> (r: Self) {
        NpmResolver::new()
    }
}

} // verus!
