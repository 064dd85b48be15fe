use craft::{
    DependencySpec, InstallPackage, NpmPackage, NpmResolver, PackageDist, PackageJson,
    PipelineError, ResolvedArtifact, Resolver,
};

fn tarball(name: &str, version: &str) -> String {
    format!("https://registry.npmjs.org/{}/-/{}-{}.tgz", name, name, version)
}

fn manifest(name: &str, version: &str) -> PackageJson {
    let mut m = PackageJson::empty();
    m.name = Some(name.to_string());
    m.version = Some(version.to_string());
    m.dist = Some(PackageDist {
        tarball: tarball(name, version),
        integrity: Some(format!("sha512-{}", version)),
    });
    m
}

fn packument(name: &str, versions: &[&str], latest: &str) -> NpmPackage {
    NpmPackage {
        name: name.to_string(),
        dist_tags: vec![("latest".to_string(), latest.to_string())],
        versions: versions.iter().map(|v| (v.to_string(), manifest(name, v))).collect(),
    }
}

fn resolve(literal: &str, p: NpmPackage) -> Result<ResolvedArtifact, PipelineError> {
    NpmResolver::new().resolve(&InstallPackage::from_literal(literal, false), p)
}

#[test]
fn react_exact_version_resolves_to_its_tarball() {
    let spec = DependencySpec::parse("react", Some("17.0.2"));
    assert_eq!(NpmResolver::registry_url(&spec), "https://registry.npmjs.org/react");
    let p = packument("react", &["16.14.0", "17.0.2", "18.2.0"], "18.2.0");
    let a = resolve("react@17.0.2", p).ok().unwrap();
    assert_eq!(a.name, "react");
    assert_eq!(a.version, "17.0.2");
    assert_eq!(a.download_url, "https://registry.npmjs.org/react/-/react-17.0.2.tgz");
    assert_eq!(a.integrity, Some("sha512-17.0.2".to_string()));
    assert!(a.package.is_some());
}

#[test]
fn caret_range_picks_highest_matching_major() {
    let p = packument("react", &["17.0.2", "18.0.0", "18.2.0", "18.10.1", "18.3.1", "19.0.0"], "19.0.0");
    let a = resolve("react@^18.0.0", p).ok().unwrap();
    assert_eq!(a.version, "18.10.1");
}

#[test]
fn empty_range_selects_latest_tag() {
    let p = packument("foo", &["1.0.0", "2.0.0", "3.0.0"], "2.0.0");
    assert_eq!(resolve("foo@", p).ok().unwrap().version, "2.0.0");
    let q = packument("foo", &["1.0.0", "2.0.0", "3.0.0"], "2.0.0");
    assert_eq!(resolve("foo", q).ok().unwrap().version, "2.0.0");
}

#[test]
fn selection_takes_max_by_semver_not_text() {
    let keys = vec![
        "1.2.0".to_string(),
        "1.10.0".to_string(),
        "1.9.9".to_string(),
        "not-a-version".to_string(),
        "2.0.0".to_string(),
    ];
    let p = NpmPackage {
        name: "m".to_string(),
        dist_tags: vec![],
        versions: keys.iter().map(|v| (v.clone(), manifest("m", v))).collect(),
    };
    assert_eq!(NpmResolver::select_version(Some("^1.0.0"), &p), Some("1.10.0".to_string()));
    assert_eq!(NpmResolver::select_version(Some(">=1.0.0"), &p), Some("2.0.0".to_string()));
    assert_eq!(NpmResolver::select_version(Some("^3.0.0"), &p), None);
    assert_eq!(NpmResolver::select_version(None, &p), None);
}

#[test]
fn equal_precedence_ties_go_to_the_last() {
    let p = packument("t", &["1.0.0+a", "1.0.0+b", "0.9.0"], "0.9.0");
    assert_eq!(NpmResolver::select_version(Some("^1.0.0"), &p), Some("1.0.0+b".to_string()));
}

#[test]
fn prereleases_rank_below_their_release() {
    let p = packument("pre", &["2.0.0-beta.2", "2.0.0-beta.10", "2.0.0-alpha"], "2.0.0-beta.10");
    assert_eq!(
        NpmResolver::select_version(Some(">=2.0.0-alpha"), &p),
        Some("2.0.0-beta.10".to_string())
    );
    let q = packument("pre", &["1.0.0", "2.0.0-beta.1"], "1.0.0");
    assert_eq!(NpmResolver::select_version(Some("*"), &q), Some("1.0.0".to_string()));
}

#[test]
fn unparsable_range_admits_every_release() {
    let p = packument("u", &["1.0.0", "3.0.0-rc.1", "2.5.0"], "1.0.0");
    assert_eq!(NpmResolver::select_version(Some("!!nonsense!!"), &p), Some("2.5.0".to_string()));
}

#[test]
fn npm_alias_resolves_the_real_package() {
    let pkg = InstallPackage::new(
        "wrap-ansi-cjs".to_string(),
        Some("npm:wrap-ansi@^7.0.0".to_string()),
        false,
    );
    let spec = DependencySpec::from_package(&pkg);
    assert_eq!(NpmResolver::registry_url(&spec), "https://registry.npmjs.org/wrap-ansi");
    let p = packument("wrap-ansi", &["6.2.0", "7.0.0", "8.1.0"], "8.1.0");
    let a = NpmResolver::new().resolve(&pkg, p).ok().unwrap();
    assert_eq!(a.name, "wrap-ansi");
    assert!(a.version.starts_with("7."));
    assert_eq!(a.to_cache_key(), "wrap-ansi-7.0.0");
}

#[test]
fn no_matching_version_is_not_found() {
    let p = packument("react", &["17.0.2"], "17.0.2");
    assert!(matches!(resolve("react@^18.0.0", p), Err(PipelineError::NotFound { .. })));
}

#[test]
fn missing_latest_tag_is_not_found() {
    let mut p = packument("x", &["1.0.0"], "1.0.0");
    p.dist_tags = vec![];
    assert!(matches!(resolve("x", p), Err(PipelineError::NotFound { .. })));
}

#[test]
fn latest_without_manifest_is_not_found() {
    let p = packument("x", &["1.0.0"], "9.9.9");
    assert!(matches!(resolve("x", p), Err(PipelineError::NotFound { .. })));
}

#[test]
fn manifest_without_tarball_is_not_found() {
    let mut p = packument("x", &["1.0.0"], "1.0.0");
    p.versions[0].1.dist = None;
    assert!(matches!(resolve("x@1.0.0", p), Err(PipelineError::NotFound { .. })));
}

#[test]
fn manifest_without_name_falls_back_to_requested_name() {
    let mut p = packument("x", &["1.0.0"], "1.0.0");
    p.versions[0].1.name = None;
    p.versions[0].1.version = None;
    let a = resolve("x@1.0.0", p).ok().unwrap();
    assert_eq!(a.name, "x");
    assert_eq!(a.version, "1.0.0");
}

#[test]
fn registry_spec_without_packument_is_network_error() {
    let r = Resolver::new().resolve(&InstallPackage::from_literal("react", false), None);
    assert!(matches!(r, Err(PipelineError::NetworkError { .. })));
    let ok = Resolver::new().resolve(
        &InstallPackage::from_literal("react@17.0.2", false),
        Some(packument("react", &["17.0.2"], "17.0.2")),
    );
    assert_eq!(ok.ok().unwrap().version, "17.0.2");
}

#[test]
fn no_package_json_message() {
    assert_eq!(PipelineError::NoPackageJson.message(), "no package.json found");
    let e = PipelineError::IoError { message: "denied".to_string() };
    assert_eq!(e.message(), "denied");
}

#[test]
fn resolver_without_matching_version_is_not_found() {
    let r = Resolver::new().resolve(
        &InstallPackage::from_literal("react@^99.0.0", false),
        Some(packument("react", &["17.0.2"], "17.0.2")),
    );
    assert!(matches!(r, Err(PipelineError::NotFound { .. })));
}

#[test]
fn ranges_the_parser_cannot_take_admit_every_release() {
    let p = packument("h", &["1.0.0", "bogus", "2.1.0", "3.0.0-rc.1"], "1.0.0");
    for r in ["=*", "= X", "=x", "~*", "~>x", "~ > X", "~1.x.3", ">=*"] {
        assert_eq!(NpmResolver::select_version(Some(r), &p), Some("2.1.0".to_string()), "{}", r);
    }
    assert_eq!(NpmResolver::select_version(Some("~1.0.0"), &p), Some("1.0.0".to_string()));
    assert_eq!(NpmResolver::select_version(Some("=2.1.0"), &p), Some("2.1.0".to_string()));
}
