use craft::install::root_concurrency_limit;
use craft::{InstallPackage, InstallPipe, PackageJson, ResolvedArtifact, Resolver};

fn artifact(name: &str, version: &str, deps: &[(&str, &str)]) -> ResolvedArtifact {
    let mut m = PackageJson::empty();
    m.name = Some(name.to_string());
    m.version = Some(version.to_string());
    if !deps.is_empty() {
        m.dependencies = Some(deps.iter().map(|(n, r)| (n.to_string(), r.to_string())).collect());
    }
    ResolvedArtifact {
        name: name.to_string(),
        version: version.to_string(),
        download_url: format!("https://registry.npmjs.org/{}/-/{}-{}.tgz", name, name, version),
        integrity: None,
        package: Some(m),
    }
}

fn spec(name: &str, range: &str) -> InstallPackage {
    InstallPackage::new(name.to_string(), Some(range.to_string()), false)
}

#[test]
fn cycle_resolves_each_key_once() {
    let mut pipe = InstallPipe::new(vec![spec("a", "^1.0.0")]);
    let first = pipe.next_package().unwrap();
    assert_eq!(first.to_cache_key(), "a@^1.0.0");
    let a = artifact("a", "1.0.0", &[("b", "^1.0.0")]);
    assert!(pipe.claim_unpack(&a, false));
    pipe.complete(a);
    let second = pipe.next_package().unwrap();
    assert_eq!(second.to_cache_key(), "b@^1.0.0");
    let b = artifact("b", "1.0.0", &[("a", "^1.0.0")]);
    assert!(pipe.claim_unpack(&b, false));
    pipe.complete(b);
    assert!(pipe.next_package().is_none());
    let arts = pipe.into_artifacts();
    assert_eq!(arts.len(), 2);
}

#[test]
fn same_key_requested_many_times_is_resolved_once() {
    let mut pipe = InstallPipe::new(vec![spec("react", "^18.0.0"), spec("react", "^18.0.0"), spec("react", "^18.0.0")]);
    assert!(pipe.next_package().is_some());
    assert!(pipe.next_package().is_none());
}

#[test]
fn different_ranges_of_one_version_unpack_once() {
    let mut pipe = InstallPipe::new(vec![spec("lodash", "^4.0.0"), spec("lodash", "4.17.21")]);
    pipe.next_package().unwrap();
    let one = artifact("lodash", "4.17.21", &[]);
    assert!(pipe.claim_unpack(&one, false));
    pipe.complete(one);
    pipe.next_package().unwrap();
    let two = artifact("lodash", "4.17.21", &[]);
    assert!(!pipe.claim_unpack(&two, false));
    pipe.complete(two);
    assert!(pipe.next_package().is_none());
    let arts = pipe.into_artifacts();
    assert_eq!(arts.len(), 1);
    assert_eq!(arts[0].version, "4.17.21");
}

#[test]
fn dependencies_become_non_dev_specs() {
    let mut pipe = InstallPipe::new(vec![InstallPackage::new("t".to_string(), Some("1".to_string()), true)]);
    assert!(pipe.next_package().unwrap().is_dev);
    let t = artifact("t", "1.0.0", &[("u", "~2.1.0")]);
    assert!(pipe.claim_unpack(&t, false));
    pipe.complete(t);
    let dep = pipe.next_package().unwrap();
    assert_eq!(dep.name, "u");
    assert_eq!(dep.version, Some("~2.1.0".to_string()));
    assert!(!dep.is_dev);
}

#[test]
fn warm_cache_fetches_and_unpacks_nothing() {
    let mut resolver = Resolver::new();
    let a = artifact("lodash", "4.17.21", &[]);
    let step = resolver.download(&a, "/home/u/.craft/packages", true).ok().unwrap();
    assert!(step.fetch.is_none());
    assert_eq!(step.artifact.path, "/home/u/.craft/packages/lodash-4.17.21.tgz");
    assert_eq!(step.artifact.key, "lodash-4.17.21");
    let mut pipe = InstallPipe::new(vec![spec("lodash", "4.17.21")]);
    pipe.next_package().unwrap();
    assert!(!pipe.claim_unpack(&a, true));
}

#[test]
fn cold_cache_fetches_each_tarball_once() {
    let mut resolver = Resolver::new();
    let a = artifact("react", "17.0.2", &[]);
    let step = resolver.download(&a, "/c", false).ok().unwrap();
    assert_eq!(step.fetch, Some("https://registry.npmjs.org/react/-/react-17.0.2.tgz".to_string()));
    let again = resolver.download(&a, "/c", false).ok().unwrap();
    assert!(again.fetch.is_none());
}

#[test]
fn git_artifacts_cannot_be_downloaded() {
    let mut resolver = Resolver::new();
    let g = ResolvedArtifact {
        name: "repo".to_string(),
        version: "git".to_string(),
        download_url: "git:github.com/user/repo.git".to_string(),
        integrity: None,
        package: None,
    };
    assert!(matches!(resolver.download(&g, "/c", false), Err(craft::PipelineError::NotFound { .. })));
}

#[test]
fn root_concurrency_is_twice_the_cpus() {
    assert_eq!(root_concurrency_limit(Some(8)), 16);
    assert_eq!(root_concurrency_limit(Some(0)), 2);
    assert_eq!(root_concurrency_limit(Some(1)), 2);
    assert_eq!(root_concurrency_limit(None), 4);
}
