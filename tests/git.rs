use craft::{GitResolver, InstallPackage, Resolver};

#[test]
fn test_resolve_git_url() {
    let pkg = InstallPackage::new("git:github.com/user/repo.git".to_string(), None, false);
    let resolver = GitResolver::new();
    let result = resolver.resolve(&pkg);

    assert!(result.is_ok());
    let artifact = result.expect("Failed to resolve git package");
    assert_eq!(artifact.name, "repo");
    assert_eq!(artifact.version, "git");
    assert_eq!(artifact.download_url, "git:github.com/user/repo.git");
}

#[test]
fn test_resolve_git_ssh_url() {
    let pkg = InstallPackage::new(
        "git+ssh:git@github.com:user/repo.git".to_string(),
        None,
        false,
    );
    let resolver = GitResolver::new();
    let result = resolver.resolve(&pkg);

    assert!(result.is_ok());
    let artifact = result.expect("Failed to resolve git ssh package");
    assert_eq!(artifact.name, "repo");
    assert_eq!(
        artifact.download_url,
        "git+ssh:git@github.com:user/repo.git"
    );
}

#[test]
fn test_resolve_https_git_url() {
    let pkg = InstallPackage::new("https://github.com/user/repo.git".to_string(), None, false);
    let resolver = GitResolver::new();
    let result = resolver.resolve(&pkg);

    assert!(result.is_ok());
    let artifact = result.expect("Failed to resolve https git package");
    assert_eq!(artifact.name, "repo");
    assert!(artifact.download_url.contains("github.com/user/repo.git"));
}

#[test]
fn test_resolve_gitlab_url() {
    let pkg = InstallPackage::new("git:gitlab.com/package/psc".to_string(), None, false);
    let resolver = GitResolver::new();
    let result = resolver.resolve(&pkg);

    assert!(result.is_ok());
    let artifact = result.expect("Failed to resolve gitlab package");
    assert_eq!(artifact.name, "psc");
}

#[test]
fn test_resolve_git_package() {
    let pkg = InstallPackage::new("git:github.com/user/repo.git".to_string(), None, false);
    let resolver = Resolver::new();
    let result = resolver.resolve(&pkg, None);

    assert!(result.is_ok());
    let artifact = result.expect("Failed to resolve git package");
    assert_eq!(artifact.name, "repo");
    assert_eq!(artifact.version, "git");
}

#[test]
fn test_resolve_gitlab_package() {
    let pkg = InstallPackage::new("git:gitlab.com/package/psc".to_string(), None, false);
    let resolver = Resolver::new();
    let result = resolver.resolve(&pkg, None);

    assert!(result.is_ok());
    let artifact = result.expect("Failed to resolve gitlab package");
    assert_eq!(artifact.name, "psc");
}

#[test]
fn git_url_without_scheme_is_normalised_to_https() {
    let (name, version, url) = GitResolver::new().parse_git_url("github.com/user/repo.git");
    assert_eq!(name, "repo");
    assert_eq!(version, "git");
    assert_eq!(url, "git+https://github.com/user/repo.git");
}

#[test]
fn git_prefixes_and_suffixes_are_stripped_repeatedly() {
    let (name, _, url) = GitResolver::new().parse_git_url("git:git:host/a/tool.git.git");
    assert_eq!(name, "tool");
    assert_eq!(url, "git:git:host/a/tool.git.git");
    let (plain, _, plain_url) = GitResolver::new().parse_git_url("repo");
    assert_eq!(plain, "repo");
    assert_eq!(plain_url, "repo");
}

#[test]
fn resolver_git_artifact_has_no_manifest() {
    let pkg = InstallPackage::new("git:github.com/user/repo.git".to_string(), None, false);
    let artifact = Resolver::new().resolve(&pkg, None).ok().unwrap();
    assert!(artifact.integrity.is_none());
    assert!(artifact.package.is_none());
    assert_eq!(artifact.download_url, "git:github.com/user/repo.git");
}
