use craft::{Lockfile, LockfileGeneratorPipe, PackageEntry, PackageJson, ResolvedArtifact};

#[test]
fn new_lockfile_is_empty_v1() {
    let l = Lockfile::new();
    assert_eq!(l.version, "1.0.0");
    assert_eq!(l.package_count(), 0);
    assert!(!l.has_package("a", "1.0.0"));
}

#[test]
fn entries_are_keyed_by_name_and_version() {
    let mut l = Lockfile::new();
    let e = PackageEntry::new("test-pkg".to_string(), "1.0.0".to_string(), "http://example.com".to_string())
        .with_integrity("sha512-test".to_string())
        .with_dependencies(vec![("dep".to_string(), "^1".to_string())]);
    assert_eq!(e.key(), "test-pkg@1.0.0");
    l.add_package(e);
    assert!(l.has_package("test-pkg", "1.0.0"));
    assert!(!l.has_package("test-pkg", "1.0.1"));
    let got = l.get_package("test-pkg", "1.0.0").unwrap();
    assert_eq!(got.integrity, Some("sha512-test".to_string()));
    assert_eq!(got.dependencies, Some(vec![("dep".to_string(), "^1".to_string())]));
    assert_eq!(l.package_count(), 1);
}

#[test]
fn same_key_replaces_entry() {
    let mut l = Lockfile::new();
    l.add_package(PackageEntry::new("a".to_string(), "1.0.0".to_string(), "u1".to_string()));
    l.add_package(PackageEntry::new("a".to_string(), "1.0.0".to_string(), "u2".to_string()));
    l.add_package(PackageEntry::new("a".to_string(), "2.0.0".to_string(), "u3".to_string()));
    assert_eq!(l.package_count(), 2);
    assert_eq!(l.get_package("a", "1.0.0").unwrap().resolved, "u2");
}

#[test]
fn generator_records_one_entry_per_version() {
    let mut m = PackageJson::empty();
    m.dependencies = Some(vec![("loose-envify".to_string(), "^1.1.0".to_string())]);
    let react = ResolvedArtifact {
        name: "react".to_string(),
        version: "18.3.1".to_string(),
        download_url: "https://registry.npmjs.org/react/-/react-18.3.1.tgz".to_string(),
        integrity: Some("sha512-r".to_string()),
        package: Some(m),
    };
    let env = ResolvedArtifact {
        name: "loose-envify".to_string(),
        version: "1.4.0".to_string(),
        download_url: "u".to_string(),
        integrity: None,
        package: None,
    };
    let lock = LockfileGeneratorPipe::new(vec![react, env]).generate();
    assert_eq!(lock.version, "1.0.0");
    assert_eq!(lock.package_count(), 2);
    let r = lock.get_package("react", "18.3.1").unwrap();
    assert_eq!(r.resolved, "https://registry.npmjs.org/react/-/react-18.3.1.tgz");
    assert_eq!(r.integrity, Some("sha512-r".to_string()));
    assert_eq!(r.dependencies, Some(vec![("loose-envify".to_string(), "^1.1.0".to_string())]));
    assert!(lock.get_package("loose-envify", "1.4.0").unwrap().dependencies.is_none());
}
