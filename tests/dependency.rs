use craft::{DependencySpec, InstallPackage};

#[test]
fn test_parse_regular_version() {
    let spec = DependencySpec::parse("react", Some("^18.0.0"));
    assert_eq!(spec.package_name, "react");
    assert_eq!(spec.version, Some("^18.0.0".to_string()));
}

#[test]
fn test_parse_no_version() {
    let spec = DependencySpec::parse("react", None);
    assert_eq!(spec.package_name, "react");
    assert_eq!(spec.version, None);
}

#[test]
fn test_parse_npm_alias_with_version() {
    let spec = DependencySpec::parse("wrap-ansi-cjs", Some("npm:wrap-ansi@^7.0.0"));
    assert_eq!(spec.package_name, "wrap-ansi");
    assert_eq!(spec.version, Some("^7.0.0".to_string()));
}

#[test]
fn test_parse_npm_alias_without_version() {
    let spec = DependencySpec::parse("my-alias", Some("npm:actual-package"));
    assert_eq!(spec.package_name, "actual-package");
    assert_eq!(spec.version, None);
}

#[test]
fn test_parse_complex_npm_alias() {
    let spec = DependencySpec::parse("string-width-cjs", Some("npm:string-width@^4.2.0"));
    assert_eq!(spec.package_name, "string-width");
    assert_eq!(spec.version, Some("^4.2.0".to_string()));
}

#[test]
fn test_from_install_package() {
    let package = InstallPackage::new("react".to_string(), Some("^18.0.0".to_string()), false);
    let spec: DependencySpec = (&package).into();
    assert_eq!(spec.package_name, "react");
    assert_eq!(spec.version, Some("^18.0.0".to_string()));
}

#[test]
fn test_from_install_package_with_alias() {
    let package = InstallPackage::new(
        "wrap-ansi-cjs".to_string(),
        Some("npm:wrap-ansi@^7.0.0".to_string()),
        false,
    );
    let spec: DependencySpec = (&package).into();
    assert_eq!(spec.package_name, "wrap-ansi");
    assert_eq!(spec.version, Some("^7.0.0".to_string()));
}

#[test]
fn alias_with_empty_range_keeps_empty_range() {
    let spec = DependencySpec::parse("x", Some("npm:real@"));
    assert_eq!(spec.package_name, "real");
    assert_eq!(spec.version, Some(String::new()));
}
