use craft::{InstallPackage, LinkAction, LinkerPipe, PackageBin, PackageJson, ResolvedArtifact};

fn artifact(name: &str, version: &str, deps: &[(&str, &str)], bin: Option<PackageBin>) -> ResolvedArtifact {
    let mut m = PackageJson::empty();
    m.name = Some(name.to_string());
    m.version = Some(version.to_string());
    if !deps.is_empty() {
        m.dependencies = Some(deps.iter().map(|(n, r)| (n.to_string(), r.to_string())).collect());
    }
    m.bin = bin;
    ResolvedArtifact {
        name: name.to_string(),
        version: version.to_string(),
        download_url: "http://example.com".to_string(),
        integrity: Some("sha512-test".to_string()),
        package: Some(m),
    }
}

fn link(target: &str, at: &str) -> LinkAction {
    LinkAction::Symlink { target: target.to_string(), link: at.to_string() }
}

fn dir(path: &str) -> LinkAction {
    LinkAction::CreateDir { path: path.to_string() }
}

fn exec(path: &str) -> LinkAction {
    LinkAction::MakeExecutable { path: path.to_string() }
}

#[test]
fn root_package_is_linked_to_its_cache_entry() {
    let react = artifact("react", "17.0.2", &[], None);
    let pipe = LinkerPipe::new(
        vec![react],
        vec![InstallPackage::from_literal("react@17.0.2", false)],
    );
    let plan = pipe.plan("/c", "/p");
    assert_eq!(
        plan,
        vec![dir("/p/node_modules"), link("/c/react-17.0.2/package", "/p/node_modules/react")]
    );
}

#[test]
fn bin_string_is_exposed_under_package_name() {
    let pkg = artifact("test-pkg", "1.0.0", &[], Some(PackageBin::String("cli.js".to_string())));
    let pipe = LinkerPipe::new(
        vec![pkg],
        vec![InstallPackage::new("test-pkg".to_string(), Some("1.0.0".to_string()), false)],
    );
    let plan = pipe.plan("/c", "/p");
    assert_eq!(
        plan,
        vec![
            dir("/p/node_modules"),
            link("/c/test-pkg-1.0.0/package", "/p/node_modules/test-pkg"),
            dir("/p/node_modules/.bin"),
            link("/p/node_modules/test-pkg/cli.js", "/p/node_modules/.bin/test-pkg"),
            exec("/p/node_modules/test-pkg/cli.js"),
        ]
    );
}

#[test]
fn typescript_dev_exposes_tsc() {
    let bins = PackageBin::Named(vec![
        ("tsc".to_string(), "bin/tsc".to_string()),
        ("tsserver".to_string(), "bin/tsserver".to_string()),
    ]);
    let ts = artifact("typescript", "5.0.0", &[], Some(bins));
    let pipe = LinkerPipe::new(vec![ts], vec![InstallPackage::from_literal("typescript@5.0.0", true)]);
    let plan = pipe.plan("/c", "/p");
    assert!(plan.contains(&link("/c/typescript-5.0.0/package", "/p/node_modules/typescript")));
    assert!(plan.contains(&link("/p/node_modules/typescript/bin/tsc", "/p/node_modules/.bin/tsc")));
    assert!(plan.contains(&link("/p/node_modules/typescript/bin/tsserver", "/p/node_modules/.bin/tsserver")));
}

#[test]
fn dependencies_are_hydrated_with_best_match() {
    let a = artifact("a", "1.0.0", &[("b", "^1.0.0"), ("missing", "*")], None);
    let b1 = artifact("b", "1.2.0", &[], None);
    let b2 = artifact("b", "1.5.0", &[], None);
    let b3 = artifact("b", "2.0.0", &[], None);
    let pipe = LinkerPipe::new(vec![a, b1, b2, b3], vec![]);
    let plan = pipe.plan("/c", "/p");
    assert_eq!(
        plan,
        vec![
            dir("/p/node_modules"),
            dir("/c/a-1.0.0/package/node_modules"),
            link("/c/b-1.5.0/package", "/c/a-1.0.0/package/node_modules/b"),
        ]
    );
}

#[test]
fn root_without_range_takes_highest_version() {
    let pipe = LinkerPipe::new(
        vec![artifact("b", "1.2.0", &[], None), artifact("b", "1.10.0", &[], None)],
        vec![InstallPackage::from_literal("b", false)],
    );
    let plan = pipe.plan("/c", "/p");
    assert_eq!(plan[1], link("/c/b-1.10.0/package", "/p/node_modules/b"));
}

#[test]
fn alias_root_is_not_linked_under_alias_name() {
    let wrap = artifact("wrap-ansi", "7.0.0", &[], None);
    let pipe = LinkerPipe::new(
        vec![wrap],
        vec![InstallPackage::new(
            "wrap-ansi-cjs".to_string(),
            Some("npm:wrap-ansi@^7.0.0".to_string()),
            false,
        )],
    );
    let plan = pipe.plan("/c", "/p");
    assert_eq!(plan, vec![dir("/p/node_modules")]);
}

#[test]
fn relinking_yields_the_same_target() {
    let lodash = artifact("lodash", "4.17.21", &[], None);
    let pipe = LinkerPipe::new(vec![lodash], vec![InstallPackage::from_literal("lodash@4.17.21", false)]);
    assert_eq!(pipe.plan("/c", "/p"), pipe.plan("/c", "/p"));
    assert_eq!(pipe.plan("/c", "/p")[1], link("/c/lodash-4.17.21/package", "/p/node_modules/lodash"));
}

#[test]
fn hydration_with_unparseable_dependency_range_does_not_panic() {
    let a = artifact("a", "1.0.0", &[("b", "~*")], None);
    let b = artifact("b", "1.5.0", &[], None);
    let plan = LinkerPipe::new(vec![a, b], vec![]).plan("/c", "/p");
    assert!(plan.contains(&link("/c/b-1.5.0/package", "/c/a-1.0.0/package/node_modules/b")));
}
