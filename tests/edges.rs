use craft::{
    AddActorPayload, InstallPackage, InstallPipe, LinkAction, LinkerPipe, NpmPackage,
    NpmResolver,
};

#[test]
fn empty_literal_is_a_bare_empty_name() {
    let pkg = InstallPackage::from_literal("", false);
    assert_eq!(pkg.name, "");
    assert_eq!(pkg.version, None);
}

#[test]
fn empty_payload_displays_empty() {
    let payload = AddActorPayload { packages: vec![], is_dev: false };
    assert_eq!(payload.to_string(), "");
}

#[test]
fn empty_packument_selects_nothing() {
    let p = NpmPackage { name: "e".to_string(), dist_tags: vec![], versions: vec![] };
    assert_eq!(NpmResolver::select_version(Some("*"), &p), None);
    assert_eq!(NpmResolver::select_version(None, &p), None);
}

#[test]
fn run_without_roots_has_no_work() {
    let mut pipe = InstallPipe::new(vec![]);
    assert!(pipe.next_package().is_none());
    assert!(pipe.into_artifacts().is_empty());
}

#[test]
fn empty_link_plan_only_creates_node_modules() {
    let plan = LinkerPipe::new(vec![], vec![InstallPackage::from_literal("ghost", false)]).plan("/c", "/p");
    assert_eq!(plan, vec![LinkAction::CreateDir { path: "/p/node_modules".to_string() }]);
}
