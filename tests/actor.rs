use craft::{
    Actor, AddActorPayload, AddPackageActor, CleanCacheActor, CleanCacheActorPayload, CleanStep,
    InstallActor, RemoveActorPayload, RemovePackageActor, ResolvedArtifact, RunScriptActor,
    RunScriptActorPayload,
};

fn artifact(name: &str, version: &str) -> ResolvedArtifact {
    ResolvedArtifact {
        name: name.to_string(),
        version: version.to_string(),
        download_url: format!("https://registry.npmjs.org/{}/-/{}-{}.tgz", name, name, version),
        integrity: None,
        package: None,
    }
}

fn pair(a: &str, b: &str) -> (String, String) {
    (a.to_string(), b.to_string())
}

#[test]
fn test_add_actor_payload_display() {
    let payload = AddActorPayload {
        packages: vec!["react".to_string(), "lodash".to_string()],
        is_dev: false,
    };

    assert_eq!(payload.to_string(), "react lodash");
}

#[test]
fn test_add_actor_creation() {
    let payload = AddActorPayload {
        packages: vec!["test".to_string()],
        is_dev: true,
    };

    let actor = AddPackageActor::with(payload);
    assert_eq!(actor.payload.packages.len(), 1);
    assert_eq!(actor.payload.is_dev, true);
}

#[test]
fn test_clean_cache_actor_without_force() {
    let payload = CleanCacheActorPayload { force: false };

    let actor = CleanCacheActor::with(payload);
    assert!(!actor.payload.force);
}

#[test]
fn test_install_actor_creation() {
    let actor = InstallActor::with(());
    drop(actor);
}

#[test]
fn test_remove_actor_payload_creation() {
    let payload = RemoveActorPayload {
        packages: vec!["test".to_string()],
    };

    assert_eq!(payload.packages.len(), 1);
}

#[test]
fn test_run_script_actor_payload_display() {
    let payload = RunScriptActorPayload {
        script: "echo".to_string(),
        args: vec!["test".to_string()],
    };

    assert_eq!(payload.to_string(), "echo test");
}

#[test]
fn test_run_script_actor_creation() {
    let payload = RunScriptActorPayload {
        script: "craft".to_string(),
        args: vec!["test".to_string()],
    };

    let actor = RunScriptActor::with(payload);
    assert_eq!(actor.payload.script, "craft");
    assert_eq!(actor.payload.args, vec!["test"]);
}

#[test]
fn add_writes_caret_of_resolved_version() {
    let actor = AddPackageActor::with(AddActorPayload {
        packages: vec!["react@17.0.2".to_string(), "missing".to_string()],
        is_dev: false,
    });
    let requested = actor.requested();
    assert_eq!(requested.len(), 2);
    assert_eq!(requested[0].name, "react");
    assert_eq!(requested[0].version, Some("17.0.2".to_string()));
    let arts = vec![artifact("loose-envify", "1.4.0"), artifact("react", "17.0.2")];
    let mut deps = vec![pair("lodash", "^4.17.21"), pair("react", "^16.0.0")];
    actor.record_added(&arts, &mut deps);
    assert_eq!(deps, vec![pair("lodash", "^4.17.21"), pair("react", "^17.0.2")]);
}

#[test]
fn add_dev_appends_new_entry() {
    let actor = AddPackageActor::with(AddActorPayload {
        packages: vec!["typescript@5.0.0".to_string()],
        is_dev: true,
    });
    assert!(actor.requested()[0].is_dev);
    let mut dev = Vec::new();
    actor.record_added(&vec![artifact("typescript", "5.0.0")], &mut dev);
    assert_eq!(dev, vec![pair("typescript", "^5.0.0")]);
}

#[test]
fn remove_drops_names_from_both_maps() {
    let actor = RemovePackageActor::with(RemoveActorPayload {
        packages: vec!["react".to_string(), "typescript".to_string()],
    });
    let mut deps = vec![pair("react", "^19.0.0"), pair("lodash", "^4.17.21")];
    let mut dev = vec![pair("typescript", "^5.0.0")];
    actor.remove_from(&mut deps);
    actor.remove_from(&mut dev);
    assert_eq!(deps, vec![pair("lodash", "^4.17.21")]);
    assert!(dev.is_empty());
    assert_eq!(
        actor.module_paths("/p"),
        vec!["/p/node_modules/react".to_string(), "/p/node_modules/typescript".to_string()]
    );
}

#[test]
fn remove_of_missing_package_changes_nothing() {
    let actor = RemovePackageActor::with(RemoveActorPayload {
        packages: vec!["nonexistent-package".to_string()],
    });
    let mut deps = vec![pair("react", "^19.0.0")];
    actor.remove_from(&mut deps);
    assert_eq!(deps, vec![pair("react", "^19.0.0")]);
}

#[test]
fn run_prefers_manifest_script_then_binary() {
    let actor = RunScriptActor::with(RunScriptActorPayload {
        script: "build".to_string(),
        args: vec!["--watch".to_string(), "-v".to_string()],
    });
    let scripts = Some(vec![pair("build", "tsc -p .")]);
    assert_eq!(actor.lookup_script(&scripts, true, "/p/node_modules/.bin/build"), "tsc -p .");
    assert_eq!(actor.bin_path("/p"), "/p/node_modules/.bin/build");
    assert_eq!(actor.lookup_script(&None, true, "/p/node_modules/.bin/build"), "/p/node_modules/.bin/build");
    assert_eq!(actor.lookup_script(&None, false, "/p/node_modules/.bin/build"), "build");
    assert_eq!(actor.command_line("tsc -p ."), "tsc -p . --watch -v");
}

#[test]
fn run_without_args_keeps_command() {
    let actor = RunScriptActor::with(RunScriptActorPayload {
        script: "test".to_string(),
        args: vec![],
    });
    assert_eq!(actor.command_line("jest"), "jest");
}

#[test]
fn cache_clean_requires_force() {
    let ask = CleanCacheActor::with(CleanCacheActorPayload { force: false });
    assert_eq!(ask.decide(true), CleanStep::AskForForce);
    let force = CleanCacheActor::with(CleanCacheActorPayload { force: true });
    assert_eq!(force.decide(true), CleanStep::Wipe);
    assert_eq!(force.decide(false), CleanStep::Create);
}

#[test]
fn install_lists_dependencies_then_dev_dependencies() {
    let deps = Some(vec![pair("react", "^18.0.0")]);
    let dev = Some(vec![pair("typescript", "^5.0.0")]);
    let pkgs = InstallActor::packages_of(&deps, &dev);
    assert_eq!(pkgs.len(), 2);
    assert_eq!(pkgs[0].name, "react");
    assert_eq!(pkgs[0].version, Some("^18.0.0".to_string()));
    assert!(!pkgs[0].is_dev);
    assert_eq!(pkgs[1].name, "typescript");
    assert!(pkgs[1].is_dev);
    assert!(InstallActor::packages_of(&None, &None).is_empty());
}
