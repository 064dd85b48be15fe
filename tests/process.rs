use craft::Process;

#[test]
fn builder_collects_arguments_and_environment() {
    let p = Process::new("echo")
        .arg("hello")
        .args(&["a", "b"])
        .current_dir("/tmp")
        .env("K", "V");
    assert_eq!(p.command, "echo");
    assert_eq!(p.args, vec!["hello", "a", "b"]);
    assert_eq!(p.cwd, Some("/tmp".to_string()));
    assert_eq!(p.envs, vec![("K".to_string(), "V".to_string())]);
}

#[test]
fn scripts_run_through_the_platform_shell() {
    let unix = Process::run_script("npm test", Some("/p"), false);
    assert_eq!(unix.command, "sh");
    assert_eq!(unix.args, vec!["-c", "npm test"]);
    assert_eq!(unix.cwd, Some("/p".to_string()));
    let win = Process::run_script("npm test", None, true);
    assert_eq!(win.command, "cmd");
    assert_eq!(win.args, vec!["/C", "npm test"]);
    assert_eq!(win.cwd, None);
}
