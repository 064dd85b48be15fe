use craft::{CacheCommands, Cli, Commands};

fn cli(command: Option<Commands>) -> Cli {
    Cli { command, verbose: false }
}

#[test]
fn test_command_normalizes_to_run_test() {
    match cli(Some(Commands::Test)).normalize() {
        Commands::Run { script, args } => {
            assert_eq!(script, "test");
            assert!(args.is_empty());
        }
        _ => panic!("Expected normalized to Run"),
    }
}

#[test]
fn no_command_normalizes_to_install() {
    assert_eq!(cli(None).normalize(), Commands::Install);
    assert_eq!(cli(Some(Commands::External(vec![]))).normalize(), Commands::Install);
}

#[test]
fn external_command_normalizes_to_run() {
    let external = Commands::External(vec![
        "tsc".to_string(),
        "--version".to_string(),
        "--help".to_string(),
    ]);
    match cli(Some(external)).normalize() {
        Commands::Run { script, args } => {
            assert_eq!(script, "tsc");
            assert_eq!(args, vec!["--version", "--help"]);
        }
        _ => panic!("Expected normalized to Run"),
    }
}

#[test]
fn other_commands_stay() {
    let add = Commands::Add { packages: vec!["react".to_string()], dev: true };
    assert_eq!(
        cli(Some(add)).normalize(),
        Commands::Add { packages: vec!["react".to_string()], dev: true }
    );
    let clean = Commands::Cache { command: CacheCommands::Clean { force: true } };
    assert_eq!(
        cli(Some(clean)).normalize(),
        Commands::Cache { command: CacheCommands::Clean { force: true } }
    );
    assert_eq!(cli(Some(Commands::Start)).normalize(), Commands::Start);
    assert_eq!(cli(Some(Commands::Install)).normalize(), Commands::Install);
}

#[test]
fn test_test_command() {
    let cli = cli(Some(Commands::Test));
    assert_eq!(cli.command, Some(Commands::Test));

    let normalized = cli.normalize();
    match normalized {
        Commands::Run { script, args } => {
            assert_eq!(script, "test");
            assert!(args.is_empty());
        }
        _ => panic!("Expected normalized to Run {{ script: \"test\", args: [] }}"),
    }
}

#[test]
fn test_default_to_install() {
    let cli = cli(None);
    let normalized = cli.normalize();
    assert_eq!(normalized, Commands::Install);
}

#[test]
fn test_external_subcommand() {
    let cli = cli(Some(Commands::External(vec!["tsc".to_string()])));
    match &cli.command {
        Some(Commands::External(args)) => {
            assert_eq!(args.len(), 1);
            assert_eq!(args[0], "tsc");
        }
        _ => panic!("Expected External command"),
    }

    let normalized = cli.normalize();
    match normalized {
        Commands::Run { script, args } => {
            assert_eq!(script, "tsc");
            assert!(args.is_empty());
        }
        _ => panic!("Expected normalized to Run"),
    }
}

#[test]
fn test_external_subcommand_with_args() {
    let cli = cli(Some(Commands::External(vec![
        "tsc".to_string(),
        "--version".to_string(),
        "--help".to_string(),
    ])));
    match &cli.command {
        Some(Commands::External(args)) => {
            assert_eq!(args.len(), 3);
            assert_eq!(args[0], "tsc");
            assert_eq!(args[1], "--version");
            assert_eq!(args[2], "--help");
        }
        _ => panic!("Expected External command"),
    }

    let normalized = cli.normalize();
    match normalized {
        Commands::Run { script, args } => {
            assert_eq!(script, "tsc");
            assert_eq!(args, vec!["--version", "--help"]);
        }
        _ => panic!("Expected normalized to Run"),
    }
}

#[test]
fn test_default_command() {
    let cli = cli(None);
    assert_eq!(cli.command, None);

    let normalized = cli.normalize();
    assert_eq!(normalized, Commands::Install);
}
