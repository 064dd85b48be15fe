//! The command model and its normalisation.
use vstd::prelude::*;
use vstd::string::*;
use crate::package::copy_strings;

verus! {

/// The parsed command line.
#[derive(Debug)]
pub struct Cli {
    pub command: Option<Commands>,
    pub verbose: bool,
}

/// The subcommands.
#[derive(Debug, PartialEq)]
pub enum Commands {
    Add { packages: Vec<String>, dev: bool },
    Remove { packages: Vec<String> },
    Run { script: String, args: Vec<String> },
    Cache { command: CacheCommands },
    Start,
    Test,
    Install,
    External(Vec<String>),
}

/// The subcommands of `cache`.
#[derive(Debug, PartialEq, Clone, Copy)]
pub enum CacheCommands {
    Clean { force: bool },
}

/// `r` is what `c` normalises to: no command and an empty external command
/// mean `install`, `test` means `run test`, an external command `x a..`
/// means `run x a..`, and every other command stays as it is.
pub open spec fn normalizes_to(c: Option<Commands>, r: Commands) -> bool {
    match c {
        None => r is Install,
        Some(Commands::Add { packages, dev }) => r matches Commands::Add { packages: p, dev: d }
            && p@ == packages@ && d == dev,
        Some(Commands::Remove { packages }) => r matches Commands::Remove { packages: p }
            && p@ == packages@,
        Some(Commands::Run { script, args }) => r matches Commands::Run { script: s, args: a }
            && s@ == script@ && a@ == args@,
        Some(Commands::Cache { command }) => r matches Commands::Cache { command: c2 } && c2
            == command,
        Some(Commands::Start) => r is Start,
        Some(Commands::Test) => r matches Commands::Run { script: s, args: a } && s@ == "test"@
            && a@.len() == 0,
        Some(Commands::Install) => r is Install,
        Some(Commands::External(args)) => if args@.len() == 0 {
            r is Install
        } else {
            r matches Commands::Run { script: s, args: a } && s@ == args@[0]@ && a@ == args@.subrange(
                1,
                args@.len() as int,
            )
        },
    }
}

impl Cli {
    /// The command to carry out.
    pub fn normalize(&self) -> (r: Commands)
        ensures
            normalizes_to(self.command, r),
    {
        match &self.command {
            Some(cmd) => match cmd {
                Commands::Add { packages, dev } => Commands::Add {
                    packages: copy_strings(packages),
                    dev: *dev,
                },
                Commands::Remove { packages } => Commands::Remove { packages: copy_strings(packages) },
                Commands::Run { script, args } => Commands::Run {
                    script: script.clone(),
                    args: copy_strings(args),
                },
                Commands::Cache { command } => Commands::Cache { command: *command },
                Commands::Start => Commands::Start,
                Commands::Test => Commands::Run {
                    script: String::from_str("test"),
                    args: Vec::new(),
                },
                Commands::Install => Commands::Install,
                Commands::External(args) => {
                    if args.len() > 0 {
                        let mut rest: Vec<String> = Vec::new();
                        let mut i: usize = 1;
                        while i < args.len()
                            invariant
                                1 <= i <= args@.len(),
                                rest@ == args@.subrange(1, i as int),
                            decreases args.len() - i,
                        {
                            rest.push(args[i].clone());
                            i += 1;
                            assert(rest@ =~= args@.subrange(1, i as int));
                        }
                        Commands::Run { script: args[0].clone(), args: rest }
                    } else {
                        Commands::Install
                    }
                },
            },
            None => Commands::Install,
        }
    }
}

} // verus!
