//! A package manager core: package specifications, registry version
//! selection, the install and link planners, and the lockfile model.
pub mod actor;
pub mod assoc;
pub mod cache;
pub mod claims;
pub mod cli;
pub mod dependency;
pub mod errors;
pub mod git;
pub mod install;
pub mod linker;
pub mod lockfile;
pub mod manager;
pub mod npm;
pub mod package;
pub mod process;
pub mod range_text;
pub mod resolved;
pub mod resolver;
pub mod semver;
pub mod text;

pub use actor::{
    Actor, AddActorPayload, AddPackageActor, CleanCacheActor, CleanCacheActorPayload, CleanStep,
    InstallActor, RemoveActorPayload, RemovePackageActor, RunScriptActor, RunScriptActorPayload,
};
pub use cli::{CacheCommands, Cli, Commands};
pub use dependency::DependencySpec;
pub use errors::PipelineError;
pub use git::GitResolver;
pub use install::InstallPipe;
pub use linker::{LinkAction, LinkerPipe};
pub use lockfile::{Lockfile, LockfileGeneratorPipe, PackageEntry};
pub use manager::{CraftManager, ProgressMessage, CRAFT_VERBOSE};
pub use npm::NpmResolver;
pub use package::{InstallPackage, NpmPackage, PackageBin, PackageDist, PackageJson};
pub use process::Process;
pub use resolved::{DownloadArtifact, ResolvedArtifact};
pub use resolver::{DownloadStep, Resolver};
