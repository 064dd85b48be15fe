//! The command dispatcher's own state, and the progress messages that the
//! pipeline reports.
use vstd::prelude::*;

verus! {

/// The environment variable that turns on trace output.
pub const CRAFT_VERBOSE: &'static str = "CRAFT_VERBOSE";

/// Dispatches normalised commands to their actors.
pub struct CraftManager;

impl CraftManager {
    pub fn new() -> (r: Self) {
        CraftManager
    }
}

/// A message to the progress display.
#[derive(Debug)]
pub enum ProgressMessage {
    Inc(u64),
    SetLength(u64),
    SetMessage(String),
    Println(String),
    Finish(String),
    Fail(String),
}

impl Default for CraftManager {
    fn default() -> (r: Self) {
        CraftManager::new()
    }
}

} // verus!
