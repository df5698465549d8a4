//! Command-line surface of the manager, as plain data.
//!
//! Argument parsing itself is done outside this crate; the parsed commands are
//! handed in as these values.

use vstd::prelude::*;

verus! {

/// A full invocation: one command plus the path of the configuration file.
pub struct Cli {
    pub command: Commands,
    pub config: String,
}

/// The commands the manager understands.
pub enum Commands {
    /// Build (unless told otherwise) and (re)start one declared container.
    Run(Run),
    /// Build one declared container's image, without running it.
    Build(Build),
    /// Show live and declared containers matching a pattern.
    Status(Status),
    /// Stop live containers matching a pattern.
    Stop(Stop),
    /// Emit a shell-completion script.
    Completion(Completion),
    /// Run once, then rebuild and restart on build-context changes.
    Watch(Run),
}

/// Arguments shared by the build-like commands.
pub struct Common {
    /// The name assigned to the container in the configuration.
    pub container: String,
    /// Build the image without using cached layers.
    pub no_cache: bool,
}

/// Arguments of the build command.
pub struct Build {
    pub common: Common,
}

/// Arguments of the run and watch commands.
pub struct Run {
    pub common: Common,
    /// Run the container without rebuilding its image first.
    pub no_rebuild: bool,
}

/// Arguments of the status command.
pub struct Status {
    /// Show only containers whose name matches this pattern.
    pub pattern: String,
}

/// Arguments of the stop command.
pub struct Stop {
    /// Stop only containers whose name matches this pattern.
    pub pattern: String,
}

/// Arguments of the completion command.
pub struct Completion {
    /// The shell to generate completions for.
    pub shell: String,
}

} // verus!
