use vstd::prelude::*;

verus! {

/// What was asked on the command line.
#[derive(Debug)]
pub struct Cli {
    /// The subcommand; without one the status of the repositories is shown.
    pub command: Option<Commands>,
}

/// The shells that completions can be printed for.
#[derive(Clone, Copy, Debug, PartialEq, Eq)]
pub enum CompletionShell {
    Bash,
    Fish,
    Zsh,
}

/// The subcommands.
#[derive(Debug)]
pub enum Commands {
    /// Scan a directory for repositories and register them.
    Register { path: String },
    /// Unregister the repositories of the current context, or, keeping the
    /// context, those outside it.
    Unregister { keep_context: bool },
    /// Fetch in every repository.
    Fetch,
    /// Pull in every repository.
    Pull,
    /// Run a git command in every repository.
    Git { args: Vec<String> },
    /// Run any command in every repository, one after the other or all at
    /// once.
    Exec { parallel: bool, args: Vec<String> },
    /// Select the repositories that commands apply to.
    Context,
    /// Print completions for a shell.
    Completions { shell: CompletionShell, binary_name: String },
}

impl Commands {
    /// Whether the command works on the whole list rather than on the
    /// repositories that are visible: registering, unregistering and
    /// printing completions do.
    pub open spec fn spec_ignores_context(&self) -> bool {
        self is Register || self is Unregister || self is Completions
    }

    /// Whether the command works on the whole list rather than on the
    /// visible repositories alone.
    pub fn ignores_context(&self) -> (whole: bool)
        ensures
            whole == self.spec_ignores_context(),
    {
        match self {
            Commands::Register { .. } => true,
            Commands::Unregister { .. } => true,
            Commands::Completions { .. } => true,
            _ => false,
        }
    }
}

} // verus!
