//! The command line of `zoxi`.
use vstd::prelude::*;

verus! {

/// `zoxi [--path DIR] <command>`.
#[derive(Debug)]
pub struct Cli {
    pub path: Option<String>,
    pub command: Command,
}

#[derive(Debug)]
pub enum Command {
    Build(RustcCommandArgs),
    Clean,
    Run(RunCommand),
    Test(RustcCommandArgs),
}

/// `-r/--release`, `-e/--env KEY=VALUE` (repeatable) and extra compiler arguments.
#[derive(Debug, Clone)]
pub struct RustcCommandArgs {
    pub release: bool,
    pub env: Vec<String>,
    pub rustc_args: Vec<String>,
}

/// The compiler arguments, then the program's arguments after `--`.
#[derive(Debug, Clone)]
pub struct RunCommand {
    pub rustc: RustcCommandArgs,
    pub app_args: Vec<String>,
}

} // verus!
