//! The typed arguments of the operations, one struct per subcommand.

use vstd::prelude::*;

verus! {

/// The subcommands.
#[derive(Debug)]
pub enum Commands {
    Command(CmdCommand),
    Default(CmdDefault),
    Get(CmdGet),
    Ls(CmdLs),
    Mv(CmdMv),
    Rm(CmdRm),
    /// The subcommand `set`.
    Assign(CmdSet),
}

/// Reads, or with `command` sets, the command that belongs to an alias.
#[derive(Debug)]
pub struct CmdCommand {
    pub alias: String,
    pub command: Option<String>,
}

/// Reads the default alias, or with `alias` sets it.
#[derive(Debug)]
pub struct CmdDefault {
    pub alias: Option<String>,
}

/// Shows what an alias leads to.
#[derive(Debug)]
pub struct CmdGet {
    pub alias: String,
}

/// Lists the aliases. `all` and `remote_only` are not meant to be given
/// together; where both are, the listing is that of `remote_only`.
#[derive(Debug)]
pub struct CmdLs {
    pub show_paths: bool,
    pub all: bool,
    pub remote_only: bool,
}

/// Renames an alias.
#[derive(Debug)]
pub struct CmdMv {
    pub alias_from: String,
    pub alias_to: String,
    pub force: bool,
}

/// Removes an alias.
#[derive(Debug)]
pub struct CmdRm {
    pub alias: String,
}

/// Binds an alias to a path. Without `alias` the last segment of the working
/// directory names it; without `path` the working directory is bound.
#[derive(Debug)]
pub struct CmdSet {
    pub alias: Option<String>,
    pub path: Option<String>,
    pub force: bool,
    pub remote: Option<String>,
}

} // verus!
