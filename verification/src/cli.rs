//! The command line: global arguments, commands and their options.
//!
//! Paths are held as text.

use vstd::prelude::*;

verus! {

/// Where a deletion applies.
#[derive(Debug, Clone, Copy, PartialEq, Eq)]
pub enum DeleteScope {
    /// Only the local files and records.
    Local,
    /// Only the remote provider.
    Remote,
    /// Both the remote provider and the local copy.
    Both,
}

/// Arguments that every command accepts.
#[derive(Debug, Default)]
pub struct ConfigArgs {
    /// A configuration file to use instead of the searched locations.
    pub config_path: Option<String>,
}

/// The whole command line.
#[derive(Debug)]
pub struct Cli {
    pub config: ConfigArgs,
    pub command: Option<Commands>,
}

/// The commands.
#[derive(Debug)]
pub enum Commands {
    /// Download secrets.
    Pull {
        secret_name: Option<String>,
        edit: bool,
        print: bool,
        inject: Option<String>,
        output: Option<String>,
    },
    /// Upload local edits.
    Push { secret_name: Option<String>, edit: bool },
    /// Delete a secret.
    Delete { secret_name: Option<String>, scope: Option<DeleteScope>, force: bool },
    /// Refresh the listings of remote secrets.
    Sync,
    /// List known secrets.
    List { provider: Option<String>, local: bool },
    /// Show version history.
    History { secret_name: Option<String>, verbose: bool, limit: Option<usize>, remote: bool },
    /// Restore an earlier version.
    Rollback {
        secret_name: Option<String>,
        version: Option<i32>,
        edit: bool,
        remote: bool,
        version_id: Option<String>,
    },
    /// Export the secrets directory as an encrypted archive.
    Export { ssh_key: Option<String>, output: Option<String>, delete: bool },
    /// Import an encrypted archive.
    Import { archive: String, ssh_key: Option<String>, delete: bool },
    /// Show or change the configuration.
    Config { command: Option<ConfigCommands> },
    /// Create a secret.
    Create { name: Option<String>, description: Option<String>, file: Option<String> },
    /// Show the operation log.
    Log { limit: Option<usize>, provider: Option<String> },
    /// Remove local caches and secrets.
    Clean { force: bool, dry_run: bool, keep_local: bool },
    /// Print the version.
    Version,
}

/// Operations run directly on a remote provider.
#[derive(Debug)]
pub enum RemoteCommands {
    /// Delete a secret on the provider.
    Delete { secret_name: Option<String>, force: bool },
    /// Roll a secret back on the provider.
    Rollback { secret_name: Option<String>, version_id: Option<String> },
    /// Show the provider's version history.
    History { secret_name: Option<String> },
}

/// Configuration subcommands.
#[derive(Debug)]
pub enum ConfigCommands {
    /// Create a configuration file.
    Init { path: Option<String>, overwrite: bool, minimal: bool },
    /// Show one setting.
    Get { key: String },
    /// Remove cached credentials from the OS keychain.
    ClearCache,
    /// Change one setting.
    SetValue { key: String, value: String },
}

} // verus!
