//! The command line of the server, as far as start-up depends on it.

use crate::config::DEFAULT_CONFIG;
use vstd::prelude::*;

verus! {

/// What the server is asked to do besides starting.
#[derive(Clone, Copy, Debug, PartialEq, Eq, Structural)]
pub enum Commands {
    /// Provision the database before serving.
    Init,
}

/// The parsed command line.
#[derive(Clone, Debug, PartialEq, Eq)]
pub struct Cli {
    /// Path of a custom configuration file.
    pub config: Option<String>,
    /// The subcommand, if one was given.
    pub command: Option<Commands>,
}

impl Cli {
    /// The path at which the configuration file is looked for: the one given
    /// on the command line, else [`DEFAULT_CONFIG`].
    pub fn config_path(&self) -> (path: String)
        ensures
            path@ == match self.config {
                Some(custom) => custom@,
                None => DEFAULT_CONFIG@,
            },
    {
        match &self.config {
            Some(custom) => custom.clone(),
            None => DEFAULT_CONFIG.to_owned(),
        }
    }

    /// Whether the database is to be provisioned.
    pub fn provisions(&self) -> (wanted: bool)
        ensures
            wanted <==> self.command matches Some(Commands::Init),
    {
        match self.command {
            Some(Commands::Init) => true,
            None => false,
        }
    }
}

} // verus!
