//! The commands of the gateway.

use vstd::prelude::*;

use crate::config::watch::{source_of, ConfigSource};

verus! {

/// What the command line asks for.
#[derive(Clone, PartialEq, Eq, Debug)]
pub struct Cli {
    pub command: Command,
}

/// A command.
#[derive(Clone, PartialEq, Eq, Debug)]
pub enum Command {
    /// Run the gateway.
    Serve { config: String, config_dir: Option<String>, gateway: Option<String> },
    /// Check the configuration.
    Check { config: String, config_dir: Option<String> },
    /// Show the configuration.
    Routes { config: String, config_dir: Option<String> },
    /// Look at the models, or refresh them.
    Models { action: ModelsAction },
    /// Probe a route.
    Test { route: String, config: String, config_dir: Option<String> },
    /// Look at a token.
    Token { action: TokenAction },
}

/// What is done with a token.
#[derive(Clone, PartialEq, Eq, Debug)]
pub enum TokenAction {
    Verify { secret: String, token: String },
}

/// What is done with the models.
#[derive(Clone, PartialEq, Eq, Debug)]
pub enum ModelsAction {
    List { provider: Option<String>, json: bool },
    Update { source: Option<String>, from_network: bool, network_url: Option<String>, out: String },
    Diff { source: Option<String>, from_network: bool, network_url: Option<String> },
}

/// The view of a place that a configuration comes from.
pub open spec fn source_view(s: ConfigSource) -> (bool, Seq<char>) {
    match s {
        ConfigSource::File(path) => (false, path@),
        ConfigSource::Dir(dir) => (true, dir@),
    }
}

/// The place that a file and a directory, where one is given, stand for.
pub open spec fn chosen(config: String, config_dir: Option<String>) -> (bool, Seq<char>) {
    match config_dir {
        Some(dir) => (true, dir@),
        None => (false, config@),
    }
}

fn choose_source(config: &String, config_dir: &Option<String>) -> (r: ConfigSource)
    ensures
        source_view(r) == chosen(*config, *config_dir),
{
    match config_dir {
        Some(dir) => source_of(config.as_str(), Some(dir.as_str())),
        None => source_of(config.as_str(), None),
    }
}

impl Command {
    /// Where the command's configuration comes from, for the commands that have one.
    pub fn source(&self) -> (r: Option<ConfigSource>)
        ensures
            match self {
                Command::Serve { config, config_dir, .. } => r is Some && source_view(r->Some_0)
                    == chosen(*config, *config_dir),
                Command::Check { config, config_dir } => r is Some && source_view(r->Some_0)
                    == chosen(*config, *config_dir),
                Command::Routes { config, config_dir } => r is Some && source_view(r->Some_0)
                    == chosen(*config, *config_dir),
                Command::Test { config, config_dir, .. } => r is Some && source_view(r->Some_0)
                    == chosen(*config, *config_dir),
                Command::Models { .. } => r is None,
                Command::Token { .. } => r is None,
            },
    {
        match self {
            Command::Serve { config, config_dir, .. } => Some(choose_source(config, config_dir)),
            Command::Check { config, config_dir } => Some(choose_source(config, config_dir)),
            Command::Routes { config, config_dir } => Some(choose_source(config, config_dir)),
            Command::Test { config, config_dir, .. } => Some(choose_source(config, config_dir)),
            Command::Models { .. } => None,
            Command::Token { .. } => None,
        }
    }
}

} // verus!
