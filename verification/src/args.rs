//! The arguments that every command takes, and those of the query command.

use vstd::prelude::*;

verus! {

/// The arguments that every command takes.
#[derive(Debug, Clone)]
pub struct BaseArgs {
    /// Output as JSON.
    pub json: bool,
    /// Override the active project.
    pub project: Option<String>,
    /// Override the stored API key.
    pub api_key: Option<String>,
    /// Override the API URL.
    pub api_url: Option<String>,
    /// Override the app URL.
    pub app_url: Option<String>,
}

/// The arguments of a command together with those that every command takes.
#[derive(Debug, Clone)]
pub struct CLIArgs<T> {
    pub base: BaseArgs,
    pub args: T,
}

/// The arguments of the query command.
#[derive(Debug, Clone)]
pub struct SqlArgs {
    /// The query to run; without one, the interactive session starts.
    pub query: Option<String>,
}

} // verus!
