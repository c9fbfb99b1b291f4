//! The commands and their options, as plain values.

pub mod http_server;
pub mod jwt;

use vstd::prelude::*;
use crate::process::jwt::JwtError;
use crate::Action;
use crate::ActionView;
use crate::CmdExector;
pub use http_server::HttpOpts;
pub use jwt::JwtSubCommand;
pub use jwt::SignClaimOpts;
pub use jwt::VerifyOpts;

verus! {

/// The command line: one command with its options.
#[derive(Debug)]
pub struct Cli {
    /// The command to run.
    pub cmd: SubCommand,
}

/// The commands.
#[derive(Debug)]
pub enum SubCommand {
    /// Serve a directory over HTTP.
    Http(HttpOpts),
    /// Sign or verify a token.
    Jwt(JwtSubCommand),
}

impl CmdExector for SubCommand {
    open spec fn leaves(&self, action: ActionView) -> bool {
        match self {
            SubCommand::Http(opts) => opts.leaves(action),
            SubCommand::Jwt(command) => command.leaves(action),
        }
    }

    open spec fn goes_through(&self) -> bool {
        match self {
            SubCommand::Http(opts) => opts.goes_through(),
            SubCommand::Jwt(command) => command.goes_through(),
        }
    }

    open spec fn is_refused(&self) -> bool {
        match self {
            SubCommand::Http(opts) => opts.is_refused(),
            SubCommand::Jwt(command) => command.is_refused(),
        }
    }

    /// Runs the command that was chosen: the file server is always set up,
    /// and a token command goes as the command itself says.
    fn execute(&self) -> (done: Result<Action, JwtError>) {
        match self {
            SubCommand::Http(opts) => opts.execute(),
            SubCommand::Jwt(command) => command.execute(),
        }
    }
}

} // verus!
