//! A local file server's request logic and a signed-token utility.
//!
//! The file server answers a request for a path below the directory it
//! serves: with the content of a file, with a page that lists a directory,
//! or with the news that nothing is there. What it reads from the file
//! system is handed in by the caller; what it decides and what it sends back
//! is stated and proved here. The token utility signs a claim into a JSON
//! Web Token and reads one back.

pub mod cli;
pub mod process;
pub mod text;
pub mod utils;

use vstd::prelude::*;
pub use cli::Cli;
pub use cli::HttpOpts;
pub use cli::JwtSubCommand;
pub use cli::SignClaimOpts;
pub use cli::SubCommand;
pub use cli::VerifyOpts;
pub use process::http_server::file_handler;
pub use process::http_server::respond;
pub use process::http_server::HttpServeState;
pub use process::http_server::HttpServeStateView;
pub use process::http_server::ResolvedTarget;
pub use process::http_server::Response;
pub use process::http_server::Step;
pub use process::jwt::Claims;
pub use process::jwt::ClaimsView;
pub use process::jwt::JwtError;
pub use process::listing::render_html;
pub use process::listing::FilePath;
pub use process::process_decode_jwt;
pub use process::process_encode_jwt;
pub use utils::verify_path;

verus! {

/// What a command leaves to be done once it has run as far as it can on its
/// own, as a mathematical value.
pub enum ActionView {
    /// Requests are to be served against this state.
    Serve(HttpServeStateView),
    /// This token is to be shown.
    ShowToken(Seq<char>),
    /// This claim is to be shown.
    ShowClaims(ClaimsView),
}

/// What a command leaves to be done once it has run as far as it can on its
/// own: to listen and serve, or to show a result.
#[derive(Debug)]
pub enum Action {
    /// Requests are to be served against this state.
    Serve(HttpServeState),
    /// This token is to be shown.
    ShowToken(String),
    /// This claim is to be shown.
    ShowClaims(Claims),
}

impl View for Action {
    type V = ActionView;

    open spec fn view(&self) -> ActionView {
        match self {
            Action::Serve(state) => ActionView::Serve(state@),
            Action::ShowToken(token) => ActionView::ShowToken(token@),
            Action::ShowClaims(claims) => ActionView::ShowClaims(claims@),
        }
    }
}

/// A command that can be run.
pub trait CmdExector {
    /// Whether `action` is something that this command can leave to be done.
    spec fn leaves(&self, action: ActionView) -> bool;

    /// Whether the command is certain to go through, so that something is
    /// left to be done.
    spec fn goes_through(&self) -> bool;

    /// Whether the command is certain to be refused.
    spec fn is_refused(&self) -> bool;

    /// Runs the command as far as it goes without listening or printing, and
    /// says what is left to be done. A command that is certain to go through
    /// does; one that is certain to be refused fails with the reason that
    /// was given for the refusal.
    fn execute(&self) -> (done: Result<Action, JwtError>)
        ensures
            done matches Ok(action) ==> self.leaves(action@),
            self.goes_through() ==> done is Ok,
            self.is_refused() ==> (done matches Err(reason) && reason is Rejected),
    ;
}

} // verus!
