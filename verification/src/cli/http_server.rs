//! The options of the file server.

use vstd::prelude::*;
use crate::process::http_server::HttpServeState;
use crate::process::http_server::HttpServeStateView;
use crate::process::jwt::JwtError;
use crate::Action;
use crate::ActionView;
use crate::CmdExector;

verus! {

/// The options of the file server: the directory to serve and the port to
/// listen on.
#[derive(Debug)]
pub struct HttpOpts {
    /// The directory to serve.
    pub path: String,
    /// The port to listen on.
    pub port: u16,
}

impl CmdExector for HttpOpts {
    open spec fn leaves(&self, action: ActionView) -> bool {
        action == ActionView::Serve(HttpServeStateView { path: self.path@, port: self.port })
    }

    open spec fn goes_through(&self) -> bool {
        true
    }

    open spec fn is_refused(&self) -> bool {
        false
    }

    /// Sets up the state to serve the directory at the port. This always
    /// succeeds.
    fn execute(&self) -> (done: Result<Action, JwtError>) {
        Ok(Action::Serve(HttpServeState { path: self.path.clone(), port: self.port }))
    }
}

} // verus!
