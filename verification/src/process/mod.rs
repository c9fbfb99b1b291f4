//! What the commands do once their options are known.

pub mod brackets;
pub mod http_server;
pub mod jwt;
pub mod listing;
pub mod markup;

pub use jwt::process_decode_jwt;
pub use jwt::process_encode_jwt;
