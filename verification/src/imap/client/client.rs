//! Logging in, for a client over any connection.
pub use crate::imap::client::auth::client::{login_command, login_outcome, LoginError};
