pub mod cli;
pub mod client;
pub mod config;
pub mod imap;
pub mod imap_old;
pub mod logging;
pub mod text;
