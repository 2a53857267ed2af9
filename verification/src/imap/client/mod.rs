pub mod auth;
pub mod authenticated;
pub mod capability;
pub mod client;
pub mod commands;
pub mod mail;
pub mod mailbox;
pub mod not_authenticated;
pub mod selected;
