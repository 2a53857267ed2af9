pub mod client;
pub mod connection;
pub mod imap_state;
pub mod mailbox;
pub mod remote_mail;
pub mod response;
pub mod tag_generator;
pub mod transport;
