pub mod fetch;
pub mod idle;
pub mod mailbox;
pub mod select;
