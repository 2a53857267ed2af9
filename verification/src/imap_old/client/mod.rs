pub mod mail;
