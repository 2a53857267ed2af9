//! How to log in to the server.
use vstd::prelude::*;
use crate::config::{command_line, is_split_command};

verus! {

/// Logging in with a user name and a password that a command prints.
pub struct PlainAuthConfig {
    user: String,
    password_cmd: String,
}

impl PlainAuthConfig {
    pub closed spec fn spec_user(&self) -> Seq<char> {
        self.user@
    }

    pub closed spec fn spec_password_cmd(&self) -> Seq<char> {
        self.password_cmd@
    }

    /// The settings made of the given parts.
    pub fn new(user: String, password_cmd: String) -> (r: Self)
        ensures
            r.spec_user() == user@,
            r.spec_password_cmd() == password_cmd@,
    {
        PlainAuthConfig { user, password_cmd }
    }

    pub fn user(&self) -> (r: &String)
        ensures
            r@ == self.spec_user(),
    {
        &self.user
    }

    /// The program to run for the password, and its arguments.
    pub fn password_command(&self) -> (r: (String, Vec<String>))
        ensures
            is_split_command(self.spec_password_cmd(), r.0@, r.1@.map_values(|p: String| p@)),
    {
        command_line(self.password_cmd.as_str())
    }
}

/// How to log in.
pub enum AuthConfig {
    Plain(PlainAuthConfig),
}

} // verus!
