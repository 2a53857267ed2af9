//! Logging in with a user name and a password.
use vstd::prelude::*;
use crate::imap::response::{Response, ResponseStatus};

verus! {

/// The server rejected the user name or the password.
#[derive(Debug, PartialEq, Eq, Structural)]
pub struct LoginError;

impl LoginError {
    /// The message that describes the error.
    pub fn to_string(&self) -> (r: String)
        ensures
            r@ == "username or password rejected"@,
    {
        String::from_str("username or password rejected")
    }
}

/// The command that logs in: `LOGIN user password`.
pub fn login_command(username: &str, password: &str) -> (r: String)
    ensures
        r@ == "LOGIN "@ + username@ + " "@ + password@,
{
    let mut s = String::from_str("LOGIN ");
    s.append(username);
    s.append(" ");
    s.append(password);
    s
}

/// Whether a response can answer LOGIN: a completion with status OK or NO.
pub open spec fn is_login_answer(response: Response) -> bool {
    response matches Response::Done { status, .. } && (status == ResponseStatus::Okay || status
        == ResponseStatus::No)
}

/// What the answer to LOGIN means: logged in on OK, rejected on NO.
pub fn login_outcome(response: &Response) -> (r: Result<(), LoginError>)
    requires
        is_login_answer(*response),
    ensures
        r is Ok <==> response->Done_status == ResponseStatus::Okay,
{
    match response {
        Response::Done { status: ResponseStatus::Okay, .. } => Ok(()),
        _ => Err(LoginError),
    }
}

} // verus!
