//! A client that has connected and not yet logged in.
use vstd::prelude::*;
use crate::imap::client::capability::{
    announced, announced_set, auth_capability, AuthCapabilities, AuthCapability, Capabilities,
};
use crate::imap::response::{Response, ResponseCode, ResponseStatus, ServerCapability};
use crate::config::auth::PlainAuthConfig;
use crate::imap::client::auth::client::login_command;

verus! {

/// The known authentication mechanisms among a list of announcements.
pub open spec fn announced_auth(caps: Seq<ServerCapability>) -> Set<AuthCapability> {
    Set::new(|c: AuthCapability| exists|i: int| 0 <= i < caps.len() && (#[trigger] caps[i]) is Auth && auth_capability(caps[i]->Auth_0@) == Some(c))
}

/// Records announced capabilities: `AUTH=` announcements among the
/// authentication mechanisms, the others among the capabilities.
pub fn update_capabilities(
    capabilities: &mut Capabilities,
    auth_capabilities: &mut AuthCapabilities,
    caps: &[ServerCapability],
)
    ensures
        final(capabilities)@ == old(capabilities)@.union(announced_set(caps@)),
        final(auth_capabilities)@ == old(auth_capabilities)@.union(announced_auth(caps@)),
{
    let mut k: usize = 0;
    while k < caps.len()
        invariant
            k <= caps@.len(),
            capabilities@ == old(capabilities)@.union(announced_set(caps@.subrange(0, k as int))),
            auth_capabilities@ == old(auth_capabilities)@.union(announced_auth(caps@.subrange(0, k as int))),
        decreases caps@.len() - k,
    {
        let cap = &caps[k];
        match cap {
            ServerCapability::Auth(_) => auth_capabilities.insert(cap),
            _ => capabilities.insert(cap),
        }
        proof {
            let done = caps@.subrange(0, k as int);
            let now = caps@.subrange(0, k + 1);
            assert forall|c| #[trigger] announced_set(now).contains(c) <==> (announced_set(done).contains(c)
                || announced(caps@[k as int]) == Some(c)) by {
                if announced_set(done).contains(c) {
                    let i = choose|i: int| 0 <= i < done.len() && announced(#[trigger] done[i]) == Some(c);
                    assert(now[i] == done[i]);
                }
                if announced(caps@[k as int]) == Some(c) {
                    assert(now[k as int] == caps@[k as int]);
                }
                if announced_set(now).contains(c) {
                    let i = choose|i: int| 0 <= i < now.len() && announced(#[trigger] now[i]) == Some(c);
                    if i < k {
                        assert(done[i] == now[i]);
                    }
                }
            }
            assert forall|c| #[trigger] announced_auth(now).contains(c) <==> (announced_auth(done).contains(c)
                || (caps@[k as int] is Auth && auth_capability(caps@[k as int]->Auth_0@) == Some(c))) by {
                if announced_auth(done).contains(c) {
                    let i = choose|i: int| 0 <= i < done.len() && (#[trigger] done[i]) is Auth && auth_capability(done[i]->Auth_0@) == Some(c);
                    assert(now[i] == done[i]);
                }
                if caps@[k as int] is Auth && auth_capability(caps@[k as int]->Auth_0@) == Some(c) {
                    assert(now[k as int] == caps@[k as int]);
                }
                if announced_auth(now).contains(c) {
                    let i = choose|i: int| 0 <= i < now.len() && (#[trigger] now[i]) is Auth && auth_capability(now[i]->Auth_0@) == Some(c);
                    if i < k {
                        assert(done[i] == now[i]);
                    }
                }
            }
            assert(capabilities@ =~= old(capabilities)@.union(announced_set(now)));
            assert(auth_capabilities@ =~= old(auth_capabilities)@.union(announced_auth(now)));
        }
        k = k + 1;
    }
    assert(caps@.subrange(0, k as int) =~= caps@);
}

/// Takes in the capabilities an OK greeting lists, if its code lists them;
/// says whether it did.
pub fn take_greeting(
    greeting: &Response,
    capabilities: &mut Capabilities,
    auth_capabilities: &mut AuthCapabilities,
) -> (r: bool)
    requires
        greeting matches Response::Data { status: ResponseStatus::Okay, .. },
    ensures
        r == greeting->Data_code matches Some(ResponseCode::Capabilities(_)),
        r ==> final(capabilities)@ == old(capabilities)@.union(
            announced_set(greeting->Data_code->0->Capabilities_0@),
        ) && final(auth_capabilities)@ == old(auth_capabilities)@.union(
            announced_auth(greeting->Data_code->0->Capabilities_0@),
        ),
        !r ==> final(capabilities)@ == old(capabilities)@ && final(auth_capabilities)@ == old(
            auth_capabilities,
        )@,
{
    match greeting {
        Response::Data { code: Some(ResponseCode::Capabilities(caps)), .. } => {
            update_capabilities(capabilities, auth_capabilities, caps.as_slice());
            true
        },
        _ => false,
    }
}

/// The LOGIN command for a plain login: `LOGIN user password`. The server
/// must offer the PLAIN mechanism.
pub fn plain_login_command(
    auth_capabilities: &AuthCapabilities,
    config: &PlainAuthConfig,
    password: &str,
) -> (r: String)
    requires
        auth_capabilities@.contains(AuthCapability::Plain),
    ensures
        r@ == "LOGIN "@ + config.spec_user() + " "@ + password@,
{
    login_command(config.user().as_str(), password)
}

/// Takes in the capabilities that the server's OK answer to LOGIN lists in
/// its code, if it lists them; says whether it did (else the client asks
/// for them with CAPABILITY).
pub fn take_login_answer(
    answer: &Response,
    capabilities: &mut Capabilities,
    auth_capabilities: &mut AuthCapabilities,
) -> (r: bool)
    requires
        answer matches Response::Done { status: ResponseStatus::Okay, .. },
    ensures
        r == answer->Done_code matches Some(ResponseCode::Capabilities(_)),
        r ==> final(capabilities)@ == old(capabilities)@.union(
            announced_set(answer->Done_code->0->Capabilities_0@),
        ) && final(auth_capabilities)@ == old(auth_capabilities)@.union(
            announced_auth(answer->Done_code->0->Capabilities_0@),
        ),
        !r ==> final(capabilities)@ == old(capabilities)@ && final(auth_capabilities)@ == old(
            auth_capabilities,
        )@,
{
    match answer {
        Response::Done { code: Some(ResponseCode::Capabilities(caps)), .. } => {
            update_capabilities(capabilities, auth_capabilities, caps.as_slice());
            true
        },
        _ => false,
    }
}

} // verus!
