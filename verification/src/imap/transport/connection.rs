//! Sorting the responses of the server between the command that waits for
//! them and the handler of untagged responses.
use vstd::prelude::*;
use crate::imap::response::{Response, ResponseStatus};

verus! {

/// How the server refused a command.
#[derive(Debug, PartialEq, Eq, Structural)]
pub enum TaggedResponseError {
    No {},
    Bad {},
}

/// Where a response goes.
#[derive(Debug)]
pub enum Routed {
    /// To the command waiting for its answer: a completion with status OK,
    /// or a continuation request.
    Answer(Response),
    /// To the command waiting for its answer, as the reason it failed.
    Refusal(TaggedResponseError),
    /// To the handler of untagged responses.
    Untagged(Response),
}

/// Whether a response is a completion with a status that a completion
/// never has (PREAUTH or BYE).
pub open spec fn is_impossible_completion(response: Response) -> bool {
    response matches Response::Done { status, .. } && (status == ResponseStatus::PreAuth
        || status == ResponseStatus::Bye)
}

/// Where a response received on a connection goes.
pub open spec fn route(response: Response) -> Routed {
    match response {
        Response::Done { status: ResponseStatus::No, .. } => Routed::Refusal(
            TaggedResponseError::No {  },
        ),
        Response::Done { status: ResponseStatus::Bad, .. } => Routed::Refusal(
            TaggedResponseError::Bad {  },
        ),
        Response::Done { .. } => Routed::Answer(response),
        Response::Continue { .. } => Routed::Answer(response),
        _ => Routed::Untagged(response),
    }
}

/// Every response that is neither a tagged completion nor a continuation
/// request goes, unchanged, to the handler of untagged responses; a
/// continuation request and an OK completion go, unchanged, to the waiting
/// command; a NO or BAD completion is its refusal.
pub proof fn lemma_routing(response: Response)
    ensures
        !(response is Done) && !(response is Continue) ==> route(response) == Routed::Untagged(
            response,
        ),
        route(response) is Untagged ==> !(response is Done) && !(response is Continue),
        response is Continue ==> route(response) == Routed::Answer(response),
        response matches Response::Done { status: ResponseStatus::Okay, .. } ==> route(response)
            == Routed::Answer(response),
        response matches Response::Done { status: ResponseStatus::No, .. } ==> route(
            response,
        ) == Routed::Refusal(TaggedResponseError::No {  }),
        response matches Response::Done { status: ResponseStatus::Bad, .. } ==> route(
            response,
        ) == Routed::Refusal(TaggedResponseError::Bad {  }),
{
}

/// Decides where a response received on a connection goes.
pub fn route_response(response: Response) -> (r: Routed)
    requires
        !is_impossible_completion(response),
    ensures
        r == route(response),
{
    match response {
        Response::Done { tag, status, code, information } => {
            match status {
                ResponseStatus::No => Routed::Refusal(TaggedResponseError::No {  }),
                ResponseStatus::Bad => Routed::Refusal(TaggedResponseError::Bad {  }),
                _ => Routed::Answer(Response::Done { tag, status, code, information }),
            }
        },
        Response::Continue { information } => Routed::Answer(Response::Continue { information }),
        other => Routed::Untagged(other),
    }
}

} // verus!
