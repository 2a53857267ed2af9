//! Sorting the responses of the server between the command that waits for
//! them and the handler of untagged responses.
use vstd::prelude::*;
use crate::imap::response::{Response, ResponseStatus};

pub mod response_stream;
pub mod tag_generator;

verus! {

/// How the server refused a command.
#[derive(Debug)]
pub enum TaggedResponseError {
    No { information: Option<String> },
    Bad { information: Option<String> },
}

/// Where a response goes.
#[derive(Debug)]
pub enum Routed {
    /// To the command waiting for its answer: a completion with status OK,
    /// or a continuation request.
    Answer(Response),
    /// To the command waiting for its answer, as the reason it failed.
    Refusal(TaggedResponseError),
    /// To the handler of untagged responses.
    Untagged(Response),
}

/// Whether a response is a completion with a status that a completion
/// never has (PREAUTH or BYE).
pub open spec fn is_impossible_completion(response: Response) -> bool {
    response matches Response::Done { status, .. } && (status == ResponseStatus::PreAuth
        || status == ResponseStatus::Bye)
}

/// Where a response received on a connection goes.
pub open spec fn route(response: Response) -> Routed {
    match response {
        Response::Done { status: ResponseStatus::No, information, .. } => Routed::Refusal(
            TaggedResponseError::No { information },
        ),
        Response::Done { status: ResponseStatus::Bad, information, .. } => Routed::Refusal(
            TaggedResponseError::Bad { information },
        ),
        Response::Done { .. } => Routed::Answer(response),
        Response::Continue { .. } => Routed::Answer(response),
        _ => Routed::Untagged(response),
    }
}

/// Every response that is neither a tagged completion nor a continuation
/// request goes, unchanged, to the handler of untagged responses; a
/// continuation request and an OK completion go, unchanged, to the waiting
/// command; a NO or BAD completion is its refusal, with the server's text.
pub proof fn lemma_routing(response: Response)
    ensures
        !(response is Done) && !(response is Continue) ==> route(response) == Routed::Untagged(
            response,
        ),
        route(response) is Untagged ==> !(response is Done) && !(response is Continue),
        response is Continue ==> route(response) == Routed::Answer(response),
        response matches Response::Done { status: ResponseStatus::Okay, .. } ==> route(response)
            == Routed::Answer(response),
        response matches Response::Done { status: ResponseStatus::No, information, .. } ==> route(
            response,
        ) == Routed::Refusal(TaggedResponseError::No { information }),
        response matches Response::Done { status: ResponseStatus::Bad, information, .. } ==> route(
            response,
        ) == Routed::Refusal(TaggedResponseError::Bad { information }),
{
}

/// Decides where a response received on a connection goes.
pub fn route_response(response: Response) -> (r: Routed)
    requires
        !is_impossible_completion(response),
    ensures
        r == route(response),
{
    match response {
        Response::Done { tag, status, code, information } => {
            match status {
                ResponseStatus::No => Routed::Refusal(TaggedResponseError::No { information }),
                ResponseStatus::Bad => Routed::Refusal(TaggedResponseError::Bad { information }),
                _ => Routed::Answer(Response::Done { tag, status, code, information }),
            }
        },
        Response::Continue { information } => Routed::Answer(Response::Continue { information }),
        other => Routed::Untagged(other),
    }
}

} // verus!
