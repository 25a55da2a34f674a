//! What a request can end in, how the status of a response decides it, and
//! the addresses that the requests go to.

use crate::challenge::Challenges;
use crate::json::json_parsed;
use crate::score::{score_views, Score, ScoreView};
use crate::sync::OutcomeKind;
use crate::wire::{scores_from_text, scores_of_parsed};
use vstd::prelude::*;
use vstd::string::StringExecFns;

verus! {

/// The end of one request: the payload, the text of a failure, or the
/// server's refusal of the session.
#[derive(Debug)]
pub enum FetchOutcome<T> {
    Success(T),
    Failure(String),
    AuthRequired,
}

/// An outcome with its payload and message as plain values.
pub enum OutcomeView<V> {
    Success(V),
    Failure(Seq<char>),
    AuthRequired,
}

impl<V> OutcomeView<V> {
    /// Which of the three ends this is.
    pub open spec fn kind(self) -> OutcomeKind {
        match self {
            OutcomeView::Success(_) => OutcomeKind::Success,
            OutcomeView::Failure(_) => OutcomeKind::Failure,
            OutcomeView::AuthRequired => OutcomeKind::AuthRequired,
        }
    }
}

impl<T> FetchOutcome<T> {
    pub open spec fn kind_spec(self) -> OutcomeKind {
        match self {
            FetchOutcome::Success(_) => OutcomeKind::Success,
            FetchOutcome::Failure(_) => OutcomeKind::Failure,
            FetchOutcome::AuthRequired => OutcomeKind::AuthRequired,
        }
    }

    /// Which of the three ends this is.
    pub fn kind(&self) -> (kind: OutcomeKind)
        ensures
            kind == self.kind_spec(),
    {
        match self {
            FetchOutcome::Success(_) => OutcomeKind::Success,
            FetchOutcome::Failure(_) => OutcomeKind::Failure,
            FetchOutcome::AuthRequired => OutcomeKind::AuthRequired,
        }
    }
}

/// An outcome that carries scores, as plain values.
pub open spec fn scores_outcome_view(outcome: FetchOutcome<Vec<Score>>) -> OutcomeView<
    Seq<ScoreView>,
> {
    match outcome {
        FetchOutcome::Success(scores) => OutcomeView::Success(score_views(scores@)),
        FetchOutcome::Failure(message) => OutcomeView::Failure(message@),
        FetchOutcome::AuthRequired => OutcomeView::AuthRequired,
    }
}

/// An outcome that carries a text, as plain values.
pub open spec fn text_outcome_view(outcome: FetchOutcome<String>) -> OutcomeView<Seq<char>> {
    match outcome {
        FetchOutcome::Success(text) => OutcomeView::Success(text@),
        FetchOutcome::Failure(message) => OutcomeView::Failure(message@),
        FetchOutcome::AuthRequired => OutcomeView::AuthRequired,
    }
}

/// A body, or the failure to read one, as plain values.
pub open spec fn body_view(body: Result<String, String>) -> Result<Seq<char>, Seq<char>> {
    match body {
        Ok(text) => Ok(text@),
        Err(message) => Err(message@),
    }
}

/// The outcome that a response stands for. Status 401 is a refusal of the
/// session whatever the body. A body that could not be read is a failure
/// with the reader's message. Status 200 is a success with the decoded
/// payload, or a failure with the decoder's message. Any other status is a
/// failure with the body as its message.
pub open spec fn response_outcome<V>(
    status: u16,
    body: Result<Seq<char>, Seq<char>>,
    decoded: Result<V, Seq<char>>,
) -> OutcomeView<V> {
    if status == 401 {
        OutcomeView::AuthRequired
    } else {
        match body {
            Err(message) => OutcomeView::Failure(message),
            Ok(text) => if status == 200 {
                match decoded {
                    Ok(payload) => OutcomeView::Success(payload),
                    Err(message) => OutcomeView::Failure(message),
                }
            } else {
                OutcomeView::Failure(text)
            },
        }
    }
}

/// The outcome of a request for scores, from the status and body of its
/// response.
pub fn scores_response(status: u16, body: Result<String, String>) -> (outcome: FetchOutcome<
    Vec<Score>,
>)
    ensures
        scores_outcome_view(outcome) == response_outcome(
            status,
            body_view(body),
            match body {
                Ok(text) => scores_of_parsed(json_parsed(text@)),
                Err(message) => Err(message@),
            },
        ),
{
    if status == 401 {
        FetchOutcome::AuthRequired
    } else {
        match body {
            Err(message) => FetchOutcome::Failure(message),
            Ok(text) => if status == 200 {
                match scores_from_text(text.as_str()) {
                    Ok(scores) => FetchOutcome::Success(scores),
                    Err(message) => FetchOutcome::Failure(message),
                }
            } else {
                FetchOutcome::Failure(text)
            },
        }
    }
}

/// The outcome of a request for a text, from the status and body of its
/// response: the body of a 200 response is the payload as it stands.
pub fn text_response(status: u16, body: Result<String, String>) -> (outcome: FetchOutcome<String>)
    ensures
        text_outcome_view(outcome) == response_outcome(status, body_view(body), body_view(body)),
{
    if status == 401 {
        FetchOutcome::AuthRequired
    } else {
        match body {
            Err(message) => FetchOutcome::Failure(message),
            Ok(text) => if status == 200 {
                FetchOutcome::Success(text)
            } else {
                FetchOutcome::Failure(text)
            },
        }
    }
}

/// The address of a challenge's scores under a base address.
pub open spec fn scores_url_spec(base: Seq<char>, challenge: Challenges) -> Seq<char> {
    base + "api/game/scores/"@ + challenge.label_spec()
}

pub fn scores_url(base: &str, challenge: Challenges) -> (url: String)
    ensures
        url@ == scores_url_spec(base@, challenge),
{
    let label = challenge.label();
    String::from_str(base).concat("api/game/scores/").concat(label.as_str())
}

/// The address of the session renewal under a base address.
pub open spec fn refresh_url_spec(base: Seq<char>) -> Seq<char> {
    base + "api/auth/refresh"@
}

pub fn refresh_url(base: &str) -> (url: String)
    ensures
        url@ == refresh_url_spec(base@),
{
    String::from_str(base).concat("api/auth/refresh")
}

} // verus!
