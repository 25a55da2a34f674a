//! The panel that shows a challenge's instructions.

use crate::challenge::Challenges;
use crate::fetch::{text_outcome_view, FetchOutcome, OutcomeView};
use vstd::prelude::*;
use vstd::string::StringExecFns;

verus! {

/// The panel's state.
#[derive(Debug)]
pub struct ChallengeInfoApp {
    selected_challenge: Challenges,
    active_challenge: Option<Challenges>,
    fetching: bool,
    instructions: String,
}

/// The panel's state as plain values.
pub struct InfoView {
    /// The challenge that the player has selected.
    pub selected: Challenges,
    /// The challenge last asked for, if the answer is still wanted.
    pub active: Option<Challenges>,
    /// A request for instructions is under way.
    pub fetching: bool,
    /// The text on display.
    pub instructions: Seq<char>,
}

/// The text shown for the end of a request.
pub open spec fn shown_text(outcome: OutcomeView<Seq<char>>) -> Seq<char> {
    match outcome {
        OutcomeView::Success(text) => text,
        OutcomeView::Failure(message) => message,
        OutcomeView::AuthRequired => "Not authorized"@,
    }
}

impl InfoView {
    /// The state in which a panel starts.
    pub open spec fn initial() -> InfoView {
        InfoView {
            selected: Challenges::C2331,
            active: None,
            fetching: false,
            instructions: "None"@,
        }
    }

    /// The start of a render pass: the state after it, and the challenge to
    /// request instructions for where a request is to be sent. One is sent
    /// when the selection is not the challenge last asked for and no request
    /// is under way.
    pub open spec fn fetch(self) -> (InfoView, Option<Challenges>) {
        if self.active == Some(self.selected) || self.fetching {
            (self, None)
        } else {
            (
                InfoView { active: Some(self.selected), fetching: true, ..self },
                Some(self.selected),
            )
        }
    }

    /// The end of a request. An outcome that no request is waiting for is
    /// dropped.
    pub open spec fn fetched(self, outcome: OutcomeView<Seq<char>>) -> InfoView {
        if self.fetching {
            InfoView { fetching: false, instructions: shown_text(outcome), ..self }
        } else {
            self
        }
    }

    /// The player's request for fresh instructions.
    pub open spec fn refresh(self) -> InfoView {
        InfoView { active: None, ..self }
    }
}

impl View for ChallengeInfoApp {
    type V = InfoView;

    closed spec fn view(&self) -> InfoView {
        InfoView {
            selected: self.selected_challenge,
            active: self.active_challenge,
            fetching: self.fetching,
            instructions: self.instructions@,
        }
    }
}

impl ChallengeInfoApp {
    /// The challenge that the player has selected.
    pub fn selected_challenge(&self) -> (challenge: Challenges)
        ensures
            challenge == self@.selected,
    {
        self.selected_challenge
    }

    /// The text on display.
    pub fn instructions(&self) -> (text: String)
        ensures
            text@ == self@.instructions,
    {
        self.instructions.clone()
    }

    pub fn select_challenge(&mut self, challenge: Challenges)
        ensures
            final(self)@ == (InfoView { selected: challenge, ..old(self)@ }),
    {
        self.selected_challenge = challenge;
    }

    /// Begins a render pass. Returns the challenge whose instructions the
    /// caller must now request, if a request is to be sent.
    pub fn fetch(&mut self) -> (request: Option<Challenges>)
        ensures
            (final(self)@, request) == old(self)@.fetch(),
    {
        let settled = match self.active_challenge {
            Some(active) => active == self.selected_challenge,
            None => false,
        };
        if settled || self.fetching {
            None
        } else {
            self.active_challenge = Some(self.selected_challenge);
            self.fetching = true;
            Some(self.selected_challenge)
        }
    }

    /// Takes what polling the request gave: nothing while it is under way,
    /// its outcome once.
    pub fn check_info_promise(&mut self, ready: Option<FetchOutcome<String>>)
        ensures
            match ready {
                None => final(self)@ == old(self)@,
                Some(outcome) => final(self)@ == old(self)@.fetched(text_outcome_view(outcome)),
            },
    {
        if let Some(outcome) = ready {
            if self.fetching {
                self.fetching = false;
                self.instructions = match outcome {
                    FetchOutcome::Success(text) => text,
                    FetchOutcome::Failure(message) => message,
                    FetchOutcome::AuthRequired => String::from_str("Not authorized"),
                };
            }
        }
    }

    /// Takes the player's request for fresh instructions.
    pub fn refresh(&mut self)
        ensures
            final(self)@ == old(self)@.refresh(),
    {
        self.active_challenge = None;
    }
}

impl Default for ChallengeInfoApp {
    fn default() -> (app: Self)
        ensures
            app@ == InfoView::initial(),
    {
        ChallengeInfoApp {
            selected_challenge: Challenges::C2331,
            active_challenge: None,
            fetching: false,
            instructions: String::from_str("None"),
        }
    }
}

/// A manual refresh makes the next render pass ask for the selected
/// challenge's instructions, whatever was asked for before, as long as no
/// request is under way; the pass after that asks for nothing.
pub proof fn lemma_info_refresh_fetches(info: InfoView)
    requires
        !info.fetching,
    ensures
        info.refresh().fetch().1 == Some(info.selected),
        info.refresh().fetch().0.fetch().1 is None,
{
}

} // verus!
