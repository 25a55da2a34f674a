//! The leaderboard panel: the selection, the protocol state and the data
//! that came, taken through one render pass after another.

use crate::challenge::Challenges;
use crate::fetch::{
    refresh_url, refresh_url_spec, scores_outcome_view, scores_url, scores_url_spec, FetchOutcome,
    OutcomeView,
};
use crate::params::{lookup_sort_column, sort_column_named, FilterOption, QueryParameters, SortColumn};
use crate::pipeline::{row_views, table_rows, table_spec, Row, RowView};
use crate::score::{score_views, Score, ScoreView};
use crate::sync::{AuthState, Effect, Event, SyncState};
use crate::wire::{refresh_view, renewed, renewed_spec, RefreshResponse};
use vstd::prelude::*;
use vstd::string::StringExecFns;

verus! {

/// The panel's state.
#[derive(Debug)]
pub struct ScoreBoardApp {
    selected: QueryParameters,
    sync: SyncState,
    scores: Option<Vec<Score>>,
    message: Option<String>,
    url: String,
}

/// The panel's state as plain values.
pub struct BoardView {
    /// What the player has selected.
    pub selected: QueryParameters,
    pub sync: SyncState,
    /// The collection that came last, until a new request is sent.
    pub scores: Option<Seq<ScoreView>>,
    /// The failure to show.
    pub message: Option<Seq<char>>,
    /// The base address of the server.
    pub url: Seq<char>,
}

/// A text that may be there, as plain values.
pub open spec fn text_view(text: Option<String>) -> Option<Seq<char>> {
    match text {
        Some(t) => Some(t@),
        None => None,
    }
}

/// The message shown for a request that failed.
pub open spec fn failure_text(outcome: OutcomeView<Seq<ScoreView>>) -> Seq<char> {
    match outcome {
        OutcomeView::Failure(message) => message,
        _ => "Failed to authenticate"@,
    }
}

/// The message shown for a renewal that failed.
pub open spec fn refresh_failure_text(answer: Result<Seq<char>, Seq<char>>) -> Seq<char> {
    match answer {
        Err(message) => message,
        Ok(status) => "Failed to refresh token: "@ + status,
    }
}

impl BoardView {
    /// The state in which a panel starts.
    pub open spec fn initial(url: Seq<char>) -> BoardView {
        let selected = QueryParameters {
            challenge: Challenges::C2331,
            filter: FilterOption::All,
            sort_column: SortColumn::Time,
        };
        BoardView {
            selected,
            sync: SyncState {
                active: selected,
                requested: selected,
                stale: true,
                fetching: false,
                auth: AuthState::Normal,
                retried: false,
            },
            scores: None,
            message: None,
            url,
        }
    }

    /// The start of a render pass: the state after it, and the address to
    /// request scores from where a request is to be sent. A new request
    /// clears the collection and the message.
    pub open spec fn show(self) -> (BoardView, Option<Seq<char>>) {
        let (sync, effect) = self.sync.step(Event::Frame(self.selected));
        match effect {
            Effect::SpawnFetch(query) => (
                BoardView { sync, scores: None, message: None, ..self },
                Some(scores_url_spec(self.url, query.challenge)),
            ),
            _ => (BoardView { sync, ..self }, None),
        }
    }

    /// The end of a request for scores: the state after it, and the address
    /// to request a renewal from where one is to be sent.
    pub open spec fn fetched(self, outcome: OutcomeView<Seq<ScoreView>>) -> (
        BoardView,
        Option<Seq<char>>,
    ) {
        let (sync, effect) = self.sync.step(Event::FetchDone(outcome.kind()));
        match effect {
            Effect::Store => (
                BoardView { sync, scores: Some(outcome->Success_0), message: None, ..self },
                None,
            ),
            Effect::Report => (
                BoardView { sync, message: Some(failure_text(outcome)), ..self },
                None,
            ),
            Effect::SpawnRefresh => (
                BoardView {
                    sync,
                    scores: None,
                    message: Some("Failed to authenticate, refreshing token"@),
                    ..self
                },
                Some(refresh_url_spec(self.url)),
            ),
            _ => (BoardView { sync, ..self }, None),
        }
    }

    /// The end of a renewal.
    pub open spec fn refreshed(self, answer: Result<Seq<char>, Seq<char>>) -> BoardView {
        let (sync, effect) = self.sync.step(Event::RefreshDone(renewed_spec(answer)));
        match effect {
            Effect::Report => BoardView {
                sync,
                message: Some(refresh_failure_text(answer)),
                ..self
            },
            _ => BoardView { sync, ..self },
        }
    }

    /// The player's request for fresh data.
    pub open spec fn refresh(self) -> BoardView {
        BoardView { sync: self.sync.step(Event::ManualRefresh).0, ..self }
    }

    /// The rows on display.
    pub open spec fn table(self) -> Seq<RowView> {
        match self.scores {
            Some(scores) => table_spec(scores, self.selected.filter, self.selected.sort_column),
            None => Seq::empty(),
        }
    }
}

impl View for ScoreBoardApp {
    type V = BoardView;

    closed spec fn view(&self) -> BoardView {
        BoardView {
            selected: self.selected,
            sync: self.sync,
            scores: match self.scores {
                Some(scores) => Some(score_views(scores@)),
                None => None,
            },
            message: text_view(self.message),
            url: self.url@,
        }
    }
}

impl ScoreBoardApp {
    /// A panel for the server at the given base address, which ends in `/`.
    pub fn new(url: String) -> (app: Self)
        ensures
            app@ == BoardView::initial(url@),
    {
        let selected = QueryParameters::default();
        ScoreBoardApp { selected, sync: SyncState::new(selected), scores: None, message: None, url }
    }

    /// What the player has selected.
    pub fn selected(&self) -> (query: QueryParameters)
        ensures
            query == self@.selected,
    {
        self.selected
    }

    /// The state of the protocol.
    pub fn sync(&self) -> (state: SyncState)
        ensures
            state == self@.sync,
    {
        self.sync
    }

    /// The failure to show, if there is one.
    pub fn message(&self) -> (text: Option<String>)
        ensures
            text_view(text) == self@.message,
    {
        match &self.message {
            Some(text) => Some(text.clone()),
            None => None,
        }
    }

    /// Whether a collection is held.
    pub fn has_scores(&self) -> (held: bool)
        ensures
            held == self@.scores.is_some(),
    {
        self.scores.is_some()
    }

    pub fn select_challenge(&mut self, challenge: Challenges)
        ensures
            final(self)@ == (BoardView {
                selected: QueryParameters { challenge, ..old(self)@.selected },
                ..old(self)@
            }),
    {
        self.selected.challenge = challenge;
    }

    pub fn select_filter(&mut self, filter: FilterOption)
        ensures
            final(self)@ == (BoardView {
                selected: QueryParameters { filter, ..old(self)@.selected },
                ..old(self)@
            }),
    {
        self.selected.filter = filter;
    }

    /// Selects the sort column by its name; a name that is not recognised
    /// changes nothing. The result tells whether the name was recognised.
    pub fn select_column(&mut self, name: &str) -> (known: bool)
        ensures
            known == sort_column_named(name@).is_some(),
            final(self)@ == (BoardView {
                selected: old(self)@.selected.with_column_spec(sort_column_named(name@)),
                ..old(self)@
            }),
    {
        self.selected.with_column(lookup_sort_column(name))
    }

    /// Begins a render pass. Returns the address from which the caller must
    /// now request scores, if a request is to be sent.
    pub fn show(&mut self) -> (request: Option<String>)
        ensures
            (final(self)@, text_view(request)) == old(self)@.show(),
    {
        match self.sync.handle(Event::Frame(self.selected)) {
            Effect::SpawnFetch(query) => {
                self.scores = None;
                self.message = None;
                Some(scores_url(self.url.as_str(), query.challenge))
            },
            _ => None,
        }
    }

    /// Takes what polling the request for scores gave: nothing while it is
    /// under way, its outcome once. Returns the address from which the
    /// caller must now request a session renewal, if one is to be sent.
    pub fn check_fetch_promise(&mut self, ready: Option<FetchOutcome<Vec<Score>>>) -> (request:
        Option<String>)
        ensures
            match ready {
                None => final(self)@ == old(self)@ && request is None,
                Some(outcome) => (final(self)@, text_view(request)) == old(self)@.fetched(
                    scores_outcome_view(outcome),
                ),
            },
    {
        let outcome = match ready {
            Some(outcome) => outcome,
            None => { return None; },
        };
        match self.sync.handle(Event::FetchDone(outcome.kind())) {
            Effect::Store => {
                if let FetchOutcome::Success(scores) = outcome {
                    self.scores = Some(scores);
                    self.message = None;
                }
                None
            },
            Effect::Report => {
                let text = match outcome {
                    FetchOutcome::Failure(message) => message,
                    _ => String::from_str("Failed to authenticate"),
                };
                self.message = Some(text);
                None
            },
            Effect::SpawnRefresh => {
                self.scores = None;
                self.message = Some(String::from_str("Failed to authenticate, refreshing token"));
                Some(refresh_url(self.url.as_str()))
            },
            _ => None,
        }
    }

    /// Takes what polling the session renewal gave: nothing while it is
    /// under way, its answer once.
    pub fn check_refresh_promise(&mut self, ready: Option<Result<RefreshResponse, String>>)
        ensures
            match ready {
                None => final(self)@ == old(self)@,
                Some(answer) => final(self)@ == old(self)@.refreshed(refresh_view(answer)),
            },
    {
        let answer = match ready {
            Some(answer) => answer,
            None => { return ; },
        };
        match self.sync.handle(Event::RefreshDone(renewed(&answer))) {
            Effect::Report => {
                let text = match answer {
                    Err(message) => message,
                    Ok(response) => String::from_str("Failed to refresh token: ").concat(
                        response.status.as_str(),
                    ),
                };
                self.message = Some(text);
            },
            _ => {},
        }
    }

    /// Takes the player's request for fresh data.
    pub fn refresh(&mut self)
        ensures
            final(self)@ == old(self)@.refresh(),
    {
        let _ = self.sync.handle(Event::ManualRefresh);
    }

    /// The rows to display in this render pass.
    pub fn table_ui(&self) -> (rows: Vec<Row>)
        ensures
            row_views(rows@) == self@.table(),
    {
        match &self.scores {
            Some(scores) => table_rows(scores, self.selected.filter, self.selected.sort_column),
            None => {
                let rows: Vec<Row> = Vec::new();
                assert(row_views(rows@) =~= Seq::empty());
                rows
            },
        }
    }
}

impl Default for ScoreBoardApp {
    /// A panel for the placeholder address.
    fn default() -> (app: Self)
        ensures
            app@ == BoardView::initial("http://123.4.5.6:3000/"@),
    {
        ScoreBoardApp::new(String::from_str("http://123.4.5.6:3000/"))
    }
}

/// Every step of a panel keeps the protocol well-formed.
pub proof fn lemma_board_keeps_wf(
    board: BoardView,
    outcome: OutcomeView<Seq<ScoreView>>,
    answer: Result<Seq<char>, Seq<char>>,
)
    requires
        board.sync.wf(),
    ensures
        board.show().0.sync.wf(),
        board.fetched(outcome).0.sync.wf(),
        board.refreshed(answer).sync.wf(),
        board.refresh().sync.wf(),
{
}

/// A manual refresh is followed by a request for the selected challenge's
/// scores at the next render pass, whether or not the selection has changed,
/// as long as no request and no renewal is under way.
pub proof fn lemma_board_refresh_fetches(board: BoardView)
    requires
        !board.sync.fetching,
        board.sync.auth == AuthState::Normal,
    ensures
        board.refresh().show().1 == Some(scores_url_spec(board.url, board.selected.challenge)),
        board.refresh().show().0.scores is None,
{
}

/// A refused session sends one renewal; when the renewal succeeds, the next
/// render pass requests the selected challenge's scores again, and the pass
/// after it requests nothing.
pub proof fn lemma_board_recovers_session(board: BoardView)
    requires
        board.sync.wf(),
        board.sync.fetching,
        !board.sync.retried,
    ensures
        ({
            let (refused, renewal) = board.fetched(OutcomeView::AuthRequired);
            let renewed = refused.refreshed(Ok("success"@));
            let (first, request) = renewed.show();
            let (second, again) = first.show();
            &&& renewal == Some(refresh_url_spec(board.url))
            &&& refused.scores is None
            &&& refused.show().1 is None
            &&& request == Some(scores_url_spec(board.url, board.selected.challenge))
            &&& again is None
        }),
{
}

/// A renewal that does not report success sends nothing further: with the
/// selection unchanged and no request owed, the passes that follow request
/// nothing, and the failure is there to show.
pub proof fn lemma_board_failed_renewal_stops(board: BoardView, answer: Result<Seq<char>, Seq<char>>)
    requires
        board.sync.wf(),
        board.sync.auth == AuthState::RefreshPending,
        !renewed_spec(answer),
        !board.sync.stale,
        board.selected == board.sync.active,
    ensures
        ({
            let failed = board.refreshed(answer);
            &&& failed.message == Some(refresh_failure_text(answer))
            &&& failed.show() == (failed, None::<Seq<char>>)
        }),
{
}

} // verus!
