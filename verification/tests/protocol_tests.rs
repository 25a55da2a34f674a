use scoreboard_panel::challenge::Challenges;
use scoreboard_panel::challenge_info::ChallengeInfoApp;
use scoreboard_panel::fetch::FetchOutcome;
use scoreboard_panel::params::{FilterOption, QueryParameters, SortColumn};
use scoreboard_panel::score::Score;
use scoreboard_panel::scoreboard_app::ScoreBoardApp;
use scoreboard_panel::sync::{AuthState, Effect, Event, OutcomeKind, SyncState};
use scoreboard_panel::wire::RefreshResponse;

fn other_query() -> QueryParameters {
    QueryParameters { challenge: Challenges::C2333, ..QueryParameters::default() }
}

fn success() -> Option<Result<RefreshResponse, String>> {
    Some(Ok(RefreshResponse { status: "success".to_string() }))
}

fn two_scores() -> Vec<Score> {
    vec![Score::new("b", "rust", 5, "x"), Score::new("a", "go", 2, "y")]
}

#[test]
fn a_panel_starts_with_a_request_owed() {
    let query = QueryParameters::default();
    let state = SyncState::new(query);
    assert_eq!(
        state,
        SyncState {
            active: query,
            requested: query,
            stale: true,
            fetching: false,
            auth: AuthState::Normal,
            retried: false,
        }
    );
}

#[test]
fn unchanged_frames_send_one_request() {
    let query = QueryParameters::default();
    let mut state = SyncState::new(query);
    assert_eq!(state.handle(Event::Frame(query)), Effect::SpawnFetch(query));
    assert!(state.fetching && !state.stale);
    for _ in 0..5 {
        assert_eq!(state.handle(Event::Frame(query)), Effect::Nothing);
    }
    assert_eq!(state.handle(Event::FetchDone(OutcomeKind::Success)), Effect::Store);
    assert!(!state.fetching);
    for _ in 0..5 {
        assert_eq!(state.handle(Event::Frame(query)), Effect::Nothing);
    }
}

#[test]
fn a_change_while_fetching_is_latched() {
    let query = QueryParameters::default();
    let mut state = SyncState::new(query);
    assert_eq!(state.handle(Event::Frame(query)), Effect::SpawnFetch(query));
    assert_eq!(state.handle(Event::Frame(other_query())), Effect::Nothing);
    assert!(state.stale && state.fetching);
    assert_eq!(state.active, other_query());
    assert_eq!(state.requested, query);
    assert_eq!(state.handle(Event::FetchDone(OutcomeKind::Success)), Effect::Store);
    assert_eq!(state.handle(Event::Frame(other_query())), Effect::SpawnFetch(other_query()));
    assert_eq!(state.requested, other_query());
    assert_eq!(state.handle(Event::Frame(other_query())), Effect::Nothing);
}

#[test]
fn a_refusal_starts_one_refresh() {
    let query = QueryParameters::default();
    let mut state = SyncState::new(query);
    state.handle(Event::Frame(query));
    assert_eq!(state.handle(Event::FetchDone(OutcomeKind::AuthRequired)), Effect::SpawnRefresh);
    assert_eq!(state.auth, AuthState::RefreshPending);
    assert!(!state.fetching);
    assert_eq!(state.handle(Event::FetchDone(OutcomeKind::AuthRequired)), Effect::Nothing);
    assert_eq!(state.handle(Event::Frame(query)), Effect::Nothing);
    assert_eq!(state.handle(Event::ManualRefresh), Effect::Nothing);
    assert_eq!(state.handle(Event::Frame(other_query())), Effect::Nothing);
    assert_eq!(state.auth, AuthState::RefreshPending);
    assert!(state.stale);
}

#[test]
fn a_successful_refresh_refetches_once() {
    let query = QueryParameters::default();
    let mut state = SyncState::new(query);
    state.handle(Event::Frame(query));
    state.handle(Event::FetchDone(OutcomeKind::AuthRequired));
    assert_eq!(state.handle(Event::RefreshDone(true)), Effect::Nothing);
    assert_eq!(state.auth, AuthState::Normal);
    assert!(state.stale && state.retried);
    assert_eq!(state.handle(Event::Frame(query)), Effect::SpawnFetch(query));
    assert_eq!(state.handle(Event::Frame(query)), Effect::Nothing);
    assert_eq!(state.handle(Event::FetchDone(OutcomeKind::Success)), Effect::Store);
    assert!(!state.retried);
    assert_eq!(state.handle(Event::Frame(query)), Effect::Nothing);
}

#[test]
fn a_second_refusal_after_a_refresh_is_a_failure() {
    let query = QueryParameters::default();
    let mut state = SyncState::new(query);
    state.handle(Event::Frame(query));
    state.handle(Event::FetchDone(OutcomeKind::AuthRequired));
    state.handle(Event::RefreshDone(true));
    state.handle(Event::Frame(query));
    assert_eq!(state.handle(Event::FetchDone(OutcomeKind::AuthRequired)), Effect::Report);
    assert_eq!(state.auth, AuthState::Normal);
    assert!(!state.retried && !state.fetching && !state.stale);
    assert_eq!(state.handle(Event::Frame(query)), Effect::Nothing);
    state.handle(Event::ManualRefresh);
    assert_eq!(state.handle(Event::Frame(query)), Effect::SpawnFetch(query));
    assert_eq!(state.handle(Event::FetchDone(OutcomeKind::AuthRequired)), Effect::SpawnRefresh);
}

#[test]
fn a_failed_refresh_does_not_refetch() {
    let query = QueryParameters::default();
    let mut state = SyncState::new(query);
    state.handle(Event::Frame(query));
    state.handle(Event::FetchDone(OutcomeKind::AuthRequired));
    assert_eq!(state.handle(Event::RefreshDone(false)), Effect::Report);
    assert_eq!(state.auth, AuthState::Normal);
    assert!(!state.stale && !state.retried);
    for _ in 0..5 {
        assert_eq!(state.handle(Event::Frame(query)), Effect::Nothing);
    }
    assert_eq!(state.handle(Event::RefreshDone(true)), Effect::Nothing);
    assert!(!state.stale);
}

#[test]
fn a_manual_refresh_forces_a_request() {
    let query = QueryParameters::default();
    let mut state = SyncState::new(query);
    state.handle(Event::Frame(query));
    state.handle(Event::FetchDone(OutcomeKind::Failure));
    assert_eq!(state.handle(Event::Frame(query)), Effect::Nothing);
    assert_eq!(state.handle(Event::ManualRefresh), Effect::Nothing);
    assert_eq!(state.handle(Event::Frame(query)), Effect::SpawnFetch(query));
    assert_eq!(state.handle(Event::ManualRefresh), Effect::Nothing);
    assert_eq!(state.handle(Event::Frame(query)), Effect::Nothing);
    assert_eq!(state.handle(Event::FetchDone(OutcomeKind::Success)), Effect::Store);
    assert_eq!(state.handle(Event::Frame(query)), Effect::SpawnFetch(query));
}

#[test]
fn stray_outcomes_are_dropped() {
    let query = QueryParameters::default();
    let mut state = SyncState::new(query);
    let before = state;
    assert_eq!(state.handle(Event::FetchDone(OutcomeKind::Success)), Effect::Nothing);
    assert_eq!(state.handle(Event::RefreshDone(true)), Effect::Nothing);
    assert_eq!(state, before);
}

#[test]
fn the_board_fetches_then_shows_rows() {
    let mut app = ScoreBoardApp::new("http://h/".to_string());
    assert_eq!(app.selected(), QueryParameters::default());
    assert!(app.table_ui().is_empty());
    assert_eq!(app.show(), Some("http://h/api/game/scores/2331".to_string()));
    assert_eq!(app.show(), None);
    assert_eq!(app.check_fetch_promise(None), None);
    assert!(app.sync().fetching);
    assert_eq!(app.check_fetch_promise(Some(FetchOutcome::Success(two_scores()))), None);
    assert!(app.has_scores() && app.message().is_none());
    let rows = app.table_ui();
    assert_eq!(rows.len(), 2);
    assert_eq!((rows[0].rank, rows[0].name.as_str(), rows[0].time_ns), (0, "a", 2));
    assert_eq!((rows[1].rank, rows[1].name.as_str(), rows[1].time_ns), (1, "b", 5));
    assert_eq!(app.show(), None);
}

#[test]
fn the_board_refetches_on_a_new_selection() {
    let mut app = ScoreBoardApp::default();
    assert_eq!(app.show(), Some("http://123.4.5.6:3000/api/game/scores/2331".to_string()));
    app.check_fetch_promise(Some(FetchOutcome::Success(two_scores())));
    app.select_challenge(Challenges::C2332);
    assert_eq!(app.selected().challenge, Challenges::C2332);
    assert_eq!(app.show(), Some("http://123.4.5.6:3000/api/game/scores/2332".to_string()));
    assert!(!app.has_scores());
    app.check_fetch_promise(Some(FetchOutcome::Success(two_scores())));
    app.select_filter(FilterOption::UniquePlayers);
    assert_eq!(app.show(), Some("http://123.4.5.6:3000/api/game/scores/2332".to_string()));
    app.check_fetch_promise(Some(FetchOutcome::Success(two_scores())));
    assert!(app.select_column("name"));
    assert_eq!(app.selected().sort_column, SortColumn::PlayerName);
    assert!(!app.select_column("nonsense"));
    assert_eq!(app.selected().sort_column, SortColumn::PlayerName);
    assert!(app.show().is_some());
    app.check_fetch_promise(Some(FetchOutcome::Success(two_scores())));
    let rows = app.table_ui();
    assert_eq!(rows[0].name, "a");
    assert_eq!(rows[1].name, "b");
}

#[test]
fn the_board_shows_a_failure() {
    let mut app = ScoreBoardApp::new("u/".to_string());
    app.show();
    assert_eq!(app.check_fetch_promise(Some(FetchOutcome::Failure("teapot".to_string()))), None);
    assert_eq!(app.message(), Some("teapot".to_string()));
    assert!(!app.has_scores());
    assert_eq!(app.show(), None);
    app.refresh();
    assert_eq!(app.show(), Some("u/api/game/scores/2331".to_string()));
    assert_eq!(app.message(), None);
}

#[test]
fn the_board_recovers_an_expired_session() {
    let mut app = ScoreBoardApp::new("u/".to_string());
    app.show();
    assert_eq!(
        app.check_fetch_promise(Some(FetchOutcome::AuthRequired)),
        Some("u/api/auth/refresh".to_string())
    );
    assert_eq!(app.message(), Some("Failed to authenticate, refreshing token".to_string()));
    assert_eq!(app.sync().auth, AuthState::RefreshPending);
    assert_eq!(app.show(), None);
    app.check_refresh_promise(None);
    assert_eq!(app.sync().auth, AuthState::RefreshPending);
    app.check_refresh_promise(success());
    assert_eq!(app.sync().auth, AuthState::Normal);
    assert_eq!(app.show(), Some("u/api/game/scores/2331".to_string()));
    assert_eq!(app.show(), None);
    assert_eq!(app.check_fetch_promise(Some(FetchOutcome::Success(two_scores()))), None);
    assert_eq!(app.table_ui().len(), 2);
}

#[test]
fn the_board_does_not_loop_on_refusals() {
    let mut app = ScoreBoardApp::new("u/".to_string());
    app.show();
    app.check_fetch_promise(Some(FetchOutcome::AuthRequired));
    app.check_refresh_promise(success());
    assert!(app.show().is_some());
    assert_eq!(app.check_fetch_promise(Some(FetchOutcome::AuthRequired)), None);
    assert_eq!(app.message(), Some("Failed to authenticate".to_string()));
    assert_eq!(app.sync().auth, AuthState::Normal);
    assert_eq!(app.show(), None);
}

#[test]
fn the_board_reports_a_failed_refresh() {
    let mut app = ScoreBoardApp::new("u/".to_string());
    app.show();
    app.check_fetch_promise(Some(FetchOutcome::AuthRequired));
    app.check_refresh_promise(Some(Ok(RefreshResponse { status: "expired".to_string() })));
    assert_eq!(app.message(), Some("Failed to refresh token: expired".to_string()));
    assert_eq!(app.show(), None);
    assert_eq!(app.show(), None);

    let mut app = ScoreBoardApp::new("u/".to_string());
    app.show();
    app.check_fetch_promise(Some(FetchOutcome::AuthRequired));
    app.check_refresh_promise(Some(Err("network down".to_string())));
    assert_eq!(app.message(), Some("network down".to_string()));
    assert_eq!(app.sync().auth, AuthState::Normal);
    assert_eq!(app.show(), None);
    app.refresh();
    assert_eq!(app.show(), Some("u/api/game/scores/2331".to_string()));
}

#[test]
fn the_board_applies_the_selection_to_the_rows() {
    let mut app = ScoreBoardApp::new("u/".to_string());
    app.select_filter(FilterOption::UniquePlayers);
    app.show();
    let scores = vec![Score::new("a", "rust", 5, "x"), Score::new("a", "go", 2, "y"), Score::new("b", "c", 9, "z")];
    app.check_fetch_promise(Some(FetchOutcome::Success(scores)));
    let rows = app.table_ui();
    assert_eq!(rows.len(), 2);
    assert_eq!((rows[0].name.as_str(), rows[0].time_ns), ("a", 2));
    assert_eq!((rows[1].name.as_str(), rows[1].time_ns), ("b", 9));
}

#[test]
fn the_info_panel_fetches_once_per_selection() {
    let mut app = ChallengeInfoApp::default();
    assert_eq!(app.instructions(), "None");
    assert_eq!(app.selected_challenge(), Challenges::C2331);
    assert_eq!(app.fetch(), Some(Challenges::C2331));
    assert_eq!(app.fetch(), None);
    app.check_info_promise(None);
    assert_eq!(app.instructions(), "None");
    app.check_info_promise(Some(FetchOutcome::Success("# Rules".to_string())));
    assert_eq!(app.instructions(), "# Rules");
    assert_eq!(app.fetch(), None);
    app.select_challenge(Challenges::C2333);
    assert_eq!(app.fetch(), Some(Challenges::C2333));
    app.check_info_promise(Some(FetchOutcome::Failure("gone".to_string())));
    assert_eq!(app.instructions(), "gone");
    app.check_info_promise(Some(FetchOutcome::Success("late".to_string())));
    assert_eq!(app.instructions(), "gone");
}

#[test]
fn the_info_panel_refreshes_on_demand() {
    let mut app = ChallengeInfoApp::default();
    app.fetch();
    app.check_info_promise(Some(FetchOutcome::AuthRequired));
    assert_eq!(app.instructions(), "Not authorized");
    assert_eq!(app.fetch(), None);
    app.refresh();
    assert_eq!(app.fetch(), Some(Challenges::C2331));
    app.refresh();
    assert_eq!(app.fetch(), None);
    app.check_info_promise(Some(FetchOutcome::Success("text".to_string())));
    assert_eq!(app.fetch(), Some(Challenges::C2331));
}
