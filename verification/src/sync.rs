//! The protocol that keeps the fetched data in step with the selection: when
//! a request for scores is owed, and how a rejected session is renewed once
//! before the request is repeated. It holds no data, only the decisions.

use crate::params::{check, check_spec, QueryParameters};
use vstd::prelude::*;

verus! {

/// Whether a session renewal is under way.
#[derive(Clone, Copy, PartialEq, Eq, Structural, Debug)]
pub enum AuthState {
    Normal,
    RefreshPending,
}

/// How a request for scores ended.
#[derive(Clone, Copy, PartialEq, Eq, Structural, Debug)]
pub enum OutcomeKind {
    Success,
    Failure,
    AuthRequired,
}

/// What happens to the protocol.
#[derive(Clone, Copy, PartialEq, Eq, Structural, Debug)]
pub enum Event {
    /// A render pass begins, with the selection as it stands.
    Frame(QueryParameters),
    /// The player asks for fresh data.
    ManualRefresh,
    /// The request for scores has ended.
    FetchDone(OutcomeKind),
    /// The session renewal has ended; `true` where the server reported
    /// success.
    RefreshDone(bool),
}

/// What the caller must do after an event.
#[derive(Clone, Copy, PartialEq, Eq, Structural, Debug)]
pub enum Effect {
    Nothing,
    /// Send a request for scores with these parameters.
    SpawnFetch(QueryParameters),
    /// Send a session renewal.
    SpawnRefresh,
    /// Keep the scores that came.
    Store,
    /// Show the failure that came.
    Report,
}

/// The state of the protocol.
#[derive(Clone, Copy, PartialEq, Eq, Structural, Debug)]
pub struct SyncState {
    /// The parameters of the last selection seen.
    pub active: QueryParameters,
    /// The parameters of the request for scores sent last.
    pub requested: QueryParameters,
    /// A request for scores is owed.
    pub stale: bool,
    /// A request for scores is under way.
    pub fetching: bool,
    pub auth: AuthState,
    /// The session was renewed and the request that follows has not ended.
    pub retried: bool,
}

impl SyncState {
    /// No request for scores is under way while the session is renewed, and
    /// unless a request is owed, the one sent last was for the active query.
    pub open spec fn wf(self) -> bool {
        &&& self.auth == AuthState::RefreshPending ==> !self.fetching
        &&& !self.stale ==> self.requested == self.active
    }

    /// The state after an event, and what the caller must do.
    pub open spec fn step(self, event: Event) -> (SyncState, Effect) {
        match event {
            Event::Frame(selected) => {
                let (changed, active) = check_spec(selected, self.active);
                if (self.stale || changed) && !self.fetching && self.auth == AuthState::Normal {
                    (
                        SyncState {
                            active,
                            requested: active,
                            stale: false,
                            fetching: true,
                            ..self
                        },
                        Effect::SpawnFetch(active),
                    )
                } else {
                    (SyncState { active, stale: self.stale || changed, ..self }, Effect::Nothing)
                }
            },
            Event::ManualRefresh => (SyncState { stale: true, ..self }, Effect::Nothing),
            Event::FetchDone(kind) => {
                if !self.fetching {
                    (self, Effect::Nothing)
                } else {
                    let ended = SyncState { fetching: false, retried: false, ..self };
                    match kind {
                        OutcomeKind::Success => (ended, Effect::Store),
                        OutcomeKind::Failure => (ended, Effect::Report),
                        OutcomeKind::AuthRequired => {
                            if self.retried || self.auth == AuthState::RefreshPending {
                                (ended, Effect::Report)
                            } else {
                                (
                                    SyncState { auth: AuthState::RefreshPending, ..ended },
                                    Effect::SpawnRefresh,
                                )
                            }
                        },
                    }
                }
            },
            Event::RefreshDone(renewed) => {
                if self.auth != AuthState::RefreshPending {
                    (self, Effect::Nothing)
                } else if renewed {
                    (
                        SyncState { auth: AuthState::Normal, stale: true, retried: true, ..self },
                        Effect::Nothing,
                    )
                } else {
                    (SyncState { auth: AuthState::Normal, ..self }, Effect::Report)
                }
            },
        }
    }

    /// The state in which a panel starts: nothing under way, a first request
    /// owed.
    pub fn new(active: QueryParameters) -> (state: SyncState)
        ensures
            state == (SyncState {
                active,
                requested: active,
                stale: true,
                fetching: false,
                auth: AuthState::Normal,
                retried: false,
            }),
            state.wf(),
    {
        SyncState {
            active,
            requested: active,
            stale: true,
            fetching: false,
            auth: AuthState::Normal,
            retried: false,
        }
    }

    /// Takes an event and says what to do.
    pub fn handle(&mut self, event: Event) -> (effect: Effect)
        ensures
            (*final(self), effect) == old(self).step(event),
            old(self).wf() ==> final(self).wf(),
    {
        match event {
            Event::Frame(selected) => {
                let changed = check(selected, &mut self.active);
                if changed {
                    self.stale = true;
                }
                if self.stale && !self.fetching && self.auth == AuthState::Normal {
                    self.stale = false;
                    self.fetching = true;
                    self.requested = self.active;
                    Effect::SpawnFetch(self.active)
                } else {
                    Effect::Nothing
                }
            },
            Event::ManualRefresh => {
                self.stale = true;
                Effect::Nothing
            },
            Event::FetchDone(kind) => {
                if !self.fetching {
                    return Effect::Nothing;
                }
                let renewable = !self.retried && self.auth == AuthState::Normal;
                self.fetching = false;
                self.retried = false;
                match kind {
                    OutcomeKind::Success => Effect::Store,
                    OutcomeKind::Failure => Effect::Report,
                    OutcomeKind::AuthRequired => {
                        if renewable {
                            self.auth = AuthState::RefreshPending;
                            Effect::SpawnRefresh
                        } else {
                            Effect::Report
                        }
                    },
                }
            },
            Event::RefreshDone(renewed) => {
                if self.auth != AuthState::RefreshPending {
                    return Effect::Nothing;
                }
                self.auth = AuthState::Normal;
                if renewed {
                    self.stale = true;
                    self.retried = true;
                    Effect::Nothing
                } else {
                    Effect::Report
                }
            },
        }
    }
}

/// The state after a sequence of events.
pub open spec fn run(state: SyncState, events: Seq<Event>) -> SyncState
    decreases events.len(),
{
    if events.len() == 0 {
        state
    } else {
        run(state, events.drop_last()).step(events.last()).0
    }
}

/// How many requests for scores are under way after a sequence of events
/// that began with `before` of them under way: each `SpawnFetch` adds one,
/// each `FetchDone` ends one if there is one.
pub open spec fn fetches_in_flight(before: nat, state: SyncState, events: Seq<Event>) -> nat
    decreases events.len(),
{
    if events.len() == 0 {
        before
    } else {
        let so_far = fetches_in_flight(before, state, events.drop_last());
        let effect = run(state, events.drop_last()).step(events.last()).1;
        let started: nat = if effect is SpawnFetch {
            1
        } else {
            0
        };
        let ended: nat = if events.last() is FetchDone && so_far > 0 {
            1
        } else {
            0
        };
        (so_far + started - ended) as nat
    }
}

/// How many session renewals are under way after a sequence of events that
/// began with `before` of them under way: each `SpawnRefresh` adds one, each
/// `RefreshDone` ends one if there is one.
pub open spec fn refreshes_in_flight(before: nat, state: SyncState, events: Seq<Event>) -> nat
    decreases events.len(),
{
    if events.len() == 0 {
        before
    } else {
        let so_far = refreshes_in_flight(before, state, events.drop_last());
        let effect = run(state, events.drop_last()).step(events.last()).1;
        let started: nat = if effect is SpawnRefresh {
            1
        } else {
            0
        };
        let ended: nat = if events.last() is RefreshDone && so_far > 0 {
            1
        } else {
            0
        };
        (so_far + started - ended) as nat
    }
}

/// The number that a flag stands for.
pub open spec fn count_of(flag: bool) -> nat {
    if flag {
        1
    } else {
        0
    }
}

/// Every event keeps the state well-formed.
pub proof fn lemma_step_keeps_wf(state: SyncState, event: Event)
    requires
        state.wf(),
    ensures
        state.step(event).0.wf(),
{
}

/// Whatever happens, at most one request for scores and at most one session
/// renewal are under way, and never both: the flags of the state count them.
pub proof fn lemma_at_most_one_in_flight(state: SyncState, events: Seq<Event>)
    requires
        state.wf(),
    ensures
        run(state, events).wf(),
        fetches_in_flight(count_of(state.fetching), state, events) == count_of(
            run(state, events).fetching,
        ),
        refreshes_in_flight(
            count_of(state.auth == AuthState::RefreshPending),
            state,
            events,
        ) == count_of(run(state, events).auth == AuthState::RefreshPending),
        fetches_in_flight(count_of(state.fetching), state, events) + refreshes_in_flight(
            count_of(state.auth == AuthState::RefreshPending),
            state,
            events,
        ) <= 1,
    decreases events.len(),
{
    if events.len() > 0 {
        lemma_at_most_one_in_flight(state, events.drop_last());
    }
}

/// A render pass over a selection that is the active query, with no request
/// owed, changes nothing and sends nothing.
pub proof fn lemma_unchanged_frame_is_quiet(state: SyncState)
    requires
        !state.stale,
    ensures
        state.step(Event::Frame(state.active)) == (state, Effect::Nothing),
{
}

/// Render passes over an unchanged selection send at most one request for
/// scores: once one pass has run, any number of further passes over the same
/// selection change nothing and send nothing.
pub proof fn lemma_unchanged_frames_fetch_once(
    state: SyncState,
    selected: QueryParameters,
    passes: nat,
)
    ensures
        ({
            let first = state.step(Event::Frame(selected)).0;
            let again = Seq::new(passes, |i: int| Event::Frame(selected));
            &&& first.step(Event::Frame(selected)) == (first, Effect::Nothing)
            &&& run(first, again) == first
            &&& fetches_in_flight(count_of(first.fetching), first, again) == count_of(
                first.fetching,
            )
        }),
    decreases passes,
{
    if passes > 0 {
        let first = state.step(Event::Frame(selected)).0;
        let again = Seq::new(passes, |i: int| Event::Frame(selected));
        let fewer = Seq::new((passes - 1) as nat, |i: int| Event::Frame(selected));
        lemma_unchanged_frames_fetch_once(state, selected, (passes - 1) as nat);
        assert(again.drop_last() =~= fewer);
    }
}

/// A rejected session is answered by one renewal: the request that was
/// rejected is over, the renewal is sent and is under way. This holds unless
/// the request was itself the repeat after a renewal.
pub proof fn lemma_auth_failure_starts_refresh(state: SyncState)
    requires
        state.wf(),
        state.fetching,
        !state.retried,
    ensures
        state.step(Event::FetchDone(OutcomeKind::AuthRequired)) == (
            SyncState { fetching: false, auth: AuthState::RefreshPending, ..state },
            Effect::SpawnRefresh,
        ),
{
}

/// While a renewal is under way no event starts another, and none starts a
/// request for scores.
pub proof fn lemma_no_spawn_while_refreshing(state: SyncState, event: Event)
    requires
        state.wf(),
        state.auth == AuthState::RefreshPending,
    ensures
        state.step(event).1 != Effect::SpawnRefresh,
        !(state.step(event).1 is SpawnFetch),
{
}

/// A rejection of the request that follows a renewal is reported as a
/// failure, and no further renewal is sent.
pub proof fn lemma_second_auth_failure_is_reported(state: SyncState)
    requires
        state.fetching,
        state.retried,
    ensures
        state.step(Event::FetchDone(OutcomeKind::AuthRequired)) == (
            SyncState { fetching: false, retried: false, ..state },
            Effect::Report,
        ),
{
}

/// A renewal that succeeded is followed by exactly one request for scores,
/// with the parameters then selected: the next render pass sends it, and the
/// pass after that sends none.
pub proof fn lemma_refresh_success_refetches_once(state: SyncState, selected: QueryParameters)
    requires
        state.wf(),
        state.auth == AuthState::RefreshPending,
    ensures
        ({
            let (renewed, at_once) = state.step(Event::RefreshDone(true));
            let (first, sent) = renewed.step(Event::Frame(selected));
            let (second, again) = first.step(Event::Frame(selected));
            &&& at_once == Effect::Nothing
            &&& renewed.auth == AuthState::Normal
            &&& sent == Effect::SpawnFetch(selected)
            &&& first.active == selected
            &&& first.requested == selected
            &&& again == Effect::Nothing
        }),
{
}

/// A renewal that failed sends nothing and leaves owed what was owed: with
/// nothing owed and the selection unchanged, the passes that follow are
/// quiet.
pub proof fn lemma_refresh_failure_does_not_refetch(state: SyncState)
    requires
        state.wf(),
        state.auth == AuthState::RefreshPending,
    ensures
        ({
            let (failed, effect) = state.step(Event::RefreshDone(false));
            &&& effect == Effect::Report
            &&& failed == SyncState { auth: AuthState::Normal, ..state }
            &&& !state.stale ==> failed.step(Event::Frame(state.active)) == (
                failed,
                Effect::Nothing,
            )
        }),
{
}

/// A manual refresh makes a request owed whatever the selection is: with
/// nothing under way the next render pass sends it, and otherwise it stays
/// owed.
pub proof fn lemma_manual_refresh_forces_fetch(state: SyncState, selected: QueryParameters)
    ensures
        ({
            let asked = state.step(Event::ManualRefresh).0;
            let (next, effect) = asked.step(Event::Frame(selected));
            &&& asked == SyncState { stale: true, ..state }
            &&& !state.fetching && state.auth == AuthState::Normal ==> effect == Effect::SpawnFetch(
                selected,
            )
            &&& state.fetching || state.auth == AuthState::RefreshPending ==> next.stale
        }),
{
}

} // verus!
