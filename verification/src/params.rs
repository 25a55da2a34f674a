//! The query a player has selected, and the test that tells when it has
//! moved away from the query last asked of the server.

use crate::challenge::Challenges;
use std::str::FromStr;
use vstd::prelude::*;

verus! {

/// Which rows of the fetched collection are kept.
#[derive(Clone, Copy, PartialEq, Eq, Structural, Debug)]
pub enum FilterOption {
    All,
    UniquePlayers,
    UniqueLanguage,
}

/// The column by which rows are ordered.
#[derive(Clone, Copy, PartialEq, Eq, Structural, Debug)]
pub enum SortColumn {
    PlayerName,
    Binary,
    Language,
    Time,
}

/// The column that `scoreboard_db::SortColumn::from_str` reads out of a
/// name, `None` where it rejects the name.
pub uninterp spec fn sort_column_named(name: Seq<char>) -> Option<SortColumn>;

/// Calls `scoreboard_db::SortColumn::from_str`, which lowercases the name and
/// looks it up in its own fixed list. Trusted: the result is that function's
/// answer for these characters, variant for variant.
#[verifier::external_body]
pub(crate) fn lookup_sort_column(name: &str) -> (found: Option<SortColumn>)
    ensures
        found == sort_column_named(name@),
{
    match scoreboard_db::SortColumn::from_str(name) {
        Ok(scoreboard_db::SortColumn::PlayerName) => Some(SortColumn::PlayerName),
        Ok(scoreboard_db::SortColumn::Binary) => Some(SortColumn::Binary),
        Ok(scoreboard_db::SortColumn::Language) => Some(SortColumn::Language),
        Ok(scoreboard_db::SortColumn::Time) => Some(SortColumn::Time),
        Err(_) => None,
    }
}

/// The three choices that decide which request is sent and how its answer is
/// shown.
#[derive(Clone, Copy, PartialEq, Eq, Structural, Debug)]
pub struct QueryParameters {
    pub challenge: Challenges,
    pub filter: FilterOption,
    pub sort_column: SortColumn,
}

impl QueryParameters {
    /// The column picked by `choice` where there is one, else the column
    /// already selected.
    pub open spec fn with_column_spec(self, choice: Option<SortColumn>) -> QueryParameters {
        match choice {
            Some(column) => QueryParameters { sort_column: column, ..self },
            None => self,
        }
    }

    /// Applies the outcome of a column lookup: a recognised column replaces
    /// the selected one, an unrecognised name changes nothing. The result
    /// tells whether the name was recognised.
    pub fn with_column(&mut self, choice: Option<SortColumn>) -> (known: bool)
        ensures
            known == choice.is_some(),
            *final(self) == old(self).with_column_spec(choice),
    {
        match choice {
            Some(column) => {
                self.sort_column = column;
                true
            },
            None => false,
        }
    }

    /// Selects the sort column by its name.
    pub fn select_column(&mut self, name: &str) -> (known: bool)
        ensures
            known == sort_column_named(name@).is_some(),
            *final(self) == old(self).with_column_spec(sort_column_named(name@)),
    {
        let choice = lookup_sort_column(name);
        self.with_column(choice)
    }
}

impl Default for QueryParameters {
    fn default() -> (q: Self)
        ensures
            q == (QueryParameters {
                challenge: Challenges::C2331,
                filter: FilterOption::All,
                sort_column: SortColumn::Time,
            }),
    {
        QueryParameters {
            challenge: Challenges::C2331,
            filter: FilterOption::All,
            sort_column: SortColumn::Time,
        }
    }
}

/// What a change-detection pass yields: whether the selection differs from
/// the active query, and the active query afterwards.
pub open spec fn check_spec(selected: QueryParameters, active: QueryParameters) -> (
    bool,
    QueryParameters,
) {
    (selected != active, selected)
}

/// Compares the selection with the parameters of the last request, field by
/// field. On a difference the selection becomes the active query and the
/// result is `true`: the data held is stale.
pub fn check(selected: QueryParameters, active: &mut QueryParameters) -> (stale: bool)
    ensures
        (stale, *final(active)) == check_spec(selected, *old(active)),
{
    if active.challenge != selected.challenge || active.filter != selected.filter
        || active.sort_column != selected.sort_column {
        *active = selected;
        true
    } else {
        false
    }
}

/// A pass is idempotent: run again on the same selection, it reports nothing
/// and leaves the active query as the first pass left it.
pub proof fn lemma_check_idempotent(selected: QueryParameters, active: QueryParameters)
    ensures
        ({
            let first = check_spec(selected, active);
            let second = check_spec(selected, first.1);
            !second.0 && second.1 == first.1
        }),
{
}

} // verus!
