//! One entry of the leaderboard.

use vstd::prelude::*;

verus! {

/// A player's result as the server reports it.
#[derive(Debug)]
pub struct Score {
    pub name: String,
    pub language: String,
    pub time_ns: u64,
    pub command: String,
}

/// What a `Score` holds, as plain values.
pub struct ScoreView {
    pub name: Seq<char>,
    pub language: Seq<char>,
    pub time_ns: u64,
    pub command: Seq<char>,
}

impl View for Score {
    type V = ScoreView;

    open spec fn view(&self) -> ScoreView {
        ScoreView {
            name: self.name@,
            language: self.language@,
            time_ns: self.time_ns,
            command: self.command@,
        }
    }
}

impl Clone for Score {
    fn clone(&self) -> (copy: Self)
        ensures
            copy == *self,
    {
        Score {
            name: self.name.clone(),
            language: self.language.clone(),
            time_ns: self.time_ns,
            command: self.command.clone(),
        }
    }
}

impl Score {
    pub fn new(name: &str, language: &str, time_ns: u64, command: &str) -> (score: Score)
        ensures
            score@ == (ScoreView {
                name: name@,
                language: language@,
                time_ns,
                command: command@,
            }),
    {
        Score {
            name: name.to_owned(),
            language: language.to_owned(),
            time_ns,
            command: command.to_owned(),
        }
    }
}

/// The entries of a collection as plain values, in order.
pub open spec fn score_views(scores: Seq<Score>) -> Seq<ScoreView> {
    scores.map_values(|s: Score| s@)
}

} // verus!
